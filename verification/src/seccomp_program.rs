//! Compiling the system calls that a thread may make into the program that the kernel runs.
use std::collections::BTreeMap;

use vstd::prelude::*;

use crate::seccomp_filters::{self, get_seccomp_rules, ArgLen, ArgTest, ChainView, RuleView,
    ArgCondition, CallRule, Target, Thread};
use crate::syscall::{Arch, Syscall};

verus! {

/// What becomes of a system call that no rule lets through.
#[derive(Clone, Copy, Debug, PartialEq, Eq, Structural)]
pub enum SeccompAction {
    Allow,
    Errno(u32),
    KillThread,
    KillProcess,
    Log,
    Trace(u32),
    Trap,
}

/// What the filters of this library do with a system call.
#[derive(Clone, Copy, Debug, PartialEq, Eq, Structural)]
pub enum Verdict {
    Allow,
    Log,
    Trap,
}

/// One instruction of a filter program.
#[derive(Clone, Copy, Debug, PartialEq, Eq, Structural)]
pub struct SockFilter {
    pub code: u16,
    pub jt: u8,
    pub jf: u8,
    pub k: u32,
}

/// A condition of the `seccompiler` crate.
#[verifier::external_type_specification]
#[verifier::external_body]
pub struct ExSeccompCondition(seccompiler::SeccompCondition);

/// A rule of the `seccompiler` crate.
#[verifier::external_type_specification]
#[verifier::external_body]
pub struct ExSeccompRule(seccompiler::SeccompRule);

/// An error of the `seccompiler` crate.
#[verifier::external_type_specification]
#[verifier::external_body]
pub struct ExBackendError(seccompiler::BackendError);

/// Why no filter could be built.
#[derive(Debug)]
pub enum Error {
    /// The rules could not be compiled.
    Backend(seccompiler::BackendError),
}

/// What was wrong with rules that could not be compiled.
#[derive(Clone, Copy, Debug, PartialEq, Eq, Structural)]
pub enum BackendFault {
    /// A rule has no conditions.
    EmptyRule,
    /// The program is longer than the kernel takes.
    FilterTooLarge,
    /// Calls that are let through and all others are treated alike.
    IdenticalActions,
    /// A condition is on an argument past the sixth.
    InvalidArgumentNumber,
}

/// What an error of the `seccompiler` crate says was wrong.
pub uninterp spec fn backend_fault(error: seccompiler::BackendError) -> BackendFault;

/// `outcome` reports exactly `fault`.
pub open spec fn reports<T>(outcome: Result<T, Error>, fault: Option<BackendFault>) -> bool {
    match fault {
        Some(f) => outcome matches Err(Error::Backend(e)) && backend_fault(e) == f,
        None => outcome is Ok,
    }
}

/// What a condition of the `seccompiler` crate compares.
pub uninterp spec fn condition_content(condition: seccompiler::SeccompCondition) -> ArgCondition;

/// The conditions that a rule of the `seccompiler` crate holds.
pub uninterp spec fn rule_content(rule: seccompiler::SeccompRule) -> Seq<ArgCondition>;

/// What `seccompiler::SeccompFilter` compiles to, where it does.
pub uninterp spec fn filter_program(
    rules: Map<i64, Seq<Seq<ArgCondition>>>,
    mismatch: Verdict,
    on_match: Verdict,
    arch: Arch,
) -> Option<Seq<SockFilter>>;

/// Calls `seccompiler::SeccompCondition::new`, which keeps what it is given and refuses only an
/// argument past the sixth.
#[verifier::external_body]
fn new_condition(condition: ArgCondition) -> (r: Result<
    seccompiler::SeccompCondition,
    seccompiler::BackendError,
>)
    ensures
        r is Ok <==> condition.arg_index <= 5,
        r matches Ok(made) ==> condition_content(made) == condition,
        r matches Err(e) ==> backend_fault(e) == BackendFault::InvalidArgumentNumber,
{
    let len = match condition.arg_len {
        ArgLen::Dword => seccompiler::SeccompCmpArgLen::Dword,
        ArgLen::Qword => seccompiler::SeccompCmpArgLen::Qword,
    };
    let test = match condition.test {
        ArgTest::Eq => seccompiler::SeccompCmpOp::Eq,
        ArgTest::Ge => seccompiler::SeccompCmpOp::Ge,
        ArgTest::Gt => seccompiler::SeccompCmpOp::Gt,
        ArgTest::Le => seccompiler::SeccompCmpOp::Le,
        ArgTest::Lt => seccompiler::SeccompCmpOp::Lt,
        ArgTest::MaskedEq(mask) => seccompiler::SeccompCmpOp::MaskedEq(mask),
        ArgTest::Ne => seccompiler::SeccompCmpOp::Ne,
    };
    seccompiler::SeccompCondition::new(condition.arg_index, len, test, condition.value)
}

/// Calls `seccompiler::SeccompRule::new`, which keeps the conditions and refuses only to have none.
#[verifier::external_body]
fn new_rule(conditions: Vec<seccompiler::SeccompCondition>) -> (r: Result<
    seccompiler::SeccompRule,
    seccompiler::BackendError,
>)
    ensures
        r is Ok <==> conditions@.len() > 0,
        r matches Ok(rule) ==> rule_content(rule) == conditions@.map_values(
            |condition: seccompiler::SeccompCondition| condition_content(condition),
        ),
        r matches Err(e) ==> backend_fault(e) == BackendFault::EmptyRule,
{
    seccompiler::SeccompRule::new(conditions)
}

/// The conditions that the rules of each system call hold.
pub open spec fn rules_content(rules: Map<i64, Vec<seccompiler::SeccompRule>>) -> Map<
    i64,
    ChainView,
> {
    rules.map_values(
        |chain: Vec<seccompiler::SeccompRule>|
            chain@.map_values(|rule: seccompiler::SeccompRule| rule_content(rule)),
    )
}

/// At most 100 system calls, each with at most six rules that compare 4 bytes of one argument for
/// equality. A rule compiles to five instructions and a system call adds two, or five where it has
/// no rule, so that such rules compile to fewer than the 4096 instructions of a program.
pub open spec fn compact(rules: Map<i64, ChainView>) -> bool {
    &&& rules.dom().finite()
    &&& rules.dom().len() <= 100
    &&& forall|number: i64|
        rules.contains_key(number) ==> (#[trigger] rules[number]).len() <= 6 && forall|i: int|
            0 <= i < rules[number].len() ==> plain_rule(#[trigger] rules[number][i])
}

/// The rule compares 4 bytes of one argument for equality.
pub open spec fn plain_rule(rule: Seq<ArgCondition>) -> bool {
    &&& rule.len() == 1
    &&& rule[0].arg_index <= 5
    &&& rule[0].arg_len is Dword
    &&& rule[0].test is Eq
}

/// Calls `seccompiler::SeccompFilter::new` and compiles the filter through its `TryFrom`
/// conversion to a program. The result depends on the rules' contents, the two verdicts and the
/// architecture alone. Two equal verdicts are refused, and otherwise only a program that is too
/// long; that of compact rules is not. What the instructions of a program are is left unsaid.
#[verifier::external_body]
fn compile(
    rules: BTreeMap<i64, Vec<seccompiler::SeccompRule>>,
    mismatch: Verdict,
    on_match: Verdict,
    arch: Arch,
) -> (r: Result<Vec<SockFilter>, seccompiler::BackendError>)
    requires
        forall|number: i64| #[trigger]
            rules@.contains_key(number) ==> 0 <= number <= u32::MAX,
    ensures
        match r {
            Ok(program) => filter_program(rules_content(rules@), mismatch, on_match, arch) == Some(
                program@,
            ),
            Err(_) => filter_program(rules_content(rules@), mismatch, on_match, arch) is None,
        },
        mismatch == on_match ==> r is Err,
        r matches Err(e) ==> backend_fault(e) == if mismatch == on_match {
            BackendFault::IdenticalActions
        } else {
            BackendFault::FilterTooLarge
        },
        mismatch != on_match && compact(rules_content(rules@)) ==> r is Ok,
{
    let action = |verdict| match verdict {
        Verdict::Allow => seccompiler::SeccompAction::Allow,
        Verdict::Log => seccompiler::SeccompAction::Log,
        Verdict::Trap => seccompiler::SeccompAction::Trap,
    };
    let arch = match arch {
        Arch::X86_64 => seccompiler::TargetArch::x86_64,
        Arch::Aarch64 => seccompiler::TargetArch::aarch64,
    };
    let filter = seccompiler::SeccompFilter::new(rules, action(mismatch), action(on_match), arch)?;
    let program: seccompiler::BpfProgram = filter.try_into()?;
    let plain = program.into_iter().map(
        |i| SockFilter { code: i.code, jt: i.jt, jf: i.jf, k: i.k },
    );
    Ok(plain.collect())
}

/// Why a rule cannot be built.
pub open spec fn rule_fault(rule: Seq<ArgCondition>) -> Option<BackendFault> {
    if exists|i: int| 0 <= i < rule.len() && (#[trigger] rule[i]).arg_index > 5 {
        Some(BackendFault::InvalidArgumentNumber)
    } else if rule.len() == 0 {
        Some(BackendFault::EmptyRule)
    } else {
        None
    }
}

/// Why the first rule of a chain that cannot be built cannot be.
pub open spec fn chain_fault(chain: ChainView) -> Option<BackendFault>
    decreases chain.len(),
{
    if chain.len() == 0 {
        None
    } else if rule_fault(chain[0]) is Some {
        rule_fault(chain[0])
    } else {
        chain_fault(chain.drop_first())
    }
}

/// Why the first rule of a list that cannot be built cannot be.
pub open spec fn list_fault(rules: Seq<RuleView>) -> Option<BackendFault>
    decreases rules.len(),
{
    if rules.len() == 0 {
        None
    } else if chain_fault(rules[0].1) is Some {
        chain_fault(rules[0].1)
    } else {
        list_fault(rules.drop_first())
    }
}

/// The rules of each system call of a list. Where a call is listed twice, its last rules stand.
pub open spec fn collected(rules: Seq<RuleView>) -> Map<i64, ChainView>
    decreases rules.len(),
{
    if rules.len() == 0 {
        Map::empty()
    } else {
        collected(rules.drop_last()).insert(rules.last().0, rules.last().1)
    }
}

/// Hands the conditions of a rule to the compiler.
fn build_rule(rule: &CallRule) -> (r: Result<seccompiler::SeccompRule, Error>)
    ensures
        reports(r, rule_fault(rule@)),
        r matches Ok(built) ==> rule_content(built) == rule@,
{
    let mut conditions: Vec<seccompiler::SeccompCondition> = Vec::new();
    let mut i: usize = 0;
    while i < rule.conditions.len()
        invariant
            i <= rule.conditions.len(),
            conditions@.len() == i,
            forall|k: int| 0 <= k < i ==> condition_content(#[trigger] conditions@[k]) == rule@[k],
            forall|k: int| 0 <= k < i ==> (#[trigger] rule@[k]).arg_index <= 5,
        decreases rule.conditions.len() - i,
    {
        match new_condition(rule.conditions[i]) {
            Ok(condition) => conditions.push(condition),
            Err(error) => {
                assert(rule@[i as int].arg_index > 5);
                return Err(Error::Backend(error));
            },
        }
        i = i + 1;
    }
    assert(conditions@.map_values(
        |condition: seccompiler::SeccompCondition| condition_content(condition),
    ) =~= rule@);
    match new_rule(conditions) {
        Ok(built) => Ok(built),
        Err(error) => Err(Error::Backend(error)),
    }
}

/// Hands the rules of a system call to the compiler.
fn build_chain(chain: &Vec<CallRule>) -> (r: Result<Vec<seccompiler::SeccompRule>, Error>)
    ensures
        reports(r, chain_fault(seccomp_filters::chain_view(chain@))),
        r matches Ok(built) ==> built@.map_values(
            |rule: seccompiler::SeccompRule| rule_content(rule),
        ) == seccomp_filters::chain_view(chain@),
{
    let mut built: Vec<seccompiler::SeccompRule> = Vec::new();
    let ghost view = seccomp_filters::chain_view(chain@);
    let mut i: usize = 0;
    assert(view.skip(0) =~= view);
    while i < chain.len()
        invariant
            i <= chain.len(),
            view == seccomp_filters::chain_view(chain@),
            built@.len() == i,
            forall|k: int| 0 <= k < i ==> rule_content(#[trigger] built@[k]) == view[k],
            chain_fault(view) == chain_fault(view.skip(i as int)),
        decreases chain.len() - i,
    {
        proof {
            assert(view.skip(i as int)[0] == chain@[i as int]@);
            assert(view.skip(i as int).drop_first() =~= view.skip(i + 1));
        }
        match build_rule(&chain[i]) {
            Ok(rule) => built.push(rule),
            Err(error) => return Err(error),
        }
        i = i + 1;
    }
    assert(built@.map_values(|rule: seccompiler::SeccompRule| rule_content(rule)) =~= view);
    Ok(built)
}

/// Hands the rules of every system call to the compiler, by number.
fn build_rules(rules: &Vec<(i64, Vec<CallRule>)>) -> (r: Result<
    BTreeMap<i64, Vec<seccompiler::SeccompRule>>,
    Error,
>)
    ensures
        reports(r, list_fault(seccomp_filters::rules_view(rules@))),
        r matches Ok(built) ==> rules_content(built@) == collected(
            seccomp_filters::rules_view(rules@),
        ),
{
    let mut built: BTreeMap<i64, Vec<seccompiler::SeccompRule>> = BTreeMap::new();
    let ghost view = seccomp_filters::rules_view(rules@);
    let mut i: usize = 0;
    assert(view.take(0) =~= seq![]);
    assert(view.skip(0) =~= view);
    assert(rules_content(built@) =~= Map::empty());
    while i < rules.len()
        invariant
            i <= rules.len(),
            view == seccomp_filters::rules_view(rules@),
            rules_content(built@) == collected(view.take(i as int)),
            list_fault(view) == list_fault(view.skip(i as int)),
        decreases rules.len() - i,
    {
        proof {
            assert(view[i as int] == (
                rules@[i as int].0,
                seccomp_filters::chain_view(rules@[i as int].1@),
            ));
            assert(view.skip(i as int)[0] == view[i as int]);
            assert(view.skip(i as int).drop_first() =~= view.skip(i + 1));
        }
        let chain = match build_chain(&rules[i].1) {
            Ok(chain) => chain,
            Err(error) => return Err(error),
        };
        let ghost before = built@;
        built.insert(rules[i].0, chain);
        proof {
            assert(view.take(i + 1).drop_last() =~= view.take(i as int));
            assert(view.take(i + 1).last() == view[i as int]);
            assert(rules_content(built@) =~= rules_content(before).insert(
                view[i as int].0,
                view[i as int].1,
            ));
        }
        i = i + 1;
    }
    assert(view.take(i as int) =~= view);
    Ok(built)
}

/// The system call is known to Linux, and its rules compare 4 bytes of one argument each.
pub open spec fn plain_entry(entry: RuleView) -> bool {
    &&& 0 <= entry.0 <= u32::MAX
    &&& entry.1.len() <= 6
    &&& forall|i: int| 0 <= i < entry.1.len() ==> plain_rule(#[trigger] entry.1[i])
}

/// A short list of plain entries is collected into compact rules.
proof fn lemma_collected_compact(rules: Seq<RuleView>)
    requires
        forall|i: int| 0 <= i < rules.len() ==> plain_entry(#[trigger] rules[i]),
    ensures
        collected(rules).dom().finite(),
        collected(rules).dom().len() <= rules.len(),
        forall|number: i64|
            collected(rules).contains_key(number) ==> plain_entry(
                (number, #[trigger] collected(rules)[number]),
            ),
    decreases rules.len(),
{
    if rules.len() > 0 {
        let rest = rules.drop_last();
        assert forall|i: int| 0 <= i < rest.len() implies plain_entry(#[trigger] rest[i]) by {
            assert(rest[i] == rules[i]);
        }
        lemma_collected_compact(rest);
        assert(plain_entry(rules[rules.len() - 1]));
        assert(collected(rules).dom() =~= collected(rest).dom().insert(rules.last().0));
    }
}

/// All that a thread may call is plain.
proof fn lemma_thread_rules_plain(thread_type: Thread, target: Target)
    ensures
        seccomp_filters::seccomp_rules(thread_type, target).len() <= 100,
        forall|i: int|
            0 <= i < seccomp_filters::seccomp_rules(thread_type, target).len() ==> plain_entry(
                #[trigger] seccomp_filters::seccomp_rules(thread_type, target)[i],
            ),
{
}

/// The rules of each system call that a thread may make.
pub open spec fn thread_calls(thread_type: Thread, target: Target) -> Map<i64, ChainView> {
    collected(seccomp_filters::seccomp_rules(thread_type, target))
}

/// What a filter does with a system call that no rule lets through.
pub open spec fn mismatch_verdict(action: SeccompAction) -> Verdict {
    if action is Log {
        Verdict::Log
    } else {
        Verdict::Trap
    }
}

/// Plain rules can be built.
proof fn lemma_plain_chain_builds(chain: ChainView)
    requires
        forall|i: int| 0 <= i < chain.len() ==> plain_rule(#[trigger] chain[i]),
    ensures
        chain_fault(chain) is None,
    decreases chain.len(),
{
    if chain.len() > 0 {
        let rest = chain.drop_first();
        assert forall|i: int| 0 <= i < rest.len() implies plain_rule(#[trigger] rest[i]) by {
            assert(rest[i] == chain[i + 1]);
        }
        lemma_plain_chain_builds(rest);
        assert(plain_rule(chain[0]));
    }
}

/// The rules of plain entries can be built.
proof fn lemma_plain_list_builds(rules: Seq<RuleView>)
    requires
        forall|i: int| 0 <= i < rules.len() ==> plain_entry(#[trigger] rules[i]),
    ensures
        list_fault(rules) is None,
    decreases rules.len(),
{
    if rules.len() > 0 {
        let rest = rules.drop_first();
        assert forall|i: int| 0 <= i < rest.len() implies plain_entry(#[trigger] rest[i]) by {
            assert(rest[i] == rules[i + 1]);
        }
        lemma_plain_list_builds(rest);
        assert(plain_entry(rules[0]));
        lemma_plain_chain_builds(rules[0].1);
    }
}

/// Why a list is refused whose program would be `program`.
pub open spec fn program_fault(
    rules: Seq<RuleView>,
    mismatch: Verdict,
    program: Option<Seq<SockFilter>>,
) -> Option<BackendFault> {
    if list_fault(rules) is Some {
        list_fault(rules)
    } else if mismatch is Allow {
        Some(BackendFault::IdenticalActions)
    } else if program is None {
        Some(BackendFault::FilterTooLarge)
    } else {
        None
    }
}

/// Compiles a list of system calls with their rules into a program that lets them through and
/// treats all others by `mismatch`.
pub fn build_program(
    rules: &Vec<(i64, Vec<CallRule>)>,
    mismatch: Verdict,
    arch: Arch,
) -> (r: Result<Vec<SockFilter>, Error>)
    requires
        forall|i: int| 0 <= i < rules@.len() ==> 0 <= (#[trigger] rules@[i]).0 <= u32::MAX,
    ensures
        ({
            let view = seccomp_filters::rules_view(rules@);
            let program = filter_program(collected(view), mismatch, Verdict::Allow, arch);
            &&& reports(r, program_fault(view, mismatch, program))
            &&& r matches Ok(made) ==> program == Some(made@)
            &&& rules@.len() <= 100 && !(mismatch is Allow) && (forall|i: int|
                0 <= i < view.len() ==> plain_entry(#[trigger] view[i])) ==> r is Ok
        }),
{
    let ghost view = seccomp_filters::rules_view(rules@);
    proof {
        if forall|i: int| 0 <= i < view.len() ==> plain_entry(#[trigger] view[i]) {
            lemma_collected_compact(view);
            lemma_plain_list_builds(view);
        }
        lemma_collected_numbers(view);
        assert forall|i: int| 0 <= i < view.len() implies 0 <= (#[trigger] view[i]).0
            <= u32::MAX by {
            assert(view[i].0 == rules@[i].0);
        }
    }
    let built = match build_rules(rules) {
        Ok(built) => built,
        Err(error) => return Err(error),
    };
    proof {
        assert forall|number: i64| #[trigger] built@.contains_key(number) implies 0 <= number
            <= u32::MAX by {
            assert(rules_content(built@).contains_key(number));
        }
    }
    match compile(built, mismatch, Verdict::Allow, arch) {
        Ok(program) => Ok(program),
        Err(error) => Err(Error::Backend(error)),
    }
}

/// Every collected number is one of the list.
pub proof fn lemma_collected_numbers(rules: Seq<RuleView>)
    ensures
        forall|number: i64| #[trigger]
            collected(rules).contains_key(number) <==> exists|i: int|
                0 <= i < rules.len() && (#[trigger] rules[i]).0 == number,
    decreases rules.len(),
{
    if rules.len() > 0 {
        let rest = rules.drop_last();
        lemma_collected_numbers(rest);
        assert forall|number: i64| #[trigger] collected(rules).contains_key(number) <==> exists|i:
            int| 0 <= i < rules.len() && (#[trigger] rules[i]).0 == number by {
            if collected(rest).contains_key(number) {
                let i = choose|i: int| 0 <= i < rest.len() && (#[trigger] rest[i]).0 == number;
                assert(rules[i].0 == number);
            }
            if exists|i: int| 0 <= i < rules.len() && (#[trigger] rules[i]).0 == number {
                let i = choose|i: int| 0 <= i < rules.len() && (#[trigger] rules[i]).0 == number;
                if i < rest.len() {
                    assert(rest[i].0 == number);
                }
            }
            assert(rules[rules.len() - 1] == rules.last());
        }
    }
}

/// The program that filters the system calls of a thread. A thread that may make every call has
/// the empty program.
pub fn get_seccomp_filter(
    seccomp_action: &SeccompAction,
    thread_type: Thread,
    target: Target,
) -> (r: Result<Vec<SockFilter>, Error>)
    ensures
        r is Ok,
        seccomp_action is Allow ==> r->Ok_0@ == Seq::<SockFilter>::empty(),
        !(seccomp_action is Allow) ==> filter_program(
            thread_calls(thread_type, target),
            mismatch_verdict(*seccomp_action),
            Verdict::Allow,
            target.arch,
        ) == Some(r->Ok_0@),
{
    let mismatch = match seccomp_action {
        SeccompAction::Allow => return Ok(Vec::new()),
        SeccompAction::Log => Verdict::Log,
        _ => Verdict::Trap,
    };
    let rules = get_seccomp_rules(thread_type, target);
    proof {
        let view = seccomp_filters::rules_view(rules@);
        lemma_thread_rules_plain(thread_type, target);
        assert forall|i: int| 0 <= i < rules@.len() implies 0 <= (#[trigger] rules@[i]).0
            <= u32::MAX by {
            assert(plain_entry(view[i]));
        }
    }
    build_program(&rules, mismatch, target.arch)
}

/// Every device thread may make the common calls, whatever their arguments.
pub proof fn law_common_calls_allowed(thread_type: Thread, target: Target, i: int)
    requires
        0 <= i < seccomp_filters::common_rules(target).len(),
    ensures
        ({
            let number = seccomp_filters::common_rules(target)[i].0;
            &&& thread_calls(thread_type, target).contains_key(number)
            &&& thread_calls(thread_type, target)[number] == Seq::<Seq<ArgCondition>>::empty()
        }),
{
    let common = seccomp_filters::common_rules(target);
    assert forall|k: int| 0 <= k < common.len() implies (#[trigger] common[k]).1
        == Seq::<Seq<ArgCondition>>::empty() by {}
    lemma_suffix_allowed(
        seccomp_filters::thread_rules(thread_type, target),
        common,
        common.len() as int,
        i,
    );
    assert(common.take(common.len() as int) =~= common);
}

/// What the last entries of a list let through without conditions is let through.
proof fn lemma_suffix_allowed(own: Seq<RuleView>, common: Seq<RuleView>, count: int, i: int)
    requires
        0 <= i < count <= common.len(),
        forall|k: int|
            0 <= k < common.len() ==> (#[trigger] common[k]).1 == Seq::<Seq<ArgCondition>>::empty(),
    ensures
        collected(own + common.take(count)).contains_key(common[i].0),
        collected(own + common.take(count))[common[i].0] == Seq::<Seq<ArgCondition>>::empty(),
    decreases count,
{
    let all = own + common.take(count);
    assert(all.drop_last() =~= own + common.take(count - 1));
    assert(all.last() == common[count - 1]);
    if i < count - 1 {
        lemma_suffix_allowed(own, common, count - 1, i);
    }
}

/// The rules that stand for a number are those of one of its entries.
pub proof fn lemma_collected_entry(rules: Seq<RuleView>, number: i64)
    requires
        collected(rules).contains_key(number),
    ensures
        exists|i: int|
            0 <= i < rules.len() && #[trigger] rules[i] == (number, collected(rules)[number]),
    decreases rules.len(),
{
    let last = rules.len() - 1;
    if rules[last].0 == number {
        assert(rules[last] == (number, collected(rules)[number]));
    } else {
        let rest = rules.drop_last();
        lemma_collected_entry(rest, number);
        let i = choose|i: int|
            0 <= i < rest.len() && #[trigger] rest[i] == (number, collected(rest)[number]);
        assert(rules[i] == (number, collected(rules)[number]));
    }
}

/// The rule lets an ioctl through by its request number alone.
pub open spec fn request_rule(rule: Seq<ArgCondition>) -> bool {
    rule.len() == 1 && rule == seccomp_filters::request_is(rule[0].value)
}

/// No thread may make every ioctl: one that may make any is held to certain request numbers.
pub proof fn law_ioctl_guarded(thread_type: Thread, target: Target)
    ensures
        ({
            let calls = thread_calls(thread_type, target);
            let ioctl = Syscall::Ioctl.number(target.arch);
            calls.contains_key(ioctl) ==> {
                &&& calls[ioctl].len() > 0
                &&& forall|i: int|
                    0 <= i < calls[ioctl].len() ==> request_rule(#[trigger] calls[ioctl][i])
            }
        }),
{
    let rules = seccomp_filters::seccomp_rules(thread_type, target);
    let calls = thread_calls(thread_type, target);
    let ioctl = Syscall::Ioctl.number(target.arch);
    if calls.contains_key(ioctl) {
        lemma_collected_entry(rules, ioctl);
        let i = choose|i: int|
            0 <= i < rules.len() && #[trigger] rules[i] == (ioctl, collected(rules)[ioctl]);
        lemma_ioctl_entry(thread_type, target, i);
    }
}

/// An entry for ioctls has rules, and each is for a request number.
proof fn lemma_ioctl_entry(thread_type: Thread, target: Target, i: int)
    requires
        0 <= i < seccomp_filters::seccomp_rules(thread_type, target).len(),
        seccomp_filters::seccomp_rules(thread_type, target)[i].0 == Syscall::Ioctl.number(
            target.arch,
        ),
    ensures
        seccomp_filters::seccomp_rules(thread_type, target)[i].1.len() > 0,
        forall|k: int|
            0 <= k < seccomp_filters::seccomp_rules(thread_type, target)[i].1.len()
                ==> request_rule(
                #[trigger] seccomp_filters::seccomp_rules(thread_type, target)[i].1[k],
            ),
{
}

/// The calls by which the live overlay's index is saved and found again, on some C library.
pub open spec fn live_index_call(call: Syscall, arch: Arch) -> bool {
    ||| call is Mkdirat || call is Newfstatat || call is Renameat || call is Renameat2
    ||| call is Statx || call is Openat || call is Write || call is Close
    ||| call is Fsync || call is Fdatasync || call is Getrandom
    ||| arch is X86_64 && (call is Mkdir || call is Rename || call is Stat || call is Unlink
        || call is Open)
    ||| arch is Aarch64 && call is Unlinkat
}

/// A block device's threads may make the calls by which the live overlay's index is saved,
/// whatever their arguments.
pub proof fn law_block_thread_saves_index(target: Target, call: Syscall)
    requires
        live_index_call(call, target.arch),
    ensures
        ({
            let calls = thread_calls(Thread::VirtioBlock, target);
            let number = call.number(target.arch);
            calls.contains_key(number) && calls[number] == Seq::<Seq<ArgCondition>>::empty()
        }),
{
    let rules = seccomp_filters::seccomp_rules(Thread::VirtioBlock, target);
    let number = call.number(target.arch);
    lemma_collected_numbers(rules);
    lemma_block_call_listed(target, call);
    lemma_collected_entry(rules, number);
    let i = choose|i: int|
        0 <= i < rules.len() && #[trigger] rules[i] == (number, collected(rules)[number]);
    lemma_block_call_open(target, i);
}

/// The calls by which the index is saved are among those of a block device's threads.
proof fn lemma_block_call_listed(target: Target, call: Syscall)
    requires
        live_index_call(call, target.arch),
    ensures
        exists|i: int|
            0 <= i < seccomp_filters::seccomp_rules(Thread::VirtioBlock, target).len()
                && (#[trigger] seccomp_filters::seccomp_rules(Thread::VirtioBlock, target)[i]).0
                == call.number(target.arch),
{
    let rules = seccomp_filters::seccomp_rules(Thread::VirtioBlock, target);
    let position: int = match target.arch {
        Arch::X86_64 => match call {
            Syscall::Fdatasync => 2,
            Syscall::Fsync => 3,
            Syscall::Getrandom => 5,
            Syscall::Mkdir => 12,
            Syscall::Mkdirat => 13,
            Syscall::Newfstatat => 14,
            Syscall::Open => 15,
            Syscall::Rename => 20,
            Syscall::Renameat => 21,
            Syscall::Renameat2 => 22,
            Syscall::Stat => 26,
            Syscall::Statx => 27,
            Syscall::Unlink => 29,
            Syscall::Close => 32,
            Syscall::Openat => 47,
            _ => 52,
        },
        Arch::Aarch64 => match call {
            Syscall::Fdatasync => 2,
            Syscall::Fsync => 3,
            Syscall::Getrandom => 5,
            Syscall::Mkdirat => 12,
            Syscall::Newfstatat => 13,
            Syscall::Renameat => 18,
            Syscall::Renameat2 => 19,
            Syscall::Statx => 23,
            Syscall::Unlinkat => 25,
            Syscall::Close => 28,
            Syscall::Openat => 42,
            _ => 47,
        },
    };
    assert(rules[position] == seccomp_filters::allowed(call, target.arch));
}

/// All that a block device's threads may call but ioctls is let through without conditions.
proof fn lemma_block_call_open(target: Target, i: int)
    requires
        0 <= i < seccomp_filters::seccomp_rules(Thread::VirtioBlock, target).len(),
        seccomp_filters::seccomp_rules(Thread::VirtioBlock, target)[i].0 != Syscall::Ioctl.number(
            target.arch,
        ),
    ensures
        seccomp_filters::seccomp_rules(Thread::VirtioBlock, target)[i].1
            == Seq::<Seq<ArgCondition>>::empty(),
{
}

/// The last rules that a list gives for a number stand, and a number that is not listed has none.
pub proof fn law_last_rules_stand(rules: Seq<RuleView>, number: i64, i: int)
    requires
        -1 <= i < rules.len(),
        i >= 0 ==> rules[i].0 == number,
        forall|j: int| i < j < rules.len() ==> (#[trigger] rules[j]).0 != number,
    ensures
        i < 0 ==> !collected(rules).contains_key(number),
        i >= 0 ==> collected(rules).contains_key(number) && collected(rules)[number] == rules[i].1,
    decreases rules.len(),
{
    if rules.len() > 0 && i < rules.len() - 1 {
        let rest = rules.drop_last();
        assert forall|j: int| i < j < rest.len() implies (#[trigger] rest[j]).0 != number by {
            assert(rest[j] == rules[j]);
        }
        assert(rules[rules.len() - 1].0 != number);
        law_last_rules_stand(rest, number, i);
    }
}

/// A rule can be built exactly when it has conditions and all are on one of the six arguments of a
/// system call.
pub proof fn law_rule_builds(rule: Seq<ArgCondition>)
    ensures
        rule_fault(rule) is None <==> rule.len() > 0 && forall|i: int|
            0 <= i < rule.len() ==> (#[trigger] rule[i]).arg_index < 6,
        rule.len() == 0 ==> rule_fault(rule) == Some(BackendFault::EmptyRule),
        rule.len() > 0 && rule_fault(rule) is Some ==> rule_fault(rule) == Some(
            BackendFault::InvalidArgumentNumber,
        ),
{
}

/// A chain can be built exactly when each of its rules can, and otherwise the first that cannot is
/// reported.
pub proof fn law_chain_builds(chain: ChainView, i: int)
    requires
        0 <= i <= chain.len(),
        i < chain.len() ==> rule_fault(chain[i]) is Some,
        forall|j: int| 0 <= j < i ==> rule_fault(#[trigger] chain[j]) is None,
    ensures
        i == chain.len() ==> chain_fault(chain) is None,
        i < chain.len() ==> chain_fault(chain) == rule_fault(chain[i]),
    decreases chain.len(),
{
    if i > 0 {
        let rest = chain.drop_first();
        assert forall|j: int| 0 <= j < i - 1 implies rule_fault(#[trigger] rest[j]) is None by {
            assert(rest[j] == chain[j + 1]);
        }
        assert(rule_fault(chain[0]) is None);
        if i < chain.len() {
            assert(rest[i - 1] == chain[i]);
        }
        law_chain_builds(rest, i - 1);
    }
}

/// A list can be built exactly when each of its chains can, and otherwise the first that cannot is
/// reported.
pub proof fn law_list_builds(rules: Seq<RuleView>, i: int)
    requires
        0 <= i <= rules.len(),
        i < rules.len() ==> chain_fault(rules[i].1) is Some,
        forall|j: int| 0 <= j < i ==> chain_fault((#[trigger] rules[j]).1) is None,
    ensures
        i == rules.len() ==> list_fault(rules) is None,
        i < rules.len() ==> list_fault(rules) == chain_fault(rules[i].1),
    decreases rules.len(),
{
    if i > 0 {
        let rest = rules.drop_first();
        assert forall|j: int| 0 <= j < i - 1 implies chain_fault(
            (#[trigger] rest[j]).1,
        ) is None by {
            assert(rest[j] == rules[j + 1]);
        }
        assert(chain_fault(rules[0].1) is None);
        if i < rules.len() {
            assert(rest[i - 1] == rules[i]);
        }
        law_list_builds(rest, i - 1);
    }
}

/// A list is compiled exactly when it can be built, treats other calls differently, and has a
/// program.
pub proof fn law_program_builds(
    rules: Seq<RuleView>,
    mismatch: Verdict,
    program: Option<Seq<SockFilter>>,
)
    ensures
        program_fault(rules, mismatch, program) is None <==> list_fault(rules) is None && mismatch
            != Verdict::Allow && program is Some,
        list_fault(rules) is Some ==> program_fault(rules, mismatch, program) == list_fault(rules),
        list_fault(rules) is None && mismatch == Verdict::Allow ==> program_fault(
            rules,
            mismatch,
            program,
        ) == Some(BackendFault::IdenticalActions),
        list_fault(rules) is None && mismatch != Verdict::Allow && program is None
            ==> program_fault(rules, mismatch, program) == Some(BackendFault::FilterTooLarge),
{
}

/// An outcome that reports a fault is an error of that fault, and one that reports none is a
/// success.
pub proof fn law_reports<T>(outcome: Result<T, Error>, fault: Option<BackendFault>)
    requires
        reports(outcome, fault),
    ensures
        fault is None <==> outcome is Ok,
        outcome matches Err(Error::Backend(e)) ==> fault == Some(backend_fault(e)),
{
}

/// A call that no rule lets through is logged where the action is to log, and traps otherwise; it
/// is never let through.
pub proof fn law_mismatch_verdict(action: SeccompAction)
    ensures
        mismatch_verdict(action) == Verdict::Log <==> action == SeccompAction::Log,
        mismatch_verdict(action) == Verdict::Trap <==> action != SeccompAction::Log,
{
}

/// The calls of a thread are those of the list of its rules, of which the last stand.
pub proof fn law_thread_calls(thread_type: Thread, target: Target, number: i64, i: int)
    requires
        0 <= i < seccomp_filters::seccomp_rules(thread_type, target).len(),
        seccomp_filters::seccomp_rules(thread_type, target)[i].0 == number,
        forall|j: int|
            i < j < seccomp_filters::seccomp_rules(thread_type, target).len() ==> (
            #[trigger] seccomp_filters::seccomp_rules(thread_type, target)[j]).0 != number,
    ensures
        thread_calls(thread_type, target).contains_key(number),
        thread_calls(thread_type, target)[number] == seccomp_filters::seccomp_rules(
            thread_type,
            target,
        )[i].1,
{
    law_last_rules_stand(seccomp_filters::seccomp_rules(thread_type, target), number, i);
}

/// A list that can be built has only rules that can be.
pub proof fn lemma_built_rule(rules: Seq<RuleView>, i: int, k: int)
    requires
        list_fault(rules) is None,
        0 <= i < rules.len(),
        0 <= k < rules[i].1.len(),
    ensures
        rule_fault(rules[i].1[k]) is None,
    decreases rules.len(),
{
    if i > 0 {
        assert(rules.drop_first()[i - 1] == rules[i]);
        lemma_built_rule(rules.drop_first(), i - 1, k);
    } else {
        lemma_built_chain(rules[0].1, k);
    }
}

proof fn lemma_built_chain(chain: ChainView, k: int)
    requires
        chain_fault(chain) is None,
        0 <= k < chain.len(),
    ensures
        rule_fault(chain[k]) is None,
    decreases chain.len(),
{
    if k > 0 {
        assert(chain.drop_first()[k - 1] == chain[k]);
        lemma_built_chain(chain.drop_first(), k - 1);
    }
}

} // verus!
