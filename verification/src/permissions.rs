//! Who may make which system call: the rules of the threads, told by the calls.
use vstd::prelude::*;

use crate::seccomp_filters::{self, ArgCondition, ArgLen, ArgTest, ChainView, RuleView, Target,
    Thread};
use crate::seccomp_program;
use crate::syscall::{self, Syscall};

verus! {

/// The thread talks to a vhost-user backend.
pub open spec fn vhost_user(thread: Thread) -> bool {
    thread is VirtioVhostBlock || thread is VirtioVhostFs || thread is VirtioGenericVhostUser
        || thread is VirtioVhostNet
}

/// The thread starts threads of its own.
pub open spec fn spawning(thread: Thread) -> bool {
    thread is VirtioBlock || thread is VirtioConsole || thread is VirtioRng || thread is VirtioRtc
        || thread is VirtioWatchdog
}

/// The thread changes the host's access to the memory of SEV-SNP guests.
pub open spec fn shares_pages(thread: Thread) -> bool {
    thread is VirtioBlock || thread is VirtioConsole || thread is VirtioNet || thread
        is VirtioNetCtl || thread is VirtioRng || thread is VirtioRtc || thread is VirtioVsock
}

/// The threads that may make a system call, by the call.
pub open spec fn may_call(thread: Thread, call: Syscall, target: Target) -> bool {
    match call {
        // Memory, events, signals and open files.
        Syscall::Brk => true,
        Syscall::ClockGettime => true,
        Syscall::Close => true,
        Syscall::Dup => true,
        Syscall::EpollCreate1 => true,
        Syscall::EpollCtl => true,
        Syscall::EpollPwait => true,
        Syscall::EpollWait => target.arch is X86_64,
        Syscall::Exit => true,
        Syscall::Fcntl => true,
        Syscall::Futex => true,
        Syscall::Gettid => true,
        Syscall::Madvise => true,
        Syscall::Mmap => true,
        Syscall::Mprotect => true,
        Syscall::Mremap => true,
        Syscall::Munmap => true,
        Syscall::Openat => true,
        Syscall::Read => true,
        Syscall::RtSigprocmask => true,
        Syscall::RtSigreturn => true,
        Syscall::Sigaltstack => true,
        Syscall::Write => true,
        // Disk images.
        Syscall::Fallocate => thread is VirtioBalloon || thread is VirtioBlock || thread
            is VirtioMem,
        Syscall::Fdatasync => thread is VirtioBlock,
        Syscall::Fsync => thread is VirtioBlock || thread is VirtioPmem,
        Syscall::Ftruncate => thread is VirtioBlock,
        Syscall::IoDestroy => thread is VirtioBlock,
        Syscall::IoGetevents => thread is VirtioBlock,
        Syscall::IoSubmit => thread is VirtioBlock,
        Syscall::IoUringEnter => thread is VirtioBlock,
        Syscall::Lseek => thread is VirtioBlock,
        Syscall::Pread64 => thread is VirtioBlock || thread is VirtioVhostFs || thread
            is VirtioGenericVhostUser,
        Syscall::Preadv => thread is VirtioBlock,
        Syscall::Pwrite64 => thread is VirtioBlock || thread is VirtioVhostFs || thread
            is VirtioGenericVhostUser,
        Syscall::Pwritev => thread is VirtioBlock,
        // The index of a live overlay.
        Syscall::Getrandom => thread is VirtioBlock,
        Syscall::Mkdir => thread is VirtioBlock && target.arch is X86_64,
        Syscall::Mkdirat => thread is VirtioBlock,
        Syscall::Newfstatat => thread is VirtioBlock,
        Syscall::Open => thread is VirtioBlock && target.arch is X86_64,
        Syscall::Rename => thread is VirtioBlock && target.arch is X86_64,
        Syscall::Renameat => thread is VirtioBlock,
        Syscall::Renameat2 => thread is VirtioBlock,
        Syscall::Stat => thread is VirtioBlock && target.arch is X86_64,
        Syscall::Statx => thread is VirtioBlock,
        Syscall::Unlink => (thread is VirtioBlock || thread is VirtioVhostNet) && target.arch
            is X86_64,
        Syscall::Unlinkat => (thread is VirtioBlock || thread is VirtioVhostNet) && target.arch
            is Aarch64,
        // Sockets.
        Syscall::Accept4 => thread is VirtioVhostNet || thread is VirtioVsock,
        Syscall::Bind => thread is VirtioVhostNet,
        Syscall::Connect => vhost_user(thread) || thread is VirtioVsock,
        Syscall::Getcwd => thread is VirtioVhostNet,
        Syscall::Listen => thread is VirtioVhostNet,
        Syscall::Recvfrom => thread is VirtioMem || thread is VirtioVsock,
        Syscall::Recvmsg => vhost_user(thread),
        Syscall::Sendmsg => vhost_user(thread) || thread is VirtioMem,
        Syscall::Sendto => thread is VirtioVhostFs || thread is VirtioGenericVhostUser || thread
            is VirtioVhostNet || thread is VirtioVsock,
        Syscall::Socket => vhost_user(thread) || thread is VirtioVsock,
        // Network packets.
        Syscall::Readv => thread is VirtioNet,
        Syscall::Writev => thread is VirtioNet,
        // Time and processors.
        Syscall::ClockNanosleep => vhost_user(thread),
        Syscall::Nanosleep => vhost_user(thread),
        Syscall::SchedGetaffinity => spawning(thread),
        Syscall::SchedSetaffinity => thread is VirtioBlock,
        Syscall::SetRobustList => spawning(thread),
        Syscall::TimerfdCreate => vhost_user(thread),
        Syscall::TimerfdSettime => vhost_user(thread) || thread is VirtioBlock || thread
            is VirtioNet || thread is VirtioWatchdog,
        // Devices of the host.
        Syscall::Ioctl => thread is VirtioBlock || thread is VirtioConsole || thread is VirtioIommu
            || thread is VirtioMem || thread is VirtioNetCtl || thread is VirtioVsock || (
        target.sev_snp && shares_pages(thread)),
    }
}

/// The threads that may make an ioctl, by its request number.
pub open spec fn may_request(thread: Thread, request: u64, target: Target) -> bool {
    ||| request == 0x5413 && thread is VirtioConsole
    ||| request == 0x1277 && thread is VirtioBlock
    ||| request == 0x127f && thread is VirtioBlock
    ||| request == 0x400454d0 && thread is VirtioNetCtl
    ||| request == 0x5421 && thread is VirtioVsock
    ||| request == 0x3b71 && (thread is VirtioIommu || thread is VirtioMem)
    ||| request == 0x3b72 && (thread is VirtioIommu || thread is VirtioMem)
    ||| request == 0x3b85 && (thread is VirtioIommu || thread is VirtioMem)
    ||| request == 0x3b86 && (thread is VirtioIommu || thread is VirtioMem)
    ||| request == 0x4010b809 && target.sev_snp && shares_pages(thread)
}

/// One of the first `count` entries of the list is for the number.
spec fn listed(rules: Seq<RuleView>, number: i64, count: int) -> bool
    decreases count,
{
    count > 0 && (rules[count - 1].0 == number || listed(rules, number, count - 1))
}

/// A number is listed exactly when there is an entry for it.
proof fn lemma_listed(rules: Seq<RuleView>, number: i64, count: int)
    requires
        0 <= count <= rules.len(),
    ensures
        listed(rules, number, count) <==> exists|i: int|
            0 <= i < count && (#[trigger] rules[i]).0 == number,
    decreases count,
{
    if count > 0 {
        lemma_listed(rules, number, count - 1);
        if rules[count - 1].0 == number {
            assert(rules[count - 1].0 == number);
        }
    }
}

/// The list has an entry for the number.
spec fn lists(rules: Seq<RuleView>, number: i64) -> bool {
    listed(rules, number, rules.len() as int)
}

/// Two lists together list what each does.
proof fn lemma_lists_both(a: Seq<RuleView>, b: Seq<RuleView>, number: i64)
    ensures
        lists(a + b, number) <==> lists(a, number) || lists(b, number),
{
    let both = a + b;
    lemma_listed(a, number, a.len() as int);
    lemma_listed(b, number, b.len() as int);
    lemma_listed(both, number, both.len() as int);
    if lists(a, number) {
        let i = choose|i: int| 0 <= i < a.len() && (#[trigger] a[i]).0 == number;
        assert(both[i].0 == number);
    }
    if lists(b, number) {
        let i = choose|i: int| 0 <= i < b.len() && (#[trigger] b[i]).0 == number;
        assert(both[a.len() + i].0 == number);
    }
    if lists(both, number) {
        let i = choose|i: int| 0 <= i < both.len() && (#[trigger] both[i]).0 == number;
        if i < a.len() {
            assert(a[i].0 == number);
        } else {
            assert(b[i - a.len()].0 == number);
        }
    }
}

/// A thread may make a call exactly when the call is among those that it is told to be allowed,
/// and then it may make it with any arguments, unless it is an ioctl.
pub proof fn law_calls_permitted(thread: Thread, call: Syscall, target: Target)
    requires
        call.exists_on(target.arch),
    ensures
        ({
            let calls = seccomp_program::thread_calls(thread, target);
            let number = call.number(target.arch);
            &&& calls.contains_key(number) <==> may_call(thread, call, target)
            &&& calls.contains_key(number) && !(call is Ioctl) ==> calls[number]
                == Seq::<Seq<ArgCondition>>::empty()
        }),
{
    let rules = seccomp_filters::seccomp_rules(thread, target);
    let number = call.number(target.arch);
    lemma_lists_both(
        seccomp_filters::thread_rules(thread, target),
        seccomp_filters::common_rules(target),
        number,
    );
    lemma_common_listed(call, target);
    lemma_thread_listed(thread, call, target);
    lemma_listed(rules, number, rules.len() as int);
    seccomp_program::lemma_collected_numbers(rules);
    if seccomp_program::thread_calls(thread, target).contains_key(number) && !(call is Ioctl) {
        seccomp_program::lemma_collected_entry(rules, number);
        let i = choose|i: int|
            0 <= i < rules.len() && #[trigger] rules[i] == (
                number,
                seccomp_program::collected(rules)[number],
            );
        syscall::law_numbers_distinct(call, Syscall::Ioctl, target.arch);
        lemma_entry_open(thread, target, i);
    }
}

/// What every thread may call is what a thread without calls of its own may.
#[verifier::rlimit(50)]
proof fn lemma_common_listed(call: Syscall, target: Target)
    requires
        call.exists_on(target.arch),
    ensures
        lists(seccomp_filters::common_rules(target), call.number(target.arch)) <==> may_call(
            Thread::VirtioVhostNetCtl,
            call,
            target,
        ),
{
    reveal_with_fuel(listed, 24);
}

/// What a thread may call beyond that is what its own list says.
proof fn lemma_thread_listed(thread: Thread, call: Syscall, target: Target)
    requires
        call.exists_on(target.arch),
    ensures
        lists(seccomp_filters::thread_rules(thread, target), call.number(target.arch)) || may_call(
            Thread::VirtioVhostNetCtl,
            call,
            target,
        ) <==> may_call(thread, call, target),
{
    lemma_own_listed(thread, call, target);
}

/// All entries but those for ioctls are without conditions.
pub proof fn lemma_entry_open(thread: Thread, target: Target, i: int)
    requires
        0 <= i < seccomp_filters::seccomp_rules(thread, target).len(),
        seccomp_filters::seccomp_rules(thread, target)[i].0 != Syscall::Ioctl.number(target.arch),
    ensures
        seccomp_filters::seccomp_rules(thread, target)[i].1
            == Seq::<Seq<ArgCondition>>::empty(),
{
}

/// A filter knows no numbers but those of calls that the thread may make.
pub proof fn law_only_permitted_calls(thread: Thread, target: Target, number: i64)
    requires
        seccomp_program::thread_calls(thread, target).contains_key(number),
    ensures
        syscall::call_of(number as int, target.arch) is Some,
        may_call(thread, syscall::call_of(number as int, target.arch)->0, target),
{
    let rules = seccomp_filters::seccomp_rules(thread, target);
    seccomp_program::lemma_collected_entry(rules, number);
    let i = choose|i: int|
        0 <= i < rules.len() && #[trigger] rules[i] == (
            number,
            seccomp_program::collected(rules)[number],
        );
    lemma_entry_known(thread, target, i);
    let call = syscall::call_of(number as int, target.arch)->0;
    syscall::law_calls_have_their_numbers(number as int, target.arch);
    law_calls_permitted(thread, call, target);
}

/// Every entry is for a call that device threads make.
pub proof fn lemma_entry_known(thread: Thread, target: Target, i: int)
    requires
        0 <= i < seccomp_filters::seccomp_rules(thread, target).len(),
    ensures
        syscall::call_of(
            seccomp_filters::seccomp_rules(thread, target)[i].0 as int,
            target.arch,
        ) is Some,
{
}

/// The rule lets a call through whose second argument is `request` in its low 4 bytes.
pub open spec fn admits_request_number(rule: Seq<ArgCondition>, request: u64) -> bool {
    &&& rule.len() == 1
    &&& rule[0].arg_index == 1
    &&& rule[0].arg_len == ArgLen::Dword
    &&& rule[0].test == ArgTest::Eq
    &&& rule[0].value == request
}

/// A thread may make an ioctl exactly when its request number is among those that the thread is
/// told to be allowed, and every rule of its ioctls is for one of these.
pub proof fn law_requests_permitted(thread: Thread, target: Target, request: u64)
    requires
        may_call(thread, Syscall::Ioctl, target),
    ensures
        ({
            let chain = seccomp_program::thread_calls(
                thread,
                target,
            )[Syscall::Ioctl.number(target.arch)];
            &&& (exists|k: int|
                0 <= k < chain.len() && admits_request_number(#[trigger] chain[k], request))
                <==> may_request(thread, request, target)
            &&& forall|k: int|
                0 <= k < chain.len() ==> admits_request_number(
                    #[trigger] chain[k],
                    chain[k][0].value,
                )
        }),
{
    let rules = seccomp_filters::seccomp_rules(thread, target);
    let ioctl = Syscall::Ioctl.number(target.arch);
    let chain = seccomp_program::thread_calls(thread, target)[ioctl];
    law_calls_permitted(thread, Syscall::Ioctl, target);
    seccomp_program::lemma_collected_entry(rules, ioctl);
    let i = choose|i: int|
        0 <= i < rules.len() && #[trigger] rules[i] == (
            ioctl,
            seccomp_program::collected(rules)[ioctl],
        );
    lemma_ioctl_chain(thread, target, i);
    assert(chain.len() > 0);
    assert(chain.len() <= 4);
    if may_request(thread, request, target) {
        assert(admits_request_number(chain[0], request) || (chain.len() > 1
            && admits_request_number(chain[1], request)) || (chain.len() > 2
            && admits_request_number(chain[2], request)) || (chain.len() > 3
            && admits_request_number(chain[3], request)));
    }
}

/// The requests of a thread, in the order in which they are tried.
spec fn ioctl_chain(thread: Thread, target: Target) -> ChainView {
    if thread is VirtioConsole {
        seccomp_filters::console_ioctls(target)
    } else if thread is VirtioBlock {
        seccomp_filters::block_ioctls(target)
    } else if thread is VirtioNetCtl {
        seccomp_filters::net_ctl_ioctls(target)
    } else if thread is VirtioVsock {
        seccomp_filters::vsock_ioctls(target)
    } else if thread is VirtioIommu || thread is VirtioMem {
        seccomp_filters::dma_ioctls()
    } else {
        seccomp_filters::snp_ioctls()
    }
}

proof fn lemma_ioctl_chain(thread: Thread, target: Target, i: int)
    requires
        0 <= i < seccomp_filters::seccomp_rules(thread, target).len(),
        seccomp_filters::seccomp_rules(thread, target)[i].0 == Syscall::Ioctl.number(target.arch),
    ensures
        seccomp_filters::seccomp_rules(thread, target)[i].1 == ioctl_chain(thread, target),
{
}

/// The calls that a thread's own list names: those that not every thread may make, and for threads
/// that work on files or sockets of their own what sets the flags of these.
pub open spec fn named_by(thread: Thread, call: Syscall, target: Target) -> bool {
    &&& may_call(thread, call, target)
    &&& !may_call(Thread::VirtioVhostNetCtl, call, target) || (call is Fcntl && (thread
        is VirtioBlock || thread is VirtioVsock))
}

/// A thread's own list names what the thread may call beyond the others, and the common list what
/// every thread may call.
pub proof fn law_lists_name(thread: Thread, call: Syscall, target: Target)
    requires
        call.exists_on(target.arch),
    ensures
        (exists|i: int|
            0 <= i < seccomp_filters::thread_rules(thread, target).len() && (
            #[trigger] seccomp_filters::thread_rules(thread, target)[i]).0 == call.number(
                target.arch,
            )) <==> named_by(thread, call, target),
        (exists|i: int|
            0 <= i < seccomp_filters::common_rules(target).len() && (
            #[trigger] seccomp_filters::common_rules(target)[i]).0 == call.number(target.arch))
            <==> forall|any: Thread| #[trigger] may_call(any, call, target),
{
    let own = seccomp_filters::thread_rules(thread, target);
    let common = seccomp_filters::common_rules(target);
    let number = call.number(target.arch);
    lemma_own_listed(thread, call, target);
    lemma_common_listed(call, target);
    lemma_listed(own, number, own.len() as int);
    lemma_listed(common, number, common.len() as int);
    assert(may_call(Thread::VirtioVhostNetCtl, call, target) ==> forall|any: Thread|
        #[trigger] may_call(any, call, target));
}

proof fn lemma_own_listed(thread: Thread, call: Syscall, target: Target)
    requires
        call.exists_on(target.arch),
    ensures
        lists(seccomp_filters::thread_rules(thread, target), call.number(target.arch)) <==>
            named_by(thread, call, target),
{
    if thread is VirtioBlock {
        lemma_block_listed(call, target);
    } else {
        lemma_other_listed(thread, call, target);
    }
}

#[verifier::rlimit(50)]
proof fn lemma_block_listed(call: Syscall, target: Target)
    requires
        call.exists_on(target.arch),
    ensures
        lists(seccomp_filters::block_rules(target), call.number(target.arch)) <==> named_by(
            Thread::VirtioBlock,
            call,
            target,
        ),
{
    let count = seccomp_filters::block_rules(target).len();
    assert(count <= 31);
    reveal_with_fuel(listed, 32);
}

#[verifier::rlimit(50)]
proof fn lemma_other_listed(thread: Thread, call: Syscall, target: Target)
    requires
        call.exists_on(target.arch),
        !(thread is VirtioBlock),
    ensures
        lists(seccomp_filters::thread_rules(thread, target), call.number(target.arch)) <==>
            named_by(thread, call, target),
{
    reveal_with_fuel(listed, 16);
}

/// No list names a call twice.
#[verifier::rlimit(50)]
pub proof fn law_named_once(thread: Thread, target: Target, i: int, j: int)
    requires
        0 <= i < j,
    ensures
        j < seccomp_filters::thread_rules(thread, target).len() ==> seccomp_filters::thread_rules(
            thread,
            target,
        )[i].0 != seccomp_filters::thread_rules(thread, target)[j].0,
        j < seccomp_filters::common_rules(target).len() ==> seccomp_filters::common_rules(
            target,
        )[i].0 != seccomp_filters::common_rules(target)[j].0,
{
}

/// Where a thread's list names ioctls, it lets through exactly those that the thread may make, by
/// their request numbers.
pub proof fn law_requests_listed(thread: Thread, target: Target, i: int, request: u64)
    requires
        0 <= i < seccomp_filters::seccomp_rules(thread, target).len(),
        seccomp_filters::seccomp_rules(thread, target)[i].0 == Syscall::Ioctl.number(target.arch),
    ensures
        ({
            let chain = seccomp_filters::seccomp_rules(thread, target)[i].1;
            &&& (exists|k: int|
                0 <= k < chain.len() && admits_request_number(#[trigger] chain[k], request))
                <==> may_request(thread, request, target)
            &&& forall|k: int|
                0 <= k < chain.len() ==> admits_request_number(
                    #[trigger] chain[k],
                    chain[k][0].value,
                )
        }),
{
    let chain = seccomp_filters::seccomp_rules(thread, target)[i].1;
    lemma_ioctl_chain(thread, target, i);
    lemma_ioctl_permitted(thread, target, i);
    assert(chain.len() > 0);
    assert(chain.len() <= 4);
    if may_request(thread, request, target) {
        assert(admits_request_number(chain[0], request) || (chain.len() > 1
            && admits_request_number(chain[1], request)) || (chain.len() > 2
            && admits_request_number(chain[2], request)) || (chain.len() > 3
            && admits_request_number(chain[3], request)));
    }
}

proof fn lemma_ioctl_permitted(thread: Thread, target: Target, i: int)
    requires
        0 <= i < seccomp_filters::seccomp_rules(thread, target).len(),
        seccomp_filters::seccomp_rules(thread, target)[i].0 == Syscall::Ioctl.number(target.arch),
    ensures
        may_call(thread, Syscall::Ioctl, target),
{
    seccomp_program::lemma_collected_numbers(seccomp_filters::seccomp_rules(thread, target));
    law_calls_permitted(thread, Syscall::Ioctl, target);
}

} // verus!
