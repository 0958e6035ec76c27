//! The system calls that each device thread may make.
use vstd::prelude::*;

use crate::syscall::{Arch, Syscall};

verus! {

/// A thread that serves a device, or a queue of one.
#[derive(Clone, Copy, Debug, PartialEq, Eq, Structural)]
pub enum Thread {
    VirtioBalloon,
    VirtioBlock,
    VirtioConsole,
    VirtioIommu,
    VirtioMem,
    VirtioNet,
    VirtioNetCtl,
    VirtioPmem,
    VirtioRng,
    VirtioRtc,
    VirtioVhostBlock,
    VirtioVhostFs,
    VirtioGenericVhostUser,
    VirtioVhostNet,
    VirtioVhostNetCtl,
    VirtioVsock,
    VirtioWatchdog,
}

/// What filters are built for.
#[derive(Clone, Copy, Debug, PartialEq, Eq, Structural)]
pub struct Target {
    pub arch: Arch,
    /// Guests may run under SEV-SNP, where device threads change the host's access to memory.
    pub sev_snp: bool,
}

/// How much of a system call's argument is compared.
#[derive(Clone, Copy, Debug, PartialEq, Eq, Structural)]
pub enum ArgLen {
    /// The low 4 bytes.
    Dword,
    /// All 8 bytes.
    Qword,
}

/// How a system call's argument is compared with a value.
#[derive(Clone, Copy, Debug, PartialEq, Eq, Structural)]
pub enum ArgTest {
    Eq,
    Ge,
    Gt,
    Le,
    Lt,
    /// Only the bits of the mask are compared.
    MaskedEq(u64),
    Ne,
}

/// A condition on one argument of a system call.
#[derive(Clone, Copy, Debug, PartialEq, Eq, Structural)]
pub struct ArgCondition {
    pub arg_index: u8,
    pub arg_len: ArgLen,
    pub test: ArgTest,
    pub value: u64,
}

/// A system call is let through where all conditions hold.
#[derive(Debug)]
pub struct CallRule {
    pub conditions: Vec<ArgCondition>,
}

impl View for CallRule {
    type V = Seq<ArgCondition>;

    open spec fn view(&self) -> Seq<ArgCondition> {
        self.conditions@
    }
}

/// The rules of one system call, of which one has to hold. Without rules it is always let through.
pub type ChainView = Seq<Seq<ArgCondition>>;

/// The number of a system call, and its rules.
pub type RuleView = (i64, ChainView);

/// The model of the rules of one system call.
pub open spec fn chain_view(chain: Seq<CallRule>) -> ChainView {
    chain.map_values(|rule: CallRule| rule@)
}

/// The model of a list of system calls with their rules.
pub open spec fn rules_view(rules: Seq<(i64, Vec<CallRule>)>) -> Seq<RuleView> {
    rules.map_values(|entry: (i64, Vec<CallRule>)| (entry.0, chain_view(entry.1@)))
}

/// Asks a terminal for its size.
pub const TIOCGWINSZ: u64 = 0x5413;

/// Makes reads and writes of a file return instead of waiting.
pub const FIONBIO: u64 = 0x5421;

/// Tells a tap device which offloads to use.
pub const TUNSETOFFLOAD: u64 = 0x400454d0;

/// Discards a range of a block device.
pub const BLKDISCARD: u64 = 0x1277;

/// Zeroes a range of a block device.
pub const BLKZEROOUT: u64 = 0x127f;

// See include/uapi/linux/vfio.h in the kernel code.
pub const VFIO_IOMMU_MAP_DMA: u64 = 0x3b71;

pub const VFIO_IOMMU_UNMAP_DMA: u64 = 0x3b72;

// See include/uapi/linux/iommufd.h in the kernel code.
pub const IOMMU_IOAS_MAP: u64 = 0x3b85;

pub const IOMMU_IOAS_UNMAP: u64 = 0x3b86;

/// Changes which pages of a guest the host may access, on the Microsoft hypervisor.
pub const MSHV_MODIFY_GPA_HOST_ACCESS: u64 = 0x4010b809;

/// Calls `mshv_ioctls::MSHV_MODIFY_GPA_HOST_ACCESS`, which puts together the number of an ioctl
/// that writes: group 0xb8, command 9, and an argument of 16 bytes.
#[verifier::external_body]
fn mshv_modify_gpa_host_access() -> (r: u64)
    ensures
        r == MSHV_MODIFY_GPA_HOST_ACCESS,
{
    mshv_ioctls::MSHV_MODIFY_GPA_HOST_ACCESS()
}

/// Reads `libc::TIOCGWINSZ`. It has this value on x86_64 and aarch64, which share the generic
/// numbers of Linux.
#[verifier::external_body]
fn tiocgwinsz() -> (r: u64)
    ensures
        r == TIOCGWINSZ,
{
    libc::TIOCGWINSZ as u64
}

/// Reads `libc::FIONBIO`. It has this value on x86_64 and aarch64, which share the generic
/// numbers of Linux.
#[verifier::external_body]
fn fionbio() -> (r: u64)
    ensures
        r == FIONBIO,
{
    libc::FIONBIO as u64
}

/// Reads `libc::TUNSETOFFLOAD`, the number of an ioctl that writes: group `T`, command 208, and an
/// argument of 4 bytes.
#[verifier::external_body]
fn tunsetoffload() -> (r: u64)
    ensures
        r == TUNSETOFFLOAD,
{
    libc::TUNSETOFFLOAD as u64
}

/// The rule that lets an ioctl through by its request number, the second argument.
pub open spec fn request_is(request: u64) -> Seq<ArgCondition> {
    seq![
        ArgCondition {
            arg_index: 1,
            arg_len: ArgLen::Dword,
            test: ArgTest::Eq,
            value: request,
        },
    ]
}

fn request_rule(request: u64) -> (r: CallRule)
    ensures
        r@ == request_is(request),
{
    let mut conditions: Vec<ArgCondition> = Vec::new();
    conditions.push(
        ArgCondition {
            arg_index: 1,
            arg_len: ArgLen::Dword,
            test: ArgTest::Eq,
            value: request,
        },
    );
    assert(conditions@ =~= request_is(request));
    CallRule { conditions }
}

/// The ioctls of guests that run under SEV-SNP.
pub open spec fn snp_ioctls() -> ChainView {
    seq![request_is(MSHV_MODIFY_GPA_HOST_ACCESS)]
}

/// `requests`, and on a target with SEV-SNP what that needs.
pub open spec fn with_snp(requests: ChainView, target: Target) -> ChainView {
    if target.sev_snp {
        requests + snp_ioctls()
    } else {
        requests
    }
}

/// The ioctls of the console.
pub open spec fn console_ioctls(target: Target) -> ChainView {
    with_snp(seq![request_is(TIOCGWINSZ)], target)
}

/// The ioctls of a block device.
pub open spec fn block_ioctls(target: Target) -> ChainView {
    with_snp(seq![request_is(BLKDISCARD), request_is(BLKZEROOUT)], target)
}

/// The ioctls of a network device's control queue.
pub open spec fn net_ctl_ioctls(target: Target) -> ChainView {
    with_snp(seq![request_is(TUNSETOFFLOAD)], target)
}

/// The ioctls of a socket device.
pub open spec fn vsock_ioctls(target: Target) -> ChainView {
    with_snp(seq![request_is(FIONBIO)], target)
}

/// The ioctls that map guest memory for devices.
pub open spec fn dma_ioctls() -> ChainView {
    seq![
        request_is(VFIO_IOMMU_MAP_DMA),
        request_is(VFIO_IOMMU_UNMAP_DMA),
        request_is(IOMMU_IOAS_MAP),
        request_is(IOMMU_IOAS_UNMAP),
    ]
}

/// The rule that lets the hypervisor's ioctl for SEV-SNP through.
pub fn mshv_sev_snp_ioctl_seccomp_rule() -> (r: CallRule)
    ensures
        r@ == request_is(MSHV_MODIFY_GPA_HOST_ACCESS),
{
    request_rule(mshv_modify_gpa_host_access())
}

/// Adds what a target with SEV-SNP needs.
fn add_snp(chain: &mut Vec<CallRule>, target: Target)
    ensures
        chain_view(final(chain)@) == with_snp(chain_view(old(chain)@), target),
{
    if target.sev_snp {
        chain.push(mshv_sev_snp_ioctl_seccomp_rule());
    }
    assert(chain_view(chain@) =~= with_snp(chain_view(old(chain)@), target));
}

/// The ioctls of guests that run under SEV-SNP.
pub fn create_mshv_sev_snp_ioctl_seccomp_rule() -> (r: Vec<CallRule>)
    ensures
        chain_view(r@) == snp_ioctls(),
{
    let mut chain: Vec<CallRule> = Vec::new();
    chain.push(mshv_sev_snp_ioctl_seccomp_rule());
    assert(chain_view(chain@) =~= snp_ioctls());
    chain
}

/// The ioctls of the console.
pub fn create_virtio_console_ioctl_seccomp_rule(target: Target) -> (r: Vec<CallRule>)
    ensures
        chain_view(r@) == console_ioctls(target),
{
    let mut chain: Vec<CallRule> = Vec::new();
    chain.push(request_rule(tiocgwinsz()));
    assert(chain_view(chain@) =~= seq![request_is(TIOCGWINSZ)]);
    add_snp(&mut chain, target);
    chain
}

/// The ioctls that map guest memory for devices.
fn dma_rules() -> (r: Vec<CallRule>)
    ensures
        chain_view(r@) == dma_ioctls(),
{
    let mut chain: Vec<CallRule> = Vec::new();
    chain.push(request_rule(VFIO_IOMMU_MAP_DMA));
    chain.push(request_rule(VFIO_IOMMU_UNMAP_DMA));
    chain.push(request_rule(IOMMU_IOAS_MAP));
    chain.push(request_rule(IOMMU_IOAS_UNMAP));
    assert(chain_view(chain@) =~= dma_ioctls());
    chain
}

/// The ioctls of the IOMMU.
pub fn create_virtio_iommu_ioctl_seccomp_rule() -> (r: Vec<CallRule>)
    ensures
        chain_view(r@) == dma_ioctls(),
{
    dma_rules()
}

/// The ioctls of the memory device.
pub fn create_virtio_mem_ioctl_seccomp_rule() -> (r: Vec<CallRule>)
    ensures
        chain_view(r@) == dma_ioctls(),
{
    dma_rules()
}

/// The ioctls of a block device.
pub fn create_virtio_block_ioctl_seccomp_rule(target: Target) -> (r: Vec<CallRule>)
    ensures
        chain_view(r@) == block_ioctls(target),
{
    let mut chain: Vec<CallRule> = Vec::new();
    chain.push(request_rule(BLKDISCARD));
    chain.push(request_rule(BLKZEROOUT));
    assert(chain_view(chain@) =~= seq![request_is(BLKDISCARD), request_is(BLKZEROOUT)]);
    add_snp(&mut chain, target);
    chain
}

/// The ioctls of a network device's control queue.
pub fn create_virtio_net_ctl_ioctl_seccomp_rule(target: Target) -> (r: Vec<CallRule>)
    ensures
        chain_view(r@) == net_ctl_ioctls(target),
{
    let mut chain: Vec<CallRule> = Vec::new();
    chain.push(request_rule(tunsetoffload()));
    assert(chain_view(chain@) =~= seq![request_is(TUNSETOFFLOAD)]);
    add_snp(&mut chain, target);
    chain
}

/// The ioctls of a socket device.
pub fn create_vsock_ioctl_seccomp_rule(target: Target) -> (r: Vec<CallRule>)
    ensures
        chain_view(r@) == vsock_ioctls(target),
{
    let mut chain: Vec<CallRule> = Vec::new();
    chain.push(request_rule(fionbio()));
    assert(chain_view(chain@) =~= seq![request_is(FIONBIO)]);
    add_snp(&mut chain, target);
    chain
}

/// `call` is always let through.
pub open spec fn allowed(call: Syscall, arch: Arch) -> RuleView {
    (call.number(arch), seq![])
}

/// `call` is let through where one of the rules of `chain` holds.
pub open spec fn guarded(call: Syscall, chain: ChainView, arch: Arch) -> RuleView {
    (call.number(arch), chain)
}

/// Lets `call` through where one of the rules of `chain` holds.
fn guard(
    rules: &mut Vec<(i64, Vec<CallRule>)>,
    call: Syscall,
    chain: Vec<CallRule>,
    arch: Arch,
)
    ensures
        rules_view(final(rules)@) == rules_view(old(rules)@).push(
            guarded(call, chain_view(chain@), arch),
        ),
{
    rules.push((call.number(arch), chain));
    assert(rules_view(rules@) =~= rules_view(old(rules)@).push(
        guarded(call, chain_view(chain@), arch),
    ));
}

/// Always lets `call` through.
fn allow(rules: &mut Vec<(i64, Vec<CallRule>)>, call: Syscall, arch: Arch)
    ensures
        rules_view(final(rules)@) == rules_view(old(rules)@).push(allowed(call, arch)),
{
    let chain: Vec<CallRule> = Vec::new();
    assert(chain_view(chain@) =~= seq![]);
    guard(rules, call, chain, arch);
}

/// What the threads of the balloon may call.
pub open spec fn balloon_rules(target: Target) -> Seq<RuleView> {
    let arch = target.arch;
    seq![allowed(Syscall::Fallocate, arch)]
}

/// What the threads of the balloon may call.
pub fn virtio_balloon_thread_rules(target: Target) -> (r: Vec<(i64, Vec<CallRule>)>)
    ensures
        rules_view(r@) == balloon_rules(target),
{
    let arch = target.arch;
    let mut rules: Vec<(i64, Vec<CallRule>)> = Vec::new();
    allow(&mut rules, Syscall::Fallocate, arch);
    assert(rules_view(rules@) =~= balloon_rules(target));
    rules
}

/// What the threads of a block device may call.
pub open spec fn block_rules(target: Target) -> Seq<RuleView> {
    let arch = target.arch;
    match arch {
        Arch::X86_64 => seq![
            allowed(Syscall::Fallocate, arch),
            allowed(Syscall::Fcntl, arch),
            allowed(Syscall::Fdatasync, arch),
            allowed(Syscall::Fsync, arch),
            allowed(Syscall::Ftruncate, arch),
            allowed(Syscall::Getrandom, arch),
            guarded(Syscall::Ioctl, block_ioctls(target), arch),
            allowed(Syscall::IoDestroy, arch),
            allowed(Syscall::IoGetevents, arch),
            allowed(Syscall::IoSubmit, arch),
            allowed(Syscall::IoUringEnter, arch),
            allowed(Syscall::Lseek, arch),
            allowed(Syscall::Mkdir, arch),
            allowed(Syscall::Mkdirat, arch),
            allowed(Syscall::Newfstatat, arch),
            allowed(Syscall::Open, arch),
            allowed(Syscall::Pread64, arch),
            allowed(Syscall::Preadv, arch),
            allowed(Syscall::Pwritev, arch),
            allowed(Syscall::Pwrite64, arch),
            allowed(Syscall::Rename, arch),
            allowed(Syscall::Renameat, arch),
            allowed(Syscall::Renameat2, arch),
            allowed(Syscall::SchedGetaffinity, arch),
            allowed(Syscall::SchedSetaffinity, arch),
            allowed(Syscall::SetRobustList, arch),
            allowed(Syscall::Stat, arch),
            allowed(Syscall::Statx, arch),
            allowed(Syscall::TimerfdSettime, arch),
            allowed(Syscall::Unlink, arch),
        ],
        Arch::Aarch64 => seq![
            allowed(Syscall::Fallocate, arch),
            allowed(Syscall::Fcntl, arch),
            allowed(Syscall::Fdatasync, arch),
            allowed(Syscall::Fsync, arch),
            allowed(Syscall::Ftruncate, arch),
            allowed(Syscall::Getrandom, arch),
            guarded(Syscall::Ioctl, block_ioctls(target), arch),
            allowed(Syscall::IoDestroy, arch),
            allowed(Syscall::IoGetevents, arch),
            allowed(Syscall::IoSubmit, arch),
            allowed(Syscall::IoUringEnter, arch),
            allowed(Syscall::Lseek, arch),
            allowed(Syscall::Mkdirat, arch),
            allowed(Syscall::Newfstatat, arch),
            allowed(Syscall::Pread64, arch),
            allowed(Syscall::Preadv, arch),
            allowed(Syscall::Pwritev, arch),
            allowed(Syscall::Pwrite64, arch),
            allowed(Syscall::Renameat, arch),
            allowed(Syscall::Renameat2, arch),
            allowed(Syscall::SchedGetaffinity, arch),
            allowed(Syscall::SchedSetaffinity, arch),
            allowed(Syscall::SetRobustList, arch),
            allowed(Syscall::Statx, arch),
            allowed(Syscall::TimerfdSettime, arch),
            allowed(Syscall::Unlinkat, arch),
        ],
    }
}

/// What the threads of a block device may call.
pub fn virtio_block_thread_rules(target: Target) -> (r: Vec<(i64, Vec<CallRule>)>)
    ensures
        rules_view(r@) == block_rules(target),
{
    let arch = target.arch;
    let mut rules: Vec<(i64, Vec<CallRule>)> = Vec::new();
    allow(&mut rules, Syscall::Fallocate, arch);
    allow(&mut rules, Syscall::Fcntl, arch);
    allow(&mut rules, Syscall::Fdatasync, arch);
    allow(&mut rules, Syscall::Fsync, arch);
    allow(&mut rules, Syscall::Ftruncate, arch);
    allow(&mut rules, Syscall::Getrandom, arch);
    guard(&mut rules, Syscall::Ioctl, create_virtio_block_ioctl_seccomp_rule(target), arch);
    allow(&mut rules, Syscall::IoDestroy, arch);
    allow(&mut rules, Syscall::IoGetevents, arch);
    allow(&mut rules, Syscall::IoSubmit, arch);
    allow(&mut rules, Syscall::IoUringEnter, arch);
    allow(&mut rules, Syscall::Lseek, arch);
    if arch == Arch::X86_64 {
        allow(&mut rules, Syscall::Mkdir, arch);
    }
    allow(&mut rules, Syscall::Mkdirat, arch);
    allow(&mut rules, Syscall::Newfstatat, arch);
    if arch == Arch::X86_64 {
        allow(&mut rules, Syscall::Open, arch);
    }
    allow(&mut rules, Syscall::Pread64, arch);
    allow(&mut rules, Syscall::Preadv, arch);
    allow(&mut rules, Syscall::Pwritev, arch);
    allow(&mut rules, Syscall::Pwrite64, arch);
    if arch == Arch::X86_64 {
        allow(&mut rules, Syscall::Rename, arch);
    }
    allow(&mut rules, Syscall::Renameat, arch);
    allow(&mut rules, Syscall::Renameat2, arch);
    allow(&mut rules, Syscall::SchedGetaffinity, arch);
    allow(&mut rules, Syscall::SchedSetaffinity, arch);
    allow(&mut rules, Syscall::SetRobustList, arch);
    if arch == Arch::X86_64 {
        allow(&mut rules, Syscall::Stat, arch);
    }
    allow(&mut rules, Syscall::Statx, arch);
    allow(&mut rules, Syscall::TimerfdSettime, arch);
    if arch == Arch::X86_64 {
        allow(&mut rules, Syscall::Unlink, arch);
    }
    if arch == Arch::Aarch64 {
        allow(&mut rules, Syscall::Unlinkat, arch);
    }
    assert(rules_view(rules@) =~= block_rules(target));
    rules
}

/// What the threads of the console may call.
pub open spec fn console_rules(target: Target) -> Seq<RuleView> {
    let arch = target.arch;
    seq![
        guarded(Syscall::Ioctl, console_ioctls(target), arch),
        allowed(Syscall::SchedGetaffinity, arch),
        allowed(Syscall::SetRobustList, arch),
    ]
}

/// What the threads of the console may call.
pub fn virtio_console_thread_rules(target: Target) -> (r: Vec<(i64, Vec<CallRule>)>)
    ensures
        rules_view(r@) == console_rules(target),
{
    let arch = target.arch;
    let mut rules: Vec<(i64, Vec<CallRule>)> = Vec::new();
    guard(&mut rules, Syscall::Ioctl, create_virtio_console_ioctl_seccomp_rule(target), arch);
    allow(&mut rules, Syscall::SchedGetaffinity, arch);
    allow(&mut rules, Syscall::SetRobustList, arch);
    assert(rules_view(rules@) =~= console_rules(target));
    rules
}

/// What the threads of the IOMMU may call.
pub open spec fn iommu_rules(target: Target) -> Seq<RuleView> {
    let arch = target.arch;
    seq![guarded(Syscall::Ioctl, dma_ioctls(), arch)]
}

/// What the threads of the IOMMU may call.
pub fn virtio_iommu_thread_rules(target: Target) -> (r: Vec<(i64, Vec<CallRule>)>)
    ensures
        rules_view(r@) == iommu_rules(target),
{
    let arch = target.arch;
    let mut rules: Vec<(i64, Vec<CallRule>)> = Vec::new();
    guard(&mut rules, Syscall::Ioctl, create_virtio_iommu_ioctl_seccomp_rule(), arch);
    assert(rules_view(rules@) =~= iommu_rules(target));
    rules
}

/// What the threads of the memory device may call.
pub open spec fn mem_rules(target: Target) -> Seq<RuleView> {
    let arch = target.arch;
    seq![
        allowed(Syscall::Fallocate, arch),
        guarded(Syscall::Ioctl, dma_ioctls(), arch),
        allowed(Syscall::Recvfrom, arch),
        allowed(Syscall::Sendmsg, arch),
    ]
}

/// What the threads of the memory device may call.
pub fn virtio_mem_thread_rules(target: Target) -> (r: Vec<(i64, Vec<CallRule>)>)
    ensures
        rules_view(r@) == mem_rules(target),
{
    let arch = target.arch;
    let mut rules: Vec<(i64, Vec<CallRule>)> = Vec::new();
    allow(&mut rules, Syscall::Fallocate, arch);
    guard(&mut rules, Syscall::Ioctl, create_virtio_mem_ioctl_seccomp_rule(), arch);
    allow(&mut rules, Syscall::Recvfrom, arch);
    allow(&mut rules, Syscall::Sendmsg, arch);
    assert(rules_view(rules@) =~= mem_rules(target));
    rules
}

/// What the threads of a network device may call.
pub open spec fn net_rules(target: Target) -> Seq<RuleView> {
    let arch = target.arch;
    if target.sev_snp {
        seq![
            guarded(Syscall::Ioctl, snp_ioctls(), arch),
            allowed(Syscall::Readv, arch),
            allowed(Syscall::TimerfdSettime, arch),
            allowed(Syscall::Writev, arch),
        ]
    } else {
        seq![
            allowed(Syscall::Readv, arch),
            allowed(Syscall::TimerfdSettime, arch),
            allowed(Syscall::Writev, arch),
        ]
    }
}

/// What the threads of a network device may call.
pub fn virtio_net_thread_rules(target: Target) -> (r: Vec<(i64, Vec<CallRule>)>)
    ensures
        rules_view(r@) == net_rules(target),
{
    let arch = target.arch;
    let mut rules: Vec<(i64, Vec<CallRule>)> = Vec::new();
    if target.sev_snp {
        guard(&mut rules, Syscall::Ioctl, create_mshv_sev_snp_ioctl_seccomp_rule(), arch);
    }
    allow(&mut rules, Syscall::Readv, arch);
    allow(&mut rules, Syscall::TimerfdSettime, arch);
    allow(&mut rules, Syscall::Writev, arch);
    assert(rules_view(rules@) =~= net_rules(target));
    rules
}

/// What the threads of a network device's control queue may call.
pub open spec fn net_ctl_rules(target: Target) -> Seq<RuleView> {
    let arch = target.arch;
    seq![guarded(Syscall::Ioctl, net_ctl_ioctls(target), arch)]
}

/// What the threads of a network device's control queue may call.
pub fn virtio_net_ctl_thread_rules(target: Target) -> (r: Vec<(i64, Vec<CallRule>)>)
    ensures
        rules_view(r@) == net_ctl_rules(target),
{
    let arch = target.arch;
    let mut rules: Vec<(i64, Vec<CallRule>)> = Vec::new();
    guard(&mut rules, Syscall::Ioctl, create_virtio_net_ctl_ioctl_seccomp_rule(target), arch);
    assert(rules_view(rules@) =~= net_ctl_rules(target));
    rules
}

/// What the threads of a persistent memory device may call.
pub open spec fn pmem_rules(target: Target) -> Seq<RuleView> {
    let arch = target.arch;
    seq![allowed(Syscall::Fsync, arch)]
}

/// What the threads of a persistent memory device may call.
pub fn virtio_pmem_thread_rules(target: Target) -> (r: Vec<(i64, Vec<CallRule>)>)
    ensures
        rules_view(r@) == pmem_rules(target),
{
    let arch = target.arch;
    let mut rules: Vec<(i64, Vec<CallRule>)> = Vec::new();
    allow(&mut rules, Syscall::Fsync, arch);
    assert(rules_view(rules@) =~= pmem_rules(target));
    rules
}

/// What the threads of the entropy device may call.
pub open spec fn rng_rules(target: Target) -> Seq<RuleView> {
    let arch = target.arch;
    if target.sev_snp {
        seq![
            allowed(Syscall::SchedGetaffinity, arch),
            allowed(Syscall::SetRobustList, arch),
            guarded(Syscall::Ioctl, snp_ioctls(), arch),
        ]
    } else {
        seq![
            allowed(Syscall::SchedGetaffinity, arch),
            allowed(Syscall::SetRobustList, arch),
        ]
    }
}

/// What the threads of the entropy device may call.
pub fn virtio_rng_thread_rules(target: Target) -> (r: Vec<(i64, Vec<CallRule>)>)
    ensures
        rules_view(r@) == rng_rules(target),
{
    let arch = target.arch;
    let mut rules: Vec<(i64, Vec<CallRule>)> = Vec::new();
    allow(&mut rules, Syscall::SchedGetaffinity, arch);
    allow(&mut rules, Syscall::SetRobustList, arch);
    if target.sev_snp {
        guard(&mut rules, Syscall::Ioctl, create_mshv_sev_snp_ioctl_seccomp_rule(), arch);
    }
    assert(rules_view(rules@) =~= rng_rules(target));
    rules
}

/// What the threads of the clock may call.
pub open spec fn rtc_rules(target: Target) -> Seq<RuleView> {
    let arch = target.arch;
    if target.sev_snp {
        seq![
            allowed(Syscall::SchedGetaffinity, arch),
            allowed(Syscall::SetRobustList, arch),
            guarded(Syscall::Ioctl, snp_ioctls(), arch),
        ]
    } else {
        seq![
            allowed(Syscall::SchedGetaffinity, arch),
            allowed(Syscall::SetRobustList, arch),
        ]
    }
}

/// What the threads of the clock may call.
pub fn virtio_rtc_thread_rules(target: Target) -> (r: Vec<(i64, Vec<CallRule>)>)
    ensures
        rules_view(r@) == rtc_rules(target),
{
    let arch = target.arch;
    let mut rules: Vec<(i64, Vec<CallRule>)> = Vec::new();
    allow(&mut rules, Syscall::SchedGetaffinity, arch);
    allow(&mut rules, Syscall::SetRobustList, arch);
    if target.sev_snp {
        guard(&mut rules, Syscall::Ioctl, create_mshv_sev_snp_ioctl_seccomp_rule(), arch);
    }
    assert(rules_view(rules@) =~= rtc_rules(target));
    rules
}

/// What the threads of a shared file system may call.
pub open spec fn vhost_fs_rules(target: Target) -> Seq<RuleView> {
    let arch = target.arch;
    seq![
        allowed(Syscall::ClockNanosleep, arch),
        allowed(Syscall::Connect, arch),
        allowed(Syscall::Nanosleep, arch),
        allowed(Syscall::Pread64, arch),
        allowed(Syscall::Pwrite64, arch),
        allowed(Syscall::Recvmsg, arch),
        allowed(Syscall::Sendmsg, arch),
        allowed(Syscall::Sendto, arch),
        allowed(Syscall::Socket, arch),
        allowed(Syscall::TimerfdCreate, arch),
        allowed(Syscall::TimerfdSettime, arch),
    ]
}

/// What the threads of a shared file system may call.
pub fn virtio_vhost_fs_thread_rules(target: Target) -> (r: Vec<(i64, Vec<CallRule>)>)
    ensures
        rules_view(r@) == vhost_fs_rules(target),
{
    let arch = target.arch;
    let mut rules: Vec<(i64, Vec<CallRule>)> = Vec::new();
    allow(&mut rules, Syscall::ClockNanosleep, arch);
    allow(&mut rules, Syscall::Connect, arch);
    allow(&mut rules, Syscall::Nanosleep, arch);
    allow(&mut rules, Syscall::Pread64, arch);
    allow(&mut rules, Syscall::Pwrite64, arch);
    allow(&mut rules, Syscall::Recvmsg, arch);
    allow(&mut rules, Syscall::Sendmsg, arch);
    allow(&mut rules, Syscall::Sendto, arch);
    allow(&mut rules, Syscall::Socket, arch);
    allow(&mut rules, Syscall::TimerfdCreate, arch);
    allow(&mut rules, Syscall::TimerfdSettime, arch);
    assert(rules_view(rules@) =~= vhost_fs_rules(target));
    rules
}

/// What the threads of a generic vhost-user device may call.
pub open spec fn generic_vhost_user_rules(target: Target) -> Seq<RuleView> {
    let arch = target.arch;
    seq![
        allowed(Syscall::ClockNanosleep, arch),
        allowed(Syscall::Connect, arch),
        allowed(Syscall::Nanosleep, arch),
        allowed(Syscall::Pread64, arch),
        allowed(Syscall::Pwrite64, arch),
        allowed(Syscall::Recvmsg, arch),
        allowed(Syscall::Sendmsg, arch),
        allowed(Syscall::Sendto, arch),
        allowed(Syscall::Socket, arch),
        allowed(Syscall::TimerfdCreate, arch),
        allowed(Syscall::TimerfdSettime, arch),
    ]
}

/// What the threads of a generic vhost-user device may call.
pub fn virtio_generic_vhost_user_thread_rules(target: Target) -> (r: Vec<(i64, Vec<CallRule>)>)
    ensures
        rules_view(r@) == generic_vhost_user_rules(target),
{
    let arch = target.arch;
    let mut rules: Vec<(i64, Vec<CallRule>)> = Vec::new();
    allow(&mut rules, Syscall::ClockNanosleep, arch);
    allow(&mut rules, Syscall::Connect, arch);
    allow(&mut rules, Syscall::Nanosleep, arch);
    allow(&mut rules, Syscall::Pread64, arch);
    allow(&mut rules, Syscall::Pwrite64, arch);
    allow(&mut rules, Syscall::Recvmsg, arch);
    allow(&mut rules, Syscall::Sendmsg, arch);
    allow(&mut rules, Syscall::Sendto, arch);
    allow(&mut rules, Syscall::Socket, arch);
    allow(&mut rules, Syscall::TimerfdCreate, arch);
    allow(&mut rules, Syscall::TimerfdSettime, arch);
    assert(rules_view(rules@) =~= generic_vhost_user_rules(target));
    rules
}

/// What the threads of a vhost-user network device's control queue may call.
pub open spec fn vhost_net_ctl_rules(target: Target) -> Seq<RuleView> {
    seq![]
}

/// What the threads of a vhost-user network device's control queue may call.
pub fn virtio_vhost_net_ctl_thread_rules(target: Target) -> (r: Vec<(i64, Vec<CallRule>)>)
    ensures
        rules_view(r@) == vhost_net_ctl_rules(target),
{
    let rules: Vec<(i64, Vec<CallRule>)> = Vec::new();
    assert(rules_view(rules@) =~= vhost_net_ctl_rules(target));
    rules
}

/// What the threads of a vhost-user network device may call.
pub open spec fn vhost_net_rules(target: Target) -> Seq<RuleView> {
    let arch = target.arch;
    match arch {
        Arch::X86_64 => seq![
            allowed(Syscall::Accept4, arch),
            allowed(Syscall::Bind, arch),
            allowed(Syscall::ClockNanosleep, arch),
            allowed(Syscall::Connect, arch),
            allowed(Syscall::Getcwd, arch),
            allowed(Syscall::Listen, arch),
            allowed(Syscall::Nanosleep, arch),
            allowed(Syscall::Recvmsg, arch),
            allowed(Syscall::Sendmsg, arch),
            allowed(Syscall::Sendto, arch),
            allowed(Syscall::Socket, arch),
            allowed(Syscall::TimerfdCreate, arch),
            allowed(Syscall::TimerfdSettime, arch),
            allowed(Syscall::Unlink, arch),
        ],
        Arch::Aarch64 => seq![
            allowed(Syscall::Accept4, arch),
            allowed(Syscall::Bind, arch),
            allowed(Syscall::ClockNanosleep, arch),
            allowed(Syscall::Connect, arch),
            allowed(Syscall::Getcwd, arch),
            allowed(Syscall::Listen, arch),
            allowed(Syscall::Nanosleep, arch),
            allowed(Syscall::Recvmsg, arch),
            allowed(Syscall::Sendmsg, arch),
            allowed(Syscall::Sendto, arch),
            allowed(Syscall::Socket, arch),
            allowed(Syscall::TimerfdCreate, arch),
            allowed(Syscall::TimerfdSettime, arch),
            allowed(Syscall::Unlinkat, arch),
        ],
    }
}

/// What the threads of a vhost-user network device may call.
pub fn virtio_vhost_net_thread_rules(target: Target) -> (r: Vec<(i64, Vec<CallRule>)>)
    ensures
        rules_view(r@) == vhost_net_rules(target),
{
    let arch = target.arch;
    let mut rules: Vec<(i64, Vec<CallRule>)> = Vec::new();
    allow(&mut rules, Syscall::Accept4, arch);
    allow(&mut rules, Syscall::Bind, arch);
    allow(&mut rules, Syscall::ClockNanosleep, arch);
    allow(&mut rules, Syscall::Connect, arch);
    allow(&mut rules, Syscall::Getcwd, arch);
    allow(&mut rules, Syscall::Listen, arch);
    allow(&mut rules, Syscall::Nanosleep, arch);
    allow(&mut rules, Syscall::Recvmsg, arch);
    allow(&mut rules, Syscall::Sendmsg, arch);
    allow(&mut rules, Syscall::Sendto, arch);
    allow(&mut rules, Syscall::Socket, arch);
    allow(&mut rules, Syscall::TimerfdCreate, arch);
    allow(&mut rules, Syscall::TimerfdSettime, arch);
    if arch == Arch::X86_64 {
        allow(&mut rules, Syscall::Unlink, arch);
    }
    if arch == Arch::Aarch64 {
        allow(&mut rules, Syscall::Unlinkat, arch);
    }
    assert(rules_view(rules@) =~= vhost_net_rules(target));
    rules
}

/// What the threads of a vhost-user block device may call.
pub open spec fn vhost_block_rules(target: Target) -> Seq<RuleView> {
    let arch = target.arch;
    seq![
        allowed(Syscall::ClockNanosleep, arch),
        allowed(Syscall::Connect, arch),
        allowed(Syscall::Nanosleep, arch),
        allowed(Syscall::Recvmsg, arch),
        allowed(Syscall::Sendmsg, arch),
        allowed(Syscall::Socket, arch),
        allowed(Syscall::TimerfdCreate, arch),
        allowed(Syscall::TimerfdSettime, arch),
    ]
}

/// What the threads of a vhost-user block device may call.
pub fn virtio_vhost_block_thread_rules(target: Target) -> (r: Vec<(i64, Vec<CallRule>)>)
    ensures
        rules_view(r@) == vhost_block_rules(target),
{
    let arch = target.arch;
    let mut rules: Vec<(i64, Vec<CallRule>)> = Vec::new();
    allow(&mut rules, Syscall::ClockNanosleep, arch);
    allow(&mut rules, Syscall::Connect, arch);
    allow(&mut rules, Syscall::Nanosleep, arch);
    allow(&mut rules, Syscall::Recvmsg, arch);
    allow(&mut rules, Syscall::Sendmsg, arch);
    allow(&mut rules, Syscall::Socket, arch);
    allow(&mut rules, Syscall::TimerfdCreate, arch);
    allow(&mut rules, Syscall::TimerfdSettime, arch);
    assert(rules_view(rules@) =~= vhost_block_rules(target));
    rules
}

/// What the threads of a socket device may call.
pub open spec fn vsock_rules(target: Target) -> Seq<RuleView> {
    let arch = target.arch;
    seq![
        allowed(Syscall::Accept4, arch),
        allowed(Syscall::Connect, arch),
        allowed(Syscall::Fcntl, arch),
        guarded(Syscall::Ioctl, vsock_ioctls(target), arch),
        allowed(Syscall::Recvfrom, arch),
        allowed(Syscall::Sendto, arch),
        allowed(Syscall::Socket, arch),
    ]
}

/// What the threads of a socket device may call.
pub fn virtio_vsock_thread_rules(target: Target) -> (r: Vec<(i64, Vec<CallRule>)>)
    ensures
        rules_view(r@) == vsock_rules(target),
{
    let arch = target.arch;
    let mut rules: Vec<(i64, Vec<CallRule>)> = Vec::new();
    allow(&mut rules, Syscall::Accept4, arch);
    allow(&mut rules, Syscall::Connect, arch);
    allow(&mut rules, Syscall::Fcntl, arch);
    guard(&mut rules, Syscall::Ioctl, create_vsock_ioctl_seccomp_rule(target), arch);
    allow(&mut rules, Syscall::Recvfrom, arch);
    allow(&mut rules, Syscall::Sendto, arch);
    allow(&mut rules, Syscall::Socket, arch);
    assert(rules_view(rules@) =~= vsock_rules(target));
    rules
}

/// What the threads of the watchdog may call.
pub open spec fn watchdog_rules(target: Target) -> Seq<RuleView> {
    let arch = target.arch;
    seq![
        allowed(Syscall::SchedGetaffinity, arch),
        allowed(Syscall::SetRobustList, arch),
        allowed(Syscall::TimerfdSettime, arch),
    ]
}

/// What the threads of the watchdog may call.
pub fn virtio_watchdog_thread_rules(target: Target) -> (r: Vec<(i64, Vec<CallRule>)>)
    ensures
        rules_view(r@) == watchdog_rules(target),
{
    let arch = target.arch;
    let mut rules: Vec<(i64, Vec<CallRule>)> = Vec::new();
    allow(&mut rules, Syscall::SchedGetaffinity, arch);
    allow(&mut rules, Syscall::SetRobustList, arch);
    allow(&mut rules, Syscall::TimerfdSettime, arch);
    assert(rules_view(rules@) =~= watchdog_rules(target));
    rules
}

/// What the threads of every device may call.
pub open spec fn common_rules(target: Target) -> Seq<RuleView> {
    let arch = target.arch;
    match arch {
        Arch::X86_64 => seq![
            allowed(Syscall::Brk, arch),
            allowed(Syscall::ClockGettime, arch),
            allowed(Syscall::Close, arch),
            allowed(Syscall::Dup, arch),
            allowed(Syscall::EpollCreate1, arch),
            allowed(Syscall::EpollCtl, arch),
            allowed(Syscall::EpollPwait, arch),
            allowed(Syscall::EpollWait, arch),
            allowed(Syscall::Exit, arch),
            allowed(Syscall::Fcntl, arch),
            allowed(Syscall::Futex, arch),
            allowed(Syscall::Gettid, arch),
            allowed(Syscall::Madvise, arch),
            allowed(Syscall::Mmap, arch),
            allowed(Syscall::Mprotect, arch),
            allowed(Syscall::Mremap, arch),
            allowed(Syscall::Munmap, arch),
            allowed(Syscall::Openat, arch),
            allowed(Syscall::Read, arch),
            allowed(Syscall::RtSigprocmask, arch),
            allowed(Syscall::RtSigreturn, arch),
            allowed(Syscall::Sigaltstack, arch),
            allowed(Syscall::Write, arch),
        ],
        Arch::Aarch64 => seq![
            allowed(Syscall::Brk, arch),
            allowed(Syscall::ClockGettime, arch),
            allowed(Syscall::Close, arch),
            allowed(Syscall::Dup, arch),
            allowed(Syscall::EpollCreate1, arch),
            allowed(Syscall::EpollCtl, arch),
            allowed(Syscall::EpollPwait, arch),
            allowed(Syscall::Exit, arch),
            allowed(Syscall::Fcntl, arch),
            allowed(Syscall::Futex, arch),
            allowed(Syscall::Gettid, arch),
            allowed(Syscall::Madvise, arch),
            allowed(Syscall::Mmap, arch),
            allowed(Syscall::Mprotect, arch),
            allowed(Syscall::Mremap, arch),
            allowed(Syscall::Munmap, arch),
            allowed(Syscall::Openat, arch),
            allowed(Syscall::Read, arch),
            allowed(Syscall::RtSigprocmask, arch),
            allowed(Syscall::RtSigreturn, arch),
            allowed(Syscall::Sigaltstack, arch),
            allowed(Syscall::Write, arch),
        ],
    }
}

/// What the threads of every device may call.
pub fn virtio_thread_common(target: Target) -> (r: Vec<(i64, Vec<CallRule>)>)
    ensures
        rules_view(r@) == common_rules(target),
{
    let arch = target.arch;
    let mut rules: Vec<(i64, Vec<CallRule>)> = Vec::new();
    allow(&mut rules, Syscall::Brk, arch);
    allow(&mut rules, Syscall::ClockGettime, arch);
    allow(&mut rules, Syscall::Close, arch);
    allow(&mut rules, Syscall::Dup, arch);
    allow(&mut rules, Syscall::EpollCreate1, arch);
    allow(&mut rules, Syscall::EpollCtl, arch);
    allow(&mut rules, Syscall::EpollPwait, arch);
    if arch == Arch::X86_64 {
        allow(&mut rules, Syscall::EpollWait, arch);
    }
    allow(&mut rules, Syscall::Exit, arch);
    allow(&mut rules, Syscall::Fcntl, arch);
    allow(&mut rules, Syscall::Futex, arch);
    allow(&mut rules, Syscall::Gettid, arch);
    allow(&mut rules, Syscall::Madvise, arch);
    allow(&mut rules, Syscall::Mmap, arch);
    allow(&mut rules, Syscall::Mprotect, arch);
    allow(&mut rules, Syscall::Mremap, arch);
    allow(&mut rules, Syscall::Munmap, arch);
    allow(&mut rules, Syscall::Openat, arch);
    allow(&mut rules, Syscall::Read, arch);
    allow(&mut rules, Syscall::RtSigprocmask, arch);
    allow(&mut rules, Syscall::RtSigreturn, arch);
    allow(&mut rules, Syscall::Sigaltstack, arch);
    allow(&mut rules, Syscall::Write, arch);
    assert(rules_view(rules@) =~= common_rules(target));
    rules
}

/// What a thread may call beyond what every device thread may.
pub open spec fn thread_rules(thread_type: Thread, target: Target) -> Seq<RuleView> {
    match thread_type {
        Thread::VirtioBalloon => balloon_rules(target),
        Thread::VirtioBlock => block_rules(target),
        Thread::VirtioConsole => console_rules(target),
        Thread::VirtioIommu => iommu_rules(target),
        Thread::VirtioMem => mem_rules(target),
        Thread::VirtioNet => net_rules(target),
        Thread::VirtioNetCtl => net_ctl_rules(target),
        Thread::VirtioPmem => pmem_rules(target),
        Thread::VirtioRng => rng_rules(target),
        Thread::VirtioRtc => rtc_rules(target),
        Thread::VirtioVhostBlock => vhost_block_rules(target),
        Thread::VirtioVhostFs => vhost_fs_rules(target),
        Thread::VirtioGenericVhostUser => generic_vhost_user_rules(target),
        Thread::VirtioVhostNet => vhost_net_rules(target),
        Thread::VirtioVhostNetCtl => vhost_net_ctl_rules(target),
        Thread::VirtioVsock => vsock_rules(target),
        Thread::VirtioWatchdog => watchdog_rules(target),
    }
}

/// What a thread may call: first what only it may, then what every device thread may.
pub open spec fn seccomp_rules(thread_type: Thread, target: Target) -> Seq<RuleView> {
    thread_rules(thread_type, target) + common_rules(target)
}

/// What a thread may call: first what only it may, then what every device thread may.
pub fn get_seccomp_rules(thread_type: Thread, target: Target) -> (r: Vec<(i64, Vec<CallRule>)>)
    ensures
        rules_view(r@) == seccomp_rules(thread_type, target),
{
    let mut rules = match thread_type {
        Thread::VirtioBalloon => virtio_balloon_thread_rules(target),
        Thread::VirtioBlock => virtio_block_thread_rules(target),
        Thread::VirtioConsole => virtio_console_thread_rules(target),
        Thread::VirtioIommu => virtio_iommu_thread_rules(target),
        Thread::VirtioMem => virtio_mem_thread_rules(target),
        Thread::VirtioNet => virtio_net_thread_rules(target),
        Thread::VirtioNetCtl => virtio_net_ctl_thread_rules(target),
        Thread::VirtioPmem => virtio_pmem_thread_rules(target),
        Thread::VirtioRng => virtio_rng_thread_rules(target),
        Thread::VirtioRtc => virtio_rtc_thread_rules(target),
        Thread::VirtioVhostBlock => virtio_vhost_block_thread_rules(target),
        Thread::VirtioVhostFs => virtio_vhost_fs_thread_rules(target),
        Thread::VirtioGenericVhostUser => virtio_generic_vhost_user_thread_rules(target),
        Thread::VirtioVhostNet => virtio_vhost_net_thread_rules(target),
        Thread::VirtioVhostNetCtl => virtio_vhost_net_ctl_thread_rules(target),
        Thread::VirtioVsock => virtio_vsock_thread_rules(target),
        Thread::VirtioWatchdog => virtio_watchdog_thread_rules(target),
    };
    let mut common = virtio_thread_common(target);
    let ghost own = rules@;
    let ghost shared = common@;
    rules.append(&mut common);
    assert(rules_view(rules@) =~= rules_view(own) + rules_view(shared));
    rules
}

/// A list keeps its numbers, its rules and their conditions, in their order.
pub proof fn law_rules_view(
    rules: Seq<(i64, Vec<CallRule>)>,
    i: int,
    chain: Seq<CallRule>,
    k: int,
)
    requires
        0 <= i < rules.len(),
        0 <= k < chain.len(),
    ensures
        rules_view(rules).len() == rules.len(),
        rules_view(rules)[i].0 == rules[i].0,
        rules_view(rules)[i].1 == chain_view(rules[i].1@),
        chain_view(chain).len() == chain.len(),
        chain_view(chain)[k] == chain[k].conditions@,
{
}

/// What a thread may call begins with its own calls and ends with those of every thread.
pub proof fn law_own_calls_first(thread_type: Thread, target: Target, i: int)
    requires
        0 <= i < seccomp_rules(thread_type, target).len(),
    ensures
        seccomp_rules(thread_type, target).len() == thread_rules(thread_type, target).len()
            + common_rules(target).len(),
        i < thread_rules(thread_type, target).len() ==> seccomp_rules(thread_type, target)[i]
            == thread_rules(thread_type, target)[i],
        i >= thread_rules(thread_type, target).len() ==> seccomp_rules(thread_type, target)[i]
            == common_rules(target)[i - thread_rules(thread_type, target).len()],
{
}

} // verus!
