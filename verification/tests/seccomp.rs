//! Filters, held against those that the compiler builds from the same rules.
use std::collections::BTreeMap;

use seccompiler::{SeccompCmpArgLen, SeccompCmpOp};
use tensorlake_rootfs::seccomp_filters::{
    create_virtio_block_ioctl_seccomp_rule, get_seccomp_rules, mshv_sev_snp_ioctl_seccomp_rule,
    virtio_thread_common, ArgCondition, ArgLen, ArgTest, CallRule, Target, Thread,
};
use tensorlake_rootfs::seccomp_filters::{
    BLKDISCARD, BLKZEROOUT, FIONBIO, IOMMU_IOAS_MAP, IOMMU_IOAS_UNMAP, TIOCGWINSZ, TUNSETOFFLOAD,
    VFIO_IOMMU_MAP_DMA, VFIO_IOMMU_UNMAP_DMA,
};
use tensorlake_rootfs::seccomp_program::{
    build_program, get_seccomp_filter, Error, SeccompAction, SockFilter, Verdict,
};
use tensorlake_rootfs::syscall::{Arch, Syscall};

const HOST: Target = Target { arch: Arch::X86_64, sev_snp: false };
const SNP: Target = Target { arch: Arch::X86_64, sev_snp: true };
const ARM: Target = Target { arch: Arch::Aarch64, sev_snp: false };

fn threads() -> Vec<Thread> {
    vec![
        Thread::VirtioBalloon,
        Thread::VirtioBlock,
        Thread::VirtioConsole,
        Thread::VirtioIommu,
        Thread::VirtioMem,
        Thread::VirtioNet,
        Thread::VirtioNetCtl,
        Thread::VirtioPmem,
        Thread::VirtioRng,
        Thread::VirtioRtc,
        Thread::VirtioVhostBlock,
        Thread::VirtioVhostFs,
        Thread::VirtioGenericVhostUser,
        Thread::VirtioVhostNet,
        Thread::VirtioVhostNetCtl,
        Thread::VirtioVsock,
        Thread::VirtioWatchdog,
    ]
}

fn request(value: u64) -> seccompiler::SeccompRule {
    seccompiler::SeccompRule::new(vec![seccompiler::SeccompCondition::new(
        1,
        SeccompCmpArgLen::Dword,
        SeccompCmpOp::Eq,
        value,
    )
    .unwrap()])
    .unwrap()
}

/// The requests that a list lets through, by the number of the system call.
fn requests(rules: Vec<(i64, Vec<CallRule>)>) -> BTreeMap<i64, Vec<u64>> {
    let mut found = BTreeMap::new();
    for (number, chain) in rules {
        let mut values = vec![];
        for rule in &chain {
            assert_eq!(rule.conditions.len(), 1);
            assert_eq!(rule.conditions[0].arg_index, 1);
            assert_eq!(rule.conditions[0].arg_len, ArgLen::Dword);
            assert_eq!(rule.conditions[0].test, ArgTest::Eq);
            values.push(rule.conditions[0].value);
        }
        found.insert(number, values);
    }
    found
}

fn compiled(
    calls: BTreeMap<i64, Vec<u64>>,
    mismatch: seccompiler::SeccompAction,
    arch: seccompiler::TargetArch,
) -> Vec<SockFilter> {
    let rules = calls
        .into_iter()
        .map(|(number, values)| (number, values.into_iter().map(request).collect()))
        .collect();
    let filter = seccompiler::SeccompFilter::new(
        rules,
        mismatch,
        seccompiler::SeccompAction::Allow,
        arch,
    )
    .unwrap();
    let program: seccompiler::BpfProgram = filter.try_into().unwrap();
    program
        .into_iter()
        .map(|i| SockFilter { code: i.code, jt: i.jt, jf: i.jf, k: i.k })
        .collect()
}

#[test]
fn virtio_block_filter_allows_tensorlake_live_index_syscalls() {
    let rules: BTreeMap<_, _> = get_seccomp_rules(Thread::VirtioBlock, HOST)
        .into_iter()
        .collect();

    assert!(rules.contains_key(&libc::SYS_mkdir));
    assert!(rules.contains_key(&libc::SYS_rename));
    assert!(rules.contains_key(&libc::SYS_stat));
    assert!(rules.contains_key(&libc::SYS_unlink));
    assert!(rules.contains_key(&libc::SYS_mkdirat));
    assert!(rules.contains_key(&libc::SYS_newfstatat));
    assert!(rules.contains_key(&libc::SYS_open));
    assert!(rules.contains_key(&libc::SYS_renameat));
    assert!(rules.contains_key(&libc::SYS_renameat2));
    assert!(rules.contains_key(&libc::SYS_statx));
}

#[test]
fn an_aarch64_block_filter_allows_live_index_syscalls() {
    let rules: BTreeMap<_, _> = get_seccomp_rules(Thread::VirtioBlock, ARM)
        .into_iter()
        .collect();
    for number in [34, 79, 38, 276, 291, 35] {
        assert!(rules.contains_key(&number));
    }
    assert!(!rules.contains_key(&-1));
}

#[test]
fn filters_are_those_of_the_rules() {
    for thread in threads() {
        for target in [HOST, SNP, ARM] {
            let arch = match target.arch {
                Arch::X86_64 => seccompiler::TargetArch::x86_64,
                Arch::Aarch64 => seccompiler::TargetArch::aarch64,
            };
            let calls = requests(get_seccomp_rules(thread, target));
            assert_eq!(
                get_seccomp_filter(&SeccompAction::Log, thread, target).unwrap(),
                compiled(calls.clone(), seccompiler::SeccompAction::Log, arch)
            );
            assert_eq!(
                get_seccomp_filter(&SeccompAction::Trap, thread, target).unwrap(),
                compiled(calls, seccompiler::SeccompAction::Trap, arch)
            );
        }
    }
}

#[test]
fn console_filter_in_full() {
    let mut calls: BTreeMap<i64, Vec<u64>> = [
        libc::SYS_sched_getaffinity,
        libc::SYS_set_robust_list,
        libc::SYS_brk,
        libc::SYS_clock_gettime,
        libc::SYS_close,
        libc::SYS_dup,
        libc::SYS_epoll_create1,
        libc::SYS_epoll_ctl,
        libc::SYS_epoll_pwait,
        libc::SYS_epoll_wait,
        libc::SYS_exit,
        libc::SYS_fcntl,
        libc::SYS_futex,
        libc::SYS_gettid,
        libc::SYS_madvise,
        libc::SYS_mmap,
        libc::SYS_mprotect,
        libc::SYS_mremap,
        libc::SYS_munmap,
        libc::SYS_openat,
        libc::SYS_read,
        libc::SYS_rt_sigprocmask,
        libc::SYS_rt_sigreturn,
        libc::SYS_sigaltstack,
        libc::SYS_write,
    ]
    .into_iter()
    .map(|number| (number, vec![]))
    .collect();
    calls.insert(libc::SYS_ioctl, vec![libc::TIOCGWINSZ as u64]);
    let trap = seccompiler::SeccompAction::Trap;
    let arch = seccompiler::TargetArch::x86_64;
    assert_eq!(
        get_seccomp_filter(&SeccompAction::KillProcess, Thread::VirtioConsole, HOST).unwrap(),
        compiled(calls.clone(), trap.clone(), arch)
    );
    calls.insert(
        libc::SYS_ioctl,
        vec![
            libc::TIOCGWINSZ as u64,
            mshv_ioctls::MSHV_MODIFY_GPA_HOST_ACCESS(),
        ],
    );
    assert_eq!(
        get_seccomp_filter(&SeccompAction::Errno(1), Thread::VirtioConsole, SNP).unwrap(),
        compiled(calls, trap, arch)
    );
}

#[test]
fn a_thread_that_may_do_all_has_no_program() {
    for thread in threads() {
        assert_eq!(
            get_seccomp_filter(&SeccompAction::Allow, thread, HOST).unwrap(),
            []
        );
    }
}

#[test]
fn every_action_but_allow_and_log_traps() {
    let trapped = get_seccomp_filter(&SeccompAction::Trap, Thread::VirtioRng, HOST).unwrap();
    for action in [
        SeccompAction::Errno(5),
        SeccompAction::KillThread,
        SeccompAction::KillProcess,
        SeccompAction::Trace(1),
    ] {
        assert_eq!(
            get_seccomp_filter(&action, Thread::VirtioRng, HOST).unwrap(),
            trapped
        );
    }
    let logged = get_seccomp_filter(&SeccompAction::Log, Thread::VirtioRng, HOST).unwrap();
    assert_ne!(logged, trapped);
}

#[test]
fn ioctls_are_guarded_and_common_calls_are_not() {
    for thread in threads() {
        for target in [HOST, SNP, ARM] {
            let calls = requests(get_seccomp_rules(thread, target));
            if let Some(values) = calls.get(&Syscall::Ioctl.number(target.arch)) {
                assert!(!values.is_empty());
            }
            for (number, _) in virtio_thread_common(target) {
                assert_eq!(calls[&number], []);
            }
        }
    }
}

#[test]
fn rules_of_single_threads() {
    let own = |thread, target| {
        let mut rules = get_seccomp_rules(thread, target);
        let common = virtio_thread_common(target).len();
        rules.truncate(rules.len() - common);
        rules.iter().map(|entry| entry.0).collect::<Vec<i64>>()
    };
    assert_eq!(own(Thread::VirtioBalloon, HOST), [libc::SYS_fallocate]);
    assert_eq!(own(Thread::VirtioPmem, HOST), [libc::SYS_fsync]);
    assert_eq!(own(Thread::VirtioVhostNetCtl, HOST), []);
    assert_eq!(
        own(Thread::VirtioNet, HOST),
        [libc::SYS_readv, libc::SYS_timerfd_settime, libc::SYS_writev]
    );
    assert_eq!(
        own(Thread::VirtioNet, SNP),
        [
            libc::SYS_ioctl,
            libc::SYS_readv,
            libc::SYS_timerfd_settime,
            libc::SYS_writev
        ]
    );
    assert_eq!(
        own(Thread::VirtioRtc, SNP),
        [
            libc::SYS_sched_getaffinity,
            libc::SYS_set_robust_list,
            libc::SYS_ioctl
        ]
    );
    assert_eq!(own(Thread::VirtioBlock, HOST).len(), 30);
    assert_eq!(own(Thread::VirtioBlock, ARM).len(), 26);
    assert_eq!(own(Thread::VirtioVhostNet, HOST)[13], libc::SYS_unlink);
    assert_eq!(own(Thread::VirtioVhostNet, ARM)[13], 35);
    assert_eq!(
        requests(vec![(0, create_virtio_block_ioctl_seccomp_rule(SNP))])[&0],
        [0x1277, 0x127f, mshv_ioctls::MSHV_MODIFY_GPA_HOST_ACCESS()]
    );
    assert_eq!(
        mshv_sev_snp_ioctl_seccomp_rule().conditions[0].value,
        mshv_ioctls::MSHV_MODIFY_GPA_HOST_ACCESS()
    );
    let dma = [
        VFIO_IOMMU_MAP_DMA,
        VFIO_IOMMU_UNMAP_DMA,
        IOMMU_IOAS_MAP,
        IOMMU_IOAS_UNMAP,
    ];
    for thread in [Thread::VirtioIommu, Thread::VirtioMem] {
        assert_eq!(requests(get_seccomp_rules(thread, SNP))[&libc::SYS_ioctl], dma);
    }
    assert_eq!(dma, [0x3b71, 0x3b72, 0x3b85, 0x3b86]);
}

#[test]
fn rules_that_cannot_be_built_are_refused() {
    let condition = ArgCondition {
        arg_index: 6,
        arg_len: ArgLen::Qword,
        test: ArgTest::Ne,
        value: 0,
    };
    let rules = vec![(1, vec![CallRule { conditions: vec![condition] }])];
    assert!(matches!(
        build_program(&rules, Verdict::Trap, Arch::X86_64),
        Err(Error::Backend(seccompiler::BackendError::InvalidArgumentNumber))
    ));
    let rules = vec![(1, vec![CallRule { conditions: vec![] }])];
    assert!(matches!(
        build_program(&rules, Verdict::Trap, Arch::X86_64),
        Err(Error::Backend(seccompiler::BackendError::EmptyRule))
    ));
    let rules = vec![(1, vec![])];
    assert!(matches!(
        build_program(&rules, Verdict::Allow, Arch::X86_64),
        Err(Error::Backend(seccompiler::BackendError::IdenticalActions))
    ));
    assert!(build_program(&rules, Verdict::Log, Arch::X86_64).is_ok());
}

#[test]
fn every_kind_of_condition_reaches_the_compiler() {
    let tests = [
        (ArgTest::Eq, SeccompCmpOp::Eq),
        (ArgTest::Ge, SeccompCmpOp::Ge),
        (ArgTest::Gt, SeccompCmpOp::Gt),
        (ArgTest::Le, SeccompCmpOp::Le),
        (ArgTest::Lt, SeccompCmpOp::Lt),
        (ArgTest::MaskedEq(7), SeccompCmpOp::MaskedEq(7)),
        (ArgTest::Ne, SeccompCmpOp::Ne),
    ];
    let lens = [
        (ArgLen::Dword, SeccompCmpArgLen::Dword),
        (ArgLen::Qword, SeccompCmpArgLen::Qword),
    ];
    for (test, op) in &tests {
        for (len, arg_len) in &lens {
            let condition = ArgCondition { arg_index: 3, arg_len: *len, test: *test, value: 9 };
            let rules = vec![(5, vec![CallRule { conditions: vec![condition, condition] }])];
            let one =
                seccompiler::SeccompCondition::new(3, arg_len.clone(), op.clone(), 9).unwrap();
            let rule = seccompiler::SeccompRule::new(vec![one.clone(), one]).unwrap();
            let filter = seccompiler::SeccompFilter::new(
                BTreeMap::from([(5, vec![rule])]),
                seccompiler::SeccompAction::Log,
                seccompiler::SeccompAction::Allow,
                seccompiler::TargetArch::aarch64,
            )
            .unwrap();
            let expected: seccompiler::BpfProgram = filter.try_into().unwrap();
            let program = build_program(&rules, Verdict::Log, Arch::Aarch64).unwrap();
            assert_eq!(program.len(), expected.len());
            for (made, wanted) in program.iter().zip(&expected) {
                assert_eq!(
                    (made.code, made.jt, made.jf, made.k),
                    (wanted.code, wanted.jt, wanted.jf, wanted.k)
                );
            }
        }
    }
}

#[test]
fn a_hundred_calls_of_six_rules_fit() {
    let rule = |value| CallRule {
        conditions: vec![ArgCondition {
            arg_index: 1,
            arg_len: ArgLen::Dword,
            test: ArgTest::Eq,
            value,
        }],
    };
    let rules = |calls: i64, chain: u64| {
        (0..calls)
            .map(|number| (number, (0..chain).map(rule).collect()))
            .collect()
    };
    let built = |rules| build_program(&rules, Verdict::Trap, Arch::X86_64);
    assert_eq!(built(rules(100, 6)).unwrap().len(), 3205);
    assert_eq!(built(rules(100, 0)).unwrap().len(), 505);
    assert!(matches!(
        built(rules(130, 6)),
        Err(Error::Backend(seccompiler::BackendError::FilterTooLarge(4165)))
    ));
}

#[test]
fn last_rules_of_a_call_stand() {
    let condition = ArgCondition {
        arg_index: 1,
        arg_len: ArgLen::Dword,
        test: ArgTest::Eq,
        value: 4,
    };
    let rules = vec![
        (1, vec![]),
        (1, vec![CallRule { conditions: vec![condition] }]),
    ];
    assert_eq!(
        build_program(&rules, Verdict::Log, Arch::X86_64).unwrap(),
        compiled(
            BTreeMap::from([(1, vec![4])]),
            seccompiler::SeccompAction::Log,
            seccompiler::TargetArch::x86_64
        )
    );
}

#[test]
fn ioctl_requests_are_those_of_the_host() {
    assert_eq!(TIOCGWINSZ, libc::TIOCGWINSZ as u64);
    assert_eq!(FIONBIO, libc::FIONBIO as u64);
    assert_eq!(TUNSETOFFLOAD, libc::TUNSETOFFLOAD as u64);
    assert_eq!(BLKDISCARD, 0x1277);
    assert_eq!(BLKZEROOUT, 0x127f);
}

#[test]
fn aarch64_lacks_replaced_calls() {
    for call in [
        Syscall::EpollWait,
        Syscall::Mkdir,
        Syscall::Open,
        Syscall::Rename,
        Syscall::Stat,
        Syscall::Unlink,
    ] {
        assert_eq!(call.number(Arch::Aarch64), -1);
    }
    assert_eq!(Syscall::Fallocate.number(Arch::Aarch64), 47);
    assert_eq!(Syscall::Unlinkat.number(Arch::Aarch64), 35);
}

#[test]
fn numbers_are_those_of_the_host() {
    let numbers = [
        (Syscall::Accept4, libc::SYS_accept4),
        (Syscall::Bind, libc::SYS_bind),
        (Syscall::Brk, libc::SYS_brk),
        (Syscall::ClockGettime, libc::SYS_clock_gettime),
        (Syscall::ClockNanosleep, libc::SYS_clock_nanosleep),
        (Syscall::Close, libc::SYS_close),
        (Syscall::Connect, libc::SYS_connect),
        (Syscall::Dup, libc::SYS_dup),
        (Syscall::EpollCreate1, libc::SYS_epoll_create1),
        (Syscall::EpollCtl, libc::SYS_epoll_ctl),
        (Syscall::EpollPwait, libc::SYS_epoll_pwait),
        (Syscall::EpollWait, libc::SYS_epoll_wait),
        (Syscall::Exit, libc::SYS_exit),
        (Syscall::Fallocate, libc::SYS_fallocate),
        (Syscall::Fcntl, libc::SYS_fcntl),
        (Syscall::Fdatasync, libc::SYS_fdatasync),
        (Syscall::Fsync, libc::SYS_fsync),
        (Syscall::Ftruncate, libc::SYS_ftruncate),
        (Syscall::Futex, libc::SYS_futex),
        (Syscall::Getcwd, libc::SYS_getcwd),
        (Syscall::Getrandom, libc::SYS_getrandom),
        (Syscall::Gettid, libc::SYS_gettid),
        (Syscall::IoDestroy, libc::SYS_io_destroy),
        (Syscall::IoGetevents, libc::SYS_io_getevents),
        (Syscall::IoSubmit, libc::SYS_io_submit),
        (Syscall::IoUringEnter, libc::SYS_io_uring_enter),
        (Syscall::Ioctl, libc::SYS_ioctl),
        (Syscall::Listen, libc::SYS_listen),
        (Syscall::Lseek, libc::SYS_lseek),
        (Syscall::Madvise, libc::SYS_madvise),
        (Syscall::Mkdir, libc::SYS_mkdir),
        (Syscall::Mkdirat, libc::SYS_mkdirat),
        (Syscall::Mmap, libc::SYS_mmap),
        (Syscall::Mprotect, libc::SYS_mprotect),
        (Syscall::Mremap, libc::SYS_mremap),
        (Syscall::Munmap, libc::SYS_munmap),
        (Syscall::Nanosleep, libc::SYS_nanosleep),
        (Syscall::Newfstatat, libc::SYS_newfstatat),
        (Syscall::Open, libc::SYS_open),
        (Syscall::Openat, libc::SYS_openat),
        (Syscall::Pread64, libc::SYS_pread64),
        (Syscall::Preadv, libc::SYS_preadv),
        (Syscall::Pwrite64, libc::SYS_pwrite64),
        (Syscall::Pwritev, libc::SYS_pwritev),
        (Syscall::Read, libc::SYS_read),
        (Syscall::Readv, libc::SYS_readv),
        (Syscall::Recvfrom, libc::SYS_recvfrom),
        (Syscall::Recvmsg, libc::SYS_recvmsg),
        (Syscall::Rename, libc::SYS_rename),
        (Syscall::Renameat, libc::SYS_renameat),
        (Syscall::Renameat2, libc::SYS_renameat2),
        (Syscall::RtSigprocmask, libc::SYS_rt_sigprocmask),
        (Syscall::RtSigreturn, libc::SYS_rt_sigreturn),
        (Syscall::SchedGetaffinity, libc::SYS_sched_getaffinity),
        (Syscall::SchedSetaffinity, libc::SYS_sched_setaffinity),
        (Syscall::Sendmsg, libc::SYS_sendmsg),
        (Syscall::Sendto, libc::SYS_sendto),
        (Syscall::SetRobustList, libc::SYS_set_robust_list),
        (Syscall::Sigaltstack, libc::SYS_sigaltstack),
        (Syscall::Socket, libc::SYS_socket),
        (Syscall::Stat, libc::SYS_stat),
        (Syscall::Statx, libc::SYS_statx),
        (Syscall::TimerfdCreate, libc::SYS_timerfd_create),
        (Syscall::TimerfdSettime, libc::SYS_timerfd_settime),
        (Syscall::Unlink, libc::SYS_unlink),
        (Syscall::Unlinkat, libc::SYS_unlinkat),
        (Syscall::Write, libc::SYS_write),
        (Syscall::Writev, libc::SYS_writev),
    ];
    let mut seen = BTreeMap::new();
    for (call, number) in numbers {
        assert_eq!(call.number(Arch::X86_64), number);
        assert!(seen.insert(number, call).is_none());
    }
}
