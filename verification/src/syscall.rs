//! System calls and the numbers under which Linux knows them.
use vstd::prelude::*;

verus! {

/// The processor architecture that a filter is built for.
#[derive(Clone, Copy, Debug, PartialEq, Eq, Structural)]
pub enum Arch {
    X86_64,
    Aarch64,
}

/// A system call that some device thread makes.
#[derive(Clone, Copy, Debug, PartialEq, Eq, Structural)]
pub enum Syscall {
    Accept4,
    Bind,
    Brk,
    ClockGettime,
    ClockNanosleep,
    Close,
    Connect,
    Dup,
    EpollCreate1,
    EpollCtl,
    EpollPwait,
    EpollWait,
    Exit,
    Fallocate,
    Fcntl,
    Fdatasync,
    Fsync,
    Ftruncate,
    Futex,
    Getcwd,
    Getrandom,
    Gettid,
    IoDestroy,
    IoGetevents,
    IoSubmit,
    IoUringEnter,
    Ioctl,
    Listen,
    Lseek,
    Madvise,
    Mkdir,
    Mkdirat,
    Mmap,
    Mprotect,
    Mremap,
    Munmap,
    Nanosleep,
    Newfstatat,
    Open,
    Openat,
    Pread64,
    Preadv,
    Pwrite64,
    Pwritev,
    Read,
    Readv,
    Recvfrom,
    Recvmsg,
    Rename,
    Renameat,
    Renameat2,
    RtSigprocmask,
    RtSigreturn,
    SchedGetaffinity,
    SchedSetaffinity,
    Sendmsg,
    Sendto,
    SetRobustList,
    Sigaltstack,
    Socket,
    Stat,
    Statx,
    TimerfdCreate,
    TimerfdSettime,
    Unlink,
    Unlinkat,
    Write,
    Writev,
}

impl Syscall {
    /// The architecture has the system call. Newer architectures lack those that others replaced.
    pub open spec fn exists_on(self, arch: Arch) -> bool {
        arch is Aarch64 ==> !(self is EpollWait || self is Mkdir || self is Open || self is Rename
            || self is Stat || self is Unlink)
    }

    /// The number of the system call, and -1 where the architecture lacks it.
    pub open spec fn spec_number(self, arch: Arch) -> i64 {
        match arch {
            Arch::X86_64 => match self {
                Syscall::Accept4 => 288,
                Syscall::Bind => 49,
                Syscall::Brk => 12,
                Syscall::ClockGettime => 228,
                Syscall::ClockNanosleep => 230,
                Syscall::Close => 3,
                Syscall::Connect => 42,
                Syscall::Dup => 32,
                Syscall::EpollCreate1 => 291,
                Syscall::EpollCtl => 233,
                Syscall::EpollPwait => 281,
                Syscall::EpollWait => 232,
                Syscall::Exit => 60,
                Syscall::Fallocate => 285,
                Syscall::Fcntl => 72,
                Syscall::Fdatasync => 75,
                Syscall::Fsync => 74,
                Syscall::Ftruncate => 77,
                Syscall::Futex => 202,
                Syscall::Getcwd => 79,
                Syscall::Getrandom => 318,
                Syscall::Gettid => 186,
                Syscall::IoDestroy => 207,
                Syscall::IoGetevents => 208,
                Syscall::IoSubmit => 209,
                Syscall::IoUringEnter => 426,
                Syscall::Ioctl => 16,
                Syscall::Listen => 50,
                Syscall::Lseek => 8,
                Syscall::Madvise => 28,
                Syscall::Mkdir => 83,
                Syscall::Mkdirat => 258,
                Syscall::Mmap => 9,
                Syscall::Mprotect => 10,
                Syscall::Mremap => 25,
                Syscall::Munmap => 11,
                Syscall::Nanosleep => 35,
                Syscall::Newfstatat => 262,
                Syscall::Open => 2,
                Syscall::Openat => 257,
                Syscall::Pread64 => 17,
                Syscall::Preadv => 295,
                Syscall::Pwrite64 => 18,
                Syscall::Pwritev => 296,
                Syscall::Read => 0,
                Syscall::Readv => 19,
                Syscall::Recvfrom => 45,
                Syscall::Recvmsg => 47,
                Syscall::Rename => 82,
                Syscall::Renameat => 264,
                Syscall::Renameat2 => 316,
                Syscall::RtSigprocmask => 14,
                Syscall::RtSigreturn => 15,
                Syscall::SchedGetaffinity => 204,
                Syscall::SchedSetaffinity => 203,
                Syscall::Sendmsg => 46,
                Syscall::Sendto => 44,
                Syscall::SetRobustList => 273,
                Syscall::Sigaltstack => 131,
                Syscall::Socket => 41,
                Syscall::Stat => 4,
                Syscall::Statx => 332,
                Syscall::TimerfdCreate => 283,
                Syscall::TimerfdSettime => 286,
                Syscall::Unlink => 87,
                Syscall::Unlinkat => 263,
                Syscall::Write => 1,
                Syscall::Writev => 20,
            },
            Arch::Aarch64 => match self {
                Syscall::Accept4 => 242,
                Syscall::Bind => 200,
                Syscall::Brk => 214,
                Syscall::ClockGettime => 113,
                Syscall::ClockNanosleep => 115,
                Syscall::Close => 57,
                Syscall::Connect => 203,
                Syscall::Dup => 23,
                Syscall::EpollCreate1 => 20,
                Syscall::EpollCtl => 21,
                Syscall::EpollPwait => 22,
                Syscall::EpollWait => (-1) as i64,
                Syscall::Exit => 93,
                Syscall::Fallocate => 47,
                Syscall::Fcntl => 25,
                Syscall::Fdatasync => 83,
                Syscall::Fsync => 82,
                Syscall::Ftruncate => 46,
                Syscall::Futex => 98,
                Syscall::Getcwd => 17,
                Syscall::Getrandom => 278,
                Syscall::Gettid => 178,
                Syscall::IoDestroy => 1,
                Syscall::IoGetevents => 4,
                Syscall::IoSubmit => 2,
                Syscall::IoUringEnter => 426,
                Syscall::Ioctl => 29,
                Syscall::Listen => 201,
                Syscall::Lseek => 62,
                Syscall::Madvise => 233,
                Syscall::Mkdir => (-1) as i64,
                Syscall::Mkdirat => 34,
                Syscall::Mmap => 222,
                Syscall::Mprotect => 226,
                Syscall::Mremap => 216,
                Syscall::Munmap => 215,
                Syscall::Nanosleep => 101,
                Syscall::Newfstatat => 79,
                Syscall::Open => (-1) as i64,
                Syscall::Openat => 56,
                Syscall::Pread64 => 67,
                Syscall::Preadv => 69,
                Syscall::Pwrite64 => 68,
                Syscall::Pwritev => 70,
                Syscall::Read => 63,
                Syscall::Readv => 65,
                Syscall::Recvfrom => 207,
                Syscall::Recvmsg => 212,
                Syscall::Rename => (-1) as i64,
                Syscall::Renameat => 38,
                Syscall::Renameat2 => 276,
                Syscall::RtSigprocmask => 135,
                Syscall::RtSigreturn => 139,
                Syscall::SchedGetaffinity => 123,
                Syscall::SchedSetaffinity => 122,
                Syscall::Sendmsg => 211,
                Syscall::Sendto => 206,
                Syscall::SetRobustList => 99,
                Syscall::Sigaltstack => 132,
                Syscall::Socket => 198,
                Syscall::Stat => (-1) as i64,
                Syscall::Statx => 291,
                Syscall::TimerfdCreate => 85,
                Syscall::TimerfdSettime => 86,
                Syscall::Unlink => (-1) as i64,
                Syscall::Unlinkat => 35,
                Syscall::Write => 64,
                Syscall::Writev => 66,
            },
        }
    }

    /// The number of the system call, and -1 where the architecture lacks it.
    #[verifier::when_used_as_spec(spec_number)]
    pub fn number(self, arch: Arch) -> (r: i64)
        ensures
            r == self.number(arch),
            self.exists_on(arch) <==> 0 <= r,
            r <= 426,
    {
        match arch {
            Arch::X86_64 => match self {
                Syscall::Accept4 => 288,
                Syscall::Bind => 49,
                Syscall::Brk => 12,
                Syscall::ClockGettime => 228,
                Syscall::ClockNanosleep => 230,
                Syscall::Close => 3,
                Syscall::Connect => 42,
                Syscall::Dup => 32,
                Syscall::EpollCreate1 => 291,
                Syscall::EpollCtl => 233,
                Syscall::EpollPwait => 281,
                Syscall::EpollWait => 232,
                Syscall::Exit => 60,
                Syscall::Fallocate => 285,
                Syscall::Fcntl => 72,
                Syscall::Fdatasync => 75,
                Syscall::Fsync => 74,
                Syscall::Ftruncate => 77,
                Syscall::Futex => 202,
                Syscall::Getcwd => 79,
                Syscall::Getrandom => 318,
                Syscall::Gettid => 186,
                Syscall::IoDestroy => 207,
                Syscall::IoGetevents => 208,
                Syscall::IoSubmit => 209,
                Syscall::IoUringEnter => 426,
                Syscall::Ioctl => 16,
                Syscall::Listen => 50,
                Syscall::Lseek => 8,
                Syscall::Madvise => 28,
                Syscall::Mkdir => 83,
                Syscall::Mkdirat => 258,
                Syscall::Mmap => 9,
                Syscall::Mprotect => 10,
                Syscall::Mremap => 25,
                Syscall::Munmap => 11,
                Syscall::Nanosleep => 35,
                Syscall::Newfstatat => 262,
                Syscall::Open => 2,
                Syscall::Openat => 257,
                Syscall::Pread64 => 17,
                Syscall::Preadv => 295,
                Syscall::Pwrite64 => 18,
                Syscall::Pwritev => 296,
                Syscall::Read => 0,
                Syscall::Readv => 19,
                Syscall::Recvfrom => 45,
                Syscall::Recvmsg => 47,
                Syscall::Rename => 82,
                Syscall::Renameat => 264,
                Syscall::Renameat2 => 316,
                Syscall::RtSigprocmask => 14,
                Syscall::RtSigreturn => 15,
                Syscall::SchedGetaffinity => 204,
                Syscall::SchedSetaffinity => 203,
                Syscall::Sendmsg => 46,
                Syscall::Sendto => 44,
                Syscall::SetRobustList => 273,
                Syscall::Sigaltstack => 131,
                Syscall::Socket => 41,
                Syscall::Stat => 4,
                Syscall::Statx => 332,
                Syscall::TimerfdCreate => 283,
                Syscall::TimerfdSettime => 286,
                Syscall::Unlink => 87,
                Syscall::Unlinkat => 263,
                Syscall::Write => 1,
                Syscall::Writev => 20,
            },
            Arch::Aarch64 => match self {
                Syscall::Accept4 => 242,
                Syscall::Bind => 200,
                Syscall::Brk => 214,
                Syscall::ClockGettime => 113,
                Syscall::ClockNanosleep => 115,
                Syscall::Close => 57,
                Syscall::Connect => 203,
                Syscall::Dup => 23,
                Syscall::EpollCreate1 => 20,
                Syscall::EpollCtl => 21,
                Syscall::EpollPwait => 22,
                Syscall::EpollWait => -1,
                Syscall::Exit => 93,
                Syscall::Fallocate => 47,
                Syscall::Fcntl => 25,
                Syscall::Fdatasync => 83,
                Syscall::Fsync => 82,
                Syscall::Ftruncate => 46,
                Syscall::Futex => 98,
                Syscall::Getcwd => 17,
                Syscall::Getrandom => 278,
                Syscall::Gettid => 178,
                Syscall::IoDestroy => 1,
                Syscall::IoGetevents => 4,
                Syscall::IoSubmit => 2,
                Syscall::IoUringEnter => 426,
                Syscall::Ioctl => 29,
                Syscall::Listen => 201,
                Syscall::Lseek => 62,
                Syscall::Madvise => 233,
                Syscall::Mkdir => -1,
                Syscall::Mkdirat => 34,
                Syscall::Mmap => 222,
                Syscall::Mprotect => 226,
                Syscall::Mremap => 216,
                Syscall::Munmap => 215,
                Syscall::Nanosleep => 101,
                Syscall::Newfstatat => 79,
                Syscall::Open => -1,
                Syscall::Openat => 56,
                Syscall::Pread64 => 67,
                Syscall::Preadv => 69,
                Syscall::Pwrite64 => 68,
                Syscall::Pwritev => 70,
                Syscall::Read => 63,
                Syscall::Readv => 65,
                Syscall::Recvfrom => 207,
                Syscall::Recvmsg => 212,
                Syscall::Rename => -1,
                Syscall::Renameat => 38,
                Syscall::Renameat2 => 276,
                Syscall::RtSigprocmask => 135,
                Syscall::RtSigreturn => 139,
                Syscall::SchedGetaffinity => 123,
                Syscall::SchedSetaffinity => 122,
                Syscall::Sendmsg => 211,
                Syscall::Sendto => 206,
                Syscall::SetRobustList => 99,
                Syscall::Sigaltstack => 132,
                Syscall::Socket => 198,
                Syscall::Stat => -1,
                Syscall::Statx => 291,
                Syscall::TimerfdCreate => 85,
                Syscall::TimerfdSettime => 86,
                Syscall::Unlink => -1,
                Syscall::Unlinkat => 35,
                Syscall::Write => 64,
                Syscall::Writev => 66,
            },
        }
    }
}

/// No two system calls of an architecture have the same number, and all are small.
pub proof fn law_numbers_distinct(a: Syscall, b: Syscall, arch: Arch)
    ensures
        a.exists_on(arch) && a.number(arch) == b.number(arch) ==> a == b,
        a.exists_on(arch) ==> 0 <= a.number(arch) <= 426,
{
}

/// The system call that x86_64 knows under a number, as far as device threads make it.
pub open spec fn x86_64_call(number: int) -> Option<Syscall> {
    if number == 0 {
        Some(Syscall::Read)
    } else if number == 1 {
        Some(Syscall::Write)
    } else if number == 2 {
        Some(Syscall::Open)
    } else if number == 3 {
        Some(Syscall::Close)
    } else if number == 4 {
        Some(Syscall::Stat)
    } else if number == 8 {
        Some(Syscall::Lseek)
    } else if number == 9 {
        Some(Syscall::Mmap)
    } else if number == 10 {
        Some(Syscall::Mprotect)
    } else if number == 11 {
        Some(Syscall::Munmap)
    } else if number == 12 {
        Some(Syscall::Brk)
    } else if number == 14 {
        Some(Syscall::RtSigprocmask)
    } else if number == 15 {
        Some(Syscall::RtSigreturn)
    } else if number == 16 {
        Some(Syscall::Ioctl)
    } else if number == 17 {
        Some(Syscall::Pread64)
    } else if number == 18 {
        Some(Syscall::Pwrite64)
    } else if number == 19 {
        Some(Syscall::Readv)
    } else if number == 20 {
        Some(Syscall::Writev)
    } else if number == 25 {
        Some(Syscall::Mremap)
    } else if number == 28 {
        Some(Syscall::Madvise)
    } else if number == 32 {
        Some(Syscall::Dup)
    } else if number == 35 {
        Some(Syscall::Nanosleep)
    } else if number == 41 {
        Some(Syscall::Socket)
    } else if number == 42 {
        Some(Syscall::Connect)
    } else if number == 44 {
        Some(Syscall::Sendto)
    } else if number == 45 {
        Some(Syscall::Recvfrom)
    } else if number == 46 {
        Some(Syscall::Sendmsg)
    } else if number == 47 {
        Some(Syscall::Recvmsg)
    } else if number == 49 {
        Some(Syscall::Bind)
    } else if number == 50 {
        Some(Syscall::Listen)
    } else if number == 60 {
        Some(Syscall::Exit)
    } else if number == 72 {
        Some(Syscall::Fcntl)
    } else if number == 74 {
        Some(Syscall::Fsync)
    } else if number == 75 {
        Some(Syscall::Fdatasync)
    } else if number == 77 {
        Some(Syscall::Ftruncate)
    } else if number == 79 {
        Some(Syscall::Getcwd)
    } else if number == 82 {
        Some(Syscall::Rename)
    } else if number == 83 {
        Some(Syscall::Mkdir)
    } else if number == 87 {
        Some(Syscall::Unlink)
    } else if number == 131 {
        Some(Syscall::Sigaltstack)
    } else if number == 186 {
        Some(Syscall::Gettid)
    } else if number == 202 {
        Some(Syscall::Futex)
    } else if number == 203 {
        Some(Syscall::SchedSetaffinity)
    } else if number == 204 {
        Some(Syscall::SchedGetaffinity)
    } else if number == 207 {
        Some(Syscall::IoDestroy)
    } else if number == 208 {
        Some(Syscall::IoGetevents)
    } else if number == 209 {
        Some(Syscall::IoSubmit)
    } else if number == 228 {
        Some(Syscall::ClockGettime)
    } else if number == 230 {
        Some(Syscall::ClockNanosleep)
    } else if number == 232 {
        Some(Syscall::EpollWait)
    } else if number == 233 {
        Some(Syscall::EpollCtl)
    } else if number == 257 {
        Some(Syscall::Openat)
    } else if number == 258 {
        Some(Syscall::Mkdirat)
    } else if number == 262 {
        Some(Syscall::Newfstatat)
    } else if number == 263 {
        Some(Syscall::Unlinkat)
    } else if number == 264 {
        Some(Syscall::Renameat)
    } else if number == 273 {
        Some(Syscall::SetRobustList)
    } else if number == 281 {
        Some(Syscall::EpollPwait)
    } else if number == 283 {
        Some(Syscall::TimerfdCreate)
    } else if number == 285 {
        Some(Syscall::Fallocate)
    } else if number == 286 {
        Some(Syscall::TimerfdSettime)
    } else if number == 288 {
        Some(Syscall::Accept4)
    } else if number == 291 {
        Some(Syscall::EpollCreate1)
    } else if number == 295 {
        Some(Syscall::Preadv)
    } else if number == 296 {
        Some(Syscall::Pwritev)
    } else if number == 316 {
        Some(Syscall::Renameat2)
    } else if number == 318 {
        Some(Syscall::Getrandom)
    } else if number == 332 {
        Some(Syscall::Statx)
    } else if number == 426 {
        Some(Syscall::IoUringEnter)
    } else {
        None
    }
}

/// The system call that aarch64 knows under a number, as far as device threads make it.
pub open spec fn aarch64_call(number: int) -> Option<Syscall> {
    if number == 1 {
        Some(Syscall::IoDestroy)
    } else if number == 2 {
        Some(Syscall::IoSubmit)
    } else if number == 4 {
        Some(Syscall::IoGetevents)
    } else if number == 17 {
        Some(Syscall::Getcwd)
    } else if number == 20 {
        Some(Syscall::EpollCreate1)
    } else if number == 21 {
        Some(Syscall::EpollCtl)
    } else if number == 22 {
        Some(Syscall::EpollPwait)
    } else if number == 23 {
        Some(Syscall::Dup)
    } else if number == 25 {
        Some(Syscall::Fcntl)
    } else if number == 29 {
        Some(Syscall::Ioctl)
    } else if number == 34 {
        Some(Syscall::Mkdirat)
    } else if number == 35 {
        Some(Syscall::Unlinkat)
    } else if number == 38 {
        Some(Syscall::Renameat)
    } else if number == 46 {
        Some(Syscall::Ftruncate)
    } else if number == 47 {
        Some(Syscall::Fallocate)
    } else if number == 56 {
        Some(Syscall::Openat)
    } else if number == 57 {
        Some(Syscall::Close)
    } else if number == 62 {
        Some(Syscall::Lseek)
    } else if number == 63 {
        Some(Syscall::Read)
    } else if number == 64 {
        Some(Syscall::Write)
    } else if number == 65 {
        Some(Syscall::Readv)
    } else if number == 66 {
        Some(Syscall::Writev)
    } else if number == 67 {
        Some(Syscall::Pread64)
    } else if number == 68 {
        Some(Syscall::Pwrite64)
    } else if number == 69 {
        Some(Syscall::Preadv)
    } else if number == 70 {
        Some(Syscall::Pwritev)
    } else if number == 79 {
        Some(Syscall::Newfstatat)
    } else if number == 82 {
        Some(Syscall::Fsync)
    } else if number == 83 {
        Some(Syscall::Fdatasync)
    } else if number == 85 {
        Some(Syscall::TimerfdCreate)
    } else if number == 86 {
        Some(Syscall::TimerfdSettime)
    } else if number == 93 {
        Some(Syscall::Exit)
    } else if number == 98 {
        Some(Syscall::Futex)
    } else if number == 99 {
        Some(Syscall::SetRobustList)
    } else if number == 101 {
        Some(Syscall::Nanosleep)
    } else if number == 113 {
        Some(Syscall::ClockGettime)
    } else if number == 115 {
        Some(Syscall::ClockNanosleep)
    } else if number == 122 {
        Some(Syscall::SchedSetaffinity)
    } else if number == 123 {
        Some(Syscall::SchedGetaffinity)
    } else if number == 132 {
        Some(Syscall::Sigaltstack)
    } else if number == 135 {
        Some(Syscall::RtSigprocmask)
    } else if number == 139 {
        Some(Syscall::RtSigreturn)
    } else if number == 178 {
        Some(Syscall::Gettid)
    } else if number == 198 {
        Some(Syscall::Socket)
    } else if number == 200 {
        Some(Syscall::Bind)
    } else if number == 201 {
        Some(Syscall::Listen)
    } else if number == 203 {
        Some(Syscall::Connect)
    } else if number == 206 {
        Some(Syscall::Sendto)
    } else if number == 207 {
        Some(Syscall::Recvfrom)
    } else if number == 211 {
        Some(Syscall::Sendmsg)
    } else if number == 212 {
        Some(Syscall::Recvmsg)
    } else if number == 214 {
        Some(Syscall::Brk)
    } else if number == 215 {
        Some(Syscall::Munmap)
    } else if number == 216 {
        Some(Syscall::Mremap)
    } else if number == 222 {
        Some(Syscall::Mmap)
    } else if number == 226 {
        Some(Syscall::Mprotect)
    } else if number == 233 {
        Some(Syscall::Madvise)
    } else if number == 242 {
        Some(Syscall::Accept4)
    } else if number == 276 {
        Some(Syscall::Renameat2)
    } else if number == 278 {
        Some(Syscall::Getrandom)
    } else if number == 291 {
        Some(Syscall::Statx)
    } else if number == 426 {
        Some(Syscall::IoUringEnter)
    } else {
        None
    }
}

/// The system call that an architecture knows under a number.
pub open spec fn call_of(number: int, arch: Arch) -> Option<Syscall> {
    if arch is X86_64 {
        x86_64_call(number)
    } else {
        aarch64_call(number)
    }
}

/// The numbers of an architecture lead back to the system calls, and a call that the architecture
/// lacks has no number.
pub proof fn law_numbers_lead_back(call: Syscall, arch: Arch)
    ensures
        call.number(arch) >= 0 ==> call_of(call.number(arch) as int, arch) == Some(call),
        call.number(arch) < 0 ==> forall|n: int| call_of(n, arch) != Some(call),
        call.exists_on(arch) <==> call.number(arch) >= 0,
{
}

/// Every number that an architecture knows is that of the call it stands for.
pub proof fn law_calls_have_their_numbers(number: int, arch: Arch)
    requires
        call_of(number, arch) is Some,
    ensures
        call_of(number, arch)->0.number(arch) == number,
        call_of(number, arch)->0.exists_on(arch),
{
}

} // verus!
