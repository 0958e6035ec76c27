# tensorlake_rootfs

A rootfs disk for virtual machines that is put together from a base image, committed layers and a
writable live overlay, and the seccomp filters of the threads that serve virtio devices.

The library in `src/` is verified with Verus. It makes every decision and touches no file; `app/`
carries the decisions out on a Linux host.

| Module | What it holds |
| --- | --- |
| `model` | what a disk holds: where each block is read from, and the bytes that a guest sees |
| `laws` | what reads, writes, zeroing, failures and reopening do to those bytes |
| `config`, `open` | the description of a disk, and the stages in which it is opened |
| `segment`, `state`, `step` | requests, split at block boundaries and turned into steps |
| `overlay`, `run` | the marks of the live overlay, and the runs of blocks in its index |
| `save`, `paths` | how the index is saved, and where |
| `disk`, `sync_io` | what the disk reports, and the queue of completions |
| `syscall`, `seccomp_filters`, `seccomp_program` | what each device thread may call, and its filter |
| `error`, `text` | errors, and the texts in them |

Sizes, offsets and lengths are 64-bit. Paths are UTF-8. Filters are built for x86_64 and aarch64.
