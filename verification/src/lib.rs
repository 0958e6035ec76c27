//! A rootfs disk that is put together from a base image, committed layers and a live overlay, and
//! the seccomp filters of the threads that serve such devices.
//!
//! The library decides; whoever uses it opens, reads and writes the files. A disk is opened stage
//! by stage (`open`), a request is split at block boundaries (`segment`, `state`), each part is
//! turned into steps on the live overlay (`step`), and a flush into steps that save its index
//! (`save`). What all this does to the bytes that a guest sees is stated in `model` and `laws`, who
//! may make which system call in `permissions`, and what each call gives for its arguments in
//! `calls`.
pub mod calls;
pub mod config;
pub mod disk;
pub mod error;
pub mod laws;
pub mod model;
pub mod open;
pub mod overlay;
pub mod paths;
pub mod permissions;
pub mod run;
pub mod save;
pub mod seccomp_filters;
pub mod seccomp_program;
pub mod segment;
pub mod state;
pub mod step;
pub mod sync_io;
pub mod syscall;
pub mod text;
