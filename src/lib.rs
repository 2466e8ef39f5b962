//! Secured execution of arbitrary commands.
//!
//! A target executable is run only after its contents match a known digest,
//! its capability set is reduced to an allow-list, and a syscall filter that
//! permits only whitelisted syscalls (optionally constrained by argument
//! values) has been built from its policy.
pub mod seccomp;
pub mod filter;
pub mod policy;
pub mod capability;
pub mod integrity;
pub mod launcher;
