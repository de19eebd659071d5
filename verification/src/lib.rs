//! The scheduling, capability and IPC-message logic of a small seL4-style microkernel, with
//! contracts proved by Verus.
#![allow(non_camel_case_types, non_snake_case, non_upper_case_globals)]
pub mod config;
pub mod arch_aarch64;
pub mod arch_riscv64;
pub mod sched_context;
pub mod structures;
pub mod utils;
pub mod cap;
pub mod fault;
pub mod tcb;
pub mod tcb_queue;
pub mod bitmap;
pub mod scheduler;
pub mod message_info;
pub mod notification;
pub mod syscall_utils;
pub mod invocation;
pub mod fastpath;
pub mod reply;
pub mod transfer;
pub mod boot;
pub mod syscall;
pub mod finalise;
