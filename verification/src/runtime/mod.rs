pub mod syscall_registry;
pub mod syscall_handler;
pub mod trace_emitter;
