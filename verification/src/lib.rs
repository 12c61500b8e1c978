//! The scheduling and process-control core of a small single-core kernel.
//!
//! * [`task`]: the stride discipline, a proportional-share order over the
//!   ready tasks that survives the wrap of its fixed-width counter.
//! * [`mm`]: writing a record into a user buffer that the kernel sees as a
//!   sequence of separate byte ranges.
//! * [`syscall`]: what each process-control call decides, as data: the
//!   arguments it rejects, what it asks of the rest of the kernel, and how
//!   the outcome is answered to the caller.
pub mod task;
pub mod mm;
pub mod syscall;
