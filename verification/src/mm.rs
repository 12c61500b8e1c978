//! What the process-control calls know of a task's address space: pages,
//! permissions, and user buffers seen from the kernel.
pub mod page;
pub mod word;
pub mod user_buffer;
