//! The logic of a small kernel for one x86-64 core, apart from the hardware
//! it runs on: the plan of the interrupt vector table, the bridge that hands
//! scancodes from the keyboard interrupt to a cooperative task, the tick
//! counter and the sleep built on it, the round-robin executor, the text
//! console, the shells, the file table and the frame allocator.
//!
//! What the kernel keeps in globals is passed in here as arguments; the
//! kernel's own code owns those globals, reads the ports and loads the
//! tables.

pub mod fs;
pub mod gdt;
pub mod interrupts;
pub mod memory;
pub mod paging;
pub mod task;
pub mod text;
pub mod ticks;
pub mod vga_buffer;
