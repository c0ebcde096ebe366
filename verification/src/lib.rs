//! A driver for a memory-mapped UART of the 16550 family.
//!
//! The crate is layered the way the hardware is reached:
//!
//! * [`uart::registers`] names the eight byte-wide registers of the block and
//!   the interface through which each single access is made;
//! * [`uart::internal`] turns those accesses into the named operations of the
//!   device (word length, FIFO, divisor latch, data registers);
//! * [`uart`] holds the driver proper, which runs the bring-up sequence and
//!   offers byte transmit and non-blocking receive;
//! * [`console`] says what a console on the line echoes for each byte.
//!
//! Every access to the device is recorded in a ghost history, and each
//! function says exactly what it appends to that history.
pub mod console;
pub mod uart;
