//! Driver core for an SST39SF040 parallel NOR flash chip wired to two GPIO
//! ports, and the serial command dispatcher that operates it.
//!
//! Nothing here touches hardware. The platform reads and writes the
//! registers, waits on the timer and moves words through the UART; this
//! crate decides what is written, in which order and for how long, and what
//! is answered.
//!
//! - `io`: the registers, the bus primitives and the three chip operations.
//! - `chip`: what a chip on the pins observes of a run of steps, and the
//!   laws of the chip operations.
//! - `serial`: the link's transmit queue and receive buffer.
//! - `protocol`: tokens, the decimal payload and the hexadecimal reply.
//! - `dispatcher`: from each report of the platform to its next actions.

pub mod chip;
pub mod dispatcher;
pub mod io;
pub mod protocol;
pub mod serial;
