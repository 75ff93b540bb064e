//! Driver for the RM690B0 display controller.
//!
//! The driver keeps one frame in memory, lets a drawing surface write pixels
//! into it, and sends it to the controller as command, address and data
//! transactions. The link to the controller, the reset control and the delay
//! source are supplied by the integrator through the traits in [`interface`];
//! [`displays`] binds them to particular boards.
//!
//! The driver and the board bindings each keep a journal of what they ask of
//! their collaborators and of how each request ended. The journals exist in
//! proofs only. The contracts say exactly what each operation adds to them,
//! and in which order.

pub mod commands;
pub mod displays;
pub mod driver;
pub mod error;
pub mod framebuffer;
pub mod geometry;
pub mod init;
pub mod interface;

pub use displays::lilygo_t4_s3::{
    DataMode, HalfDuplexBus, Lgt4s3Driver, OutputLine, ResetDriver, DMA_CHUNK_SIZE,
};
pub use driver::Rm690b0Driver;
pub use error::DriverError;
pub use framebuffer::{Framebuffer, Pixel, Rgb};
pub use geometry::{framebuffer_size, ColorMode, DisplaySize};
pub use interface::{Action, ControllerInterface, DelayMs, Entry, ResetInterface};
