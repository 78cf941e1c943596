//! Loader and debug control for MS-DOS MZ executables that run inside an
//! instruction-level CPU emulator.
//!
//! The crate decodes the on-disk header, relocates the image for a chosen load
//! segment, builds the program segment prefix, parses the debugger's command
//! language and decides, step by step, what a driver has to do with the
//! emulator: the driver owns the emulator and performs the requests that the
//! functions here hand back.

pub mod cli;
pub mod program;
pub mod psp;
pub mod script;
pub mod debugger;
pub mod engine;
