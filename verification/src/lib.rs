//! The host side of a bridge to the LLD linker.
//!
//! The linker itself is native code behind a single entry point. This crate
//! holds what the host has to get right around that call: the selector that
//! names an output format, the conversion of command-line arguments into
//! NUL-terminated byte strings, and the reading of the success flag and
//! diagnostic text that come back. It also holds the rules by which the
//! output of the toolchain's configuration utility is read at build time.

pub mod arguments;
pub mod discovery;
pub mod flavor;
pub mod outcome;

pub use arguments::LldError;
pub use flavor::LldFlavor;
pub use outcome::LldResult;
