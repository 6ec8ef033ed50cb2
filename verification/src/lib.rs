//! A recursive pretty-printer for decoded query-result values.
//!
//! The crate defines a closed [`value::Value`] model for result trees, a
//! backend-agnostic [`formatter::Formatter`] interface, the scalar
//! canonicalization algorithms (string/byte escaping, arbitrary-precision
//! literal compression), and the recursive rendering engine
//! [`render::FormatExt`], whose output is specified exactly as a sequence
//! of abstract emission events.  [`recorder::Recorder`] is the reference
//! backend, [`laws`] states and proves the engine's laws, and [`install`]
//! holds the pure planning half of the self-installation and
//! shell-completion commands.

pub mod emit;
pub mod escape;
pub mod formatter;
pub mod install;
pub mod laws;
pub mod numbers;
pub mod recorder;
pub mod render;
pub mod value;

pub use value::Value;
