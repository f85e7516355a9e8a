//! Positional merge of two asynchronous sources that tolerates a length mismatch.
//!
//! [`ZipLongest`] holds the decisions of each merge cycle and the one item that
//! may wait for its partner; a driver polls the sources it asks for and hands
//! over what they gave. [`laws`] states what a whole run yields.
pub mod either_or_both;
pub mod either_or_none;
pub mod laws;
pub mod zip_longest;

pub use either_or_both::EitherOrBoth;
pub use either_or_none::{EitherOrNone, Entry, LeftEntry, NoneEntry, RightEntry};
pub use zip_longest::{Polled, ZipLongest};
