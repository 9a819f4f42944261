//! Modes of writing a file.
use vstd::prelude::*;

verus! {

/// Mode of the writer.
#[derive(Clone, Copy, Debug, PartialEq, Eq, Structural)]
pub enum Mode {
    /// Will create new data.
    Overwrite,
    /// Will append content to the existing data.
    Append,
}

} // verus!
