//! The two ways of looking at a document.
use vstd::prelude::*;

verus! {

/// How the viewer shows a document.
#[derive(Debug, Copy, Clone, PartialEq, Eq, Structural)]
pub enum Mode {
    /// As pretty-printed JSON, with quotes, commas and closing braces.
    Line,
    /// As data, with a preview beside each container.
    Data,
}

} // verus!
