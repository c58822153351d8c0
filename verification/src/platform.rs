//! The operating systems that the recorder tells apart.
use vstd::prelude::*;

verus! {

/// The operating system that the recorder runs on.
#[derive(Debug, Clone, Copy, PartialEq, Eq, Structural)]
pub enum Platform {
    Linux,
    MacOs,
    Windows,
    Other,
}

} // verus!
