//! The operating systems whose conventions the front end follows.
use vstd::prelude::*;

verus! {

/// The operating system the front end runs on.
#[derive(Debug, Clone, Copy, PartialEq, Eq, Structural)]
pub enum TargetOs {
    MacOs,
    Windows,
    Linux,
}

} // verus!
