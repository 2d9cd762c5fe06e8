//! How loudly something is logged.

use vstd::prelude::*;

verus! {

/// How loudly something is logged.
#[derive(Debug, Clone, Copy, PartialEq, Eq, Structural)]
pub enum Level {
    Debug,
    Info,
    Warn,
    Error,
}

} // verus!
