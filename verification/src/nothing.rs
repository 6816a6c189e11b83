//! A value that carries no information.
use vstd::prelude::*;

verus! {

/// Just an empty type: a concrete value to return where there is nothing to
/// return.
#[derive(Debug, Clone, Copy, PartialEq, Eq, Structural)]
pub struct Nothing;

} // verus!
