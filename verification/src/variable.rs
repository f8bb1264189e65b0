//! Variables of the build language.

use vstd::prelude::*;
use crate::list::List;

verus! {

/// A variable: its value and the targets it is bound to.
#[derive(Debug, PartialEq)]
pub struct Variable {
    data: List,
    bindings: List,
}

} // verus!
