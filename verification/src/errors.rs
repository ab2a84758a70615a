use vstd::prelude::*;

verus! {

/// A request input rejected before any mutation takes place: the state is
/// left unchanged whenever one of these is returned.
#[derive(Clone, Copy, Debug, PartialEq, Eq, Structural)]
pub enum ValidationError {
    /// A description was required to be non-empty but was empty.
    EmptyDescription,
    /// A filter wire string was none of the three encoded filter values.
    InvalidFilterValue,
}

} // verus!
