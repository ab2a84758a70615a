use vstd::prelude::*;
use vstd::string::StringExecFns;

use crate::errors::ValidationError;
use crate::text::str_eq;

verus! {

/// The tri-state view selector: which tasks the list region shows.
/// A pure value; a fresh session starts on `All`.
#[derive(Clone, Copy, Debug, PartialEq, Eq, Structural)]
pub enum Filter {
    All,
    Active,
    Completed,
}

/// The wire encoding of a filter: exactly one of "All", "Active", "Completed".
pub open spec fn encode_spec(f: Filter) -> Seq<char> {
    match f {
        Filter::All => "All"@,
        Filter::Active => "Active"@,
        Filter::Completed => "Completed"@,
    }
}

impl Default for Filter {
    fn default() -> (f: Self)
        ensures
            f == Filter::All,
    {
        Filter::All
    }
}

impl Filter {
    /// Encode the filter as its wire string.
    pub fn encode(&self) -> (r: String)
        ensures
            r@ == encode_spec(*self),
    {
        match self {
            Filter::All => String::from_str("All"),
            Filter::Active => String::from_str("Active"),
            Filter::Completed => String::from_str("Completed"),
        }
    }

    /// Decode a wire string. Returns the unique filter the string encodes;
    /// any other string is a protocol violation, rejected with
    /// `InvalidFilterValue`. Intended for the request-parsing boundary.
    pub fn decode(s: &str) -> (r: Result<Filter, ValidationError>)
        ensures
            match r {
                Ok(f) => s@ == encode_spec(f),
                Err(e) => e == ValidationError::InvalidFilterValue
                    && forall|f: Filter| s@ != encode_spec(f),
            },
    {
        if str_eq(s, "All") {
            Ok(Filter::All)
        } else if str_eq(s, "Active") {
            Ok(Filter::Active)
        } else if str_eq(s, "Completed") {
            Ok(Filter::Completed)
        } else {
            Err(ValidationError::InvalidFilterValue)
        }
    }
}

} // verus!
