//! A record for an alias to stand for.
use vstd::prelude::*;

verus! {

/// A record with one text field: an existing name of the kind that an alias is
/// defined for, and that an invocation with a braced body initialises.
#[allow(non_camel_case_types)]
#[derive(Debug)]
pub struct something {
    /// The text that the record holds.
    pub str: String,
}

} // verus!
