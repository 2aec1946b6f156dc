//! Configuration validation. The process supplies a fixed list of named
//! string settings at startup; a missing value is a startup-fatal error,
//! found before any component is constructed.

use vstd::prelude::*;

verus! {

/// A startup-fatal configuration fault.
#[derive(Clone, Copy, Debug, PartialEq, Eq, Structural)]
pub enum ConfigError {
    /// The required setting with this index in the caller's list is absent.
    MissingValue(usize),
    /// The configured trigger pattern does not compile.
    InvalidTriggerPattern,
}

/// Checks that every required setting was supplied. The caller passes the
/// looked-up values in its fixed order; `Ok` exactly when none is missing,
/// otherwise the index of the first missing one.
pub fn verify(values: &Vec<Option<String>>) -> (r: Result<(), ConfigError>)
    ensures
        r is Ok <==> (forall|i: int| 0 <= i < values@.len() ==> values@[i] is Some),
        r matches Err(e) ==> (e matches ConfigError::MissingValue(i) && i < values@.len()
            && values@[i as int] is None && (forall|j: int| 0 <= j < i ==> values@[j] is Some)),
{
    let mut i: usize = 0;
    while i < values.len()
        invariant
            i <= values@.len(),
            forall|j: int| 0 <= j < i ==> values@[j] is Some,
        decreases values@.len() - i,
    {
        if values[i].is_none() {
            return Err(ConfigError::MissingValue(i));
        }
        i = i + 1;
    }
    Ok(())
}

} // verus!
