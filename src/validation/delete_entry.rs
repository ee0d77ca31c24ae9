use vstd::prelude::*;
use crate::validation::{EntryTypesUnit, ValidateCallbackResult};

verus! {

/// Decides a deletion of an entry whose creating action made an entry of
/// kind `created`: trees are never deleted.
pub fn validation(created: EntryTypesUnit) -> (r: ValidateCallbackResult)
    ensures
        r is Invalid && r->Invalid_0@ == "Trees cannot be deleted"@,
{
    match created {
        EntryTypesUnit::Tree => ValidateCallbackResult::Invalid("Trees cannot be deleted".to_owned()),
    }
}

} // verus!
