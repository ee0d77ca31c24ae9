use vstd::prelude::*;
use crate::validation::{EntryTypes, ValidateCallbackResult};

verus! {

/// Decides an update of an entry: a tree is never updated; a changed tree is
/// a new tree.
pub fn validation(app_entry: &EntryTypes) -> (r: ValidateCallbackResult)
    ensures
        r is Invalid && r->Invalid_0@ == "Merkle Trees cannot be updated; use Create instead"@,
{
    match app_entry {
        EntryTypes::Tree(_) => ValidateCallbackResult::Invalid(
            "Merkle Trees cannot be updated; use Create instead".to_owned(),
        ),
    }
}

} // verus!
