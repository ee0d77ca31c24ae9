use vstd::prelude::*;
use crate::validation::{EntryTypes, ValidateCallbackResult};

verus! {

/// Decides the creation of an entry: a tree may always be created.
pub fn validation(app_entry: &EntryTypes) -> (r: ValidateCallbackResult)
    ensures
        r is Valid,
{
    match app_entry {
        EntryTypes::Tree(_) => ValidateCallbackResult::Valid,
    }
}

} // verus!
