//! Rules that a store of tree records applies: a tree is created once and
//! never updated or deleted, and a link to one is made and removed only by
//! the agent it starts from.
use vstd::prelude::*;
use vstd::string::*;
use crate::commit::TreeEntry;

pub mod create_entry;
pub mod create_link;
pub mod delete_entry;
pub mod delete_link;
pub mod update_entry;

verus! {

/// The outcome of a validation rule.
#[derive(Debug)]
pub enum ValidateCallbackResult {
    Valid,
    /// Refused, with the reason.
    Invalid(String),
}

/// The entries that this library stores.
#[derive(Debug)]
pub enum EntryTypes {
    Tree(TreeEntry),
}

/// The kinds of entries that this library stores.
#[derive(Clone, Copy, Debug, PartialEq, Eq, Structural)]
pub enum EntryTypesUnit {
    Tree,
}

/// The kinds of links that this library stores.
#[derive(Clone, Copy, Debug, PartialEq, Eq, Structural)]
pub enum LinkTypes {
    Tree,
}

impl LinkTypes {
    /// The link type with the given name; an unknown name is an error that names it.
    pub fn try_from(name: String) -> (r: Result<LinkTypes, String>)
        ensures
            name@ == "Tree"@ ==> r == Ok::<LinkTypes, String>(LinkTypes::Tree),
            name@ != "Tree"@ ==> r is Err && r->Err_0@ == "Unknown LinkTypes variant: "@ + name@,
    {
        let tree = "Tree".to_owned();
        if name == tree {
            Ok(LinkTypes::Tree)
        } else {
            let mut msg = String::from_str("Unknown LinkTypes variant: ");
            msg.append(name.as_str());
            Err(msg)
        }
    }
}

/// Whether two byte strings are equal.
pub fn bytes_eq(a: &Vec<u8>, b: &Vec<u8>) -> (r: bool)
    ensures
        r == (a@ == b@),
{
    if a.len() != b.len() {
        return false;
    }
    let mut i: usize = 0;
    while i < a.len()
        invariant
            a@.len() == b@.len(),
            i <= a@.len(),
            a@.subrange(0, i as int) == b@.subrange(0, i as int),
        decreases a@.len() - i,
    {
        if a[i] != b[i] {
            assert(a@[i as int] != b@[i as int]);
            return false;
        }
        assert(a@.subrange(0, i + 1) =~= a@.subrange(0, i as int).push(a@[i as int]));
        assert(b@.subrange(0, i + 1) =~= b@.subrange(0, i as int).push(b@[i as int]));
        i = i + 1;
    }
    assert(a@ =~= a@.subrange(0, a@.len() as int));
    assert(b@ =~= b@.subrange(0, b@.len() as int));
    true
}

} // verus!
