use vstd::prelude::*;
use crate::validation::{LinkTypes, ValidateCallbackResult, bytes_eq};

verus! {

/// The action that created a link which is being deleted.
#[derive(Debug)]
pub enum LinkSource {
    /// A link creation by `author`, of the given type when the type is known.
    CreateLink { author: Vec<u8>, link_type: Option<LinkTypes> },
    /// Any other action.
    Other,
}

/// Decides a deletion of a link, made by `delete_author`: only the author
/// who created a tree link may delete it.
pub fn validation(source: &LinkSource, delete_author: &Vec<u8>) -> (r: ValidateCallbackResult)
    ensures
        match *source {
            LinkSource::Other => r is Invalid && r->Invalid_0@
                == "Original action hash does not belong to create link action"@,
            LinkSource::CreateLink { author, link_type: None } => r is Invalid && r->Invalid_0@
                == "No match for LinkTypes"@,
            LinkSource::CreateLink { author, link_type: Some(_) } => if author@ == delete_author@ {
                r is Valid
            } else {
                r is Invalid && r->Invalid_0@
                    == "A group link can only be deleted by the author who created it"@
            },
        },
{
    match source {
        LinkSource::Other => ValidateCallbackResult::Invalid(
            "Original action hash does not belong to create link action".to_owned(),
        ),
        LinkSource::CreateLink { author, link_type } => match link_type {
            None => ValidateCallbackResult::Invalid("No match for LinkTypes".to_owned()),
            Some(LinkTypes::Tree) => {
                if bytes_eq(author, delete_author) {
                    ValidateCallbackResult::Valid
                } else {
                    ValidateCallbackResult::Invalid(
                        "A group link can only be deleted by the author who created it".to_owned(),
                    )
                }
            },
        },
    }
}

} // verus!
