use vstd::prelude::*;
use crate::validation::{LinkTypes, ValidateCallbackResult, bytes_eq};

verus! {

/// Decides the creation of a link of type `link_type` by `author`. The link
/// starts from `base_agent` when its base is an agent's public key (`None`
/// otherwise), and `target_is_tree` says whether it points at a tree entry.
/// A tree link must start from its author's own key; a target that is not a
/// tree is an error rather than a verdict, as the base is judged first.
pub fn validation(
    base_agent: &Option<Vec<u8>>,
    target_is_tree: bool,
    link_type: LinkTypes,
    author: &Vec<u8>,
) -> (r: Result<ValidateCallbackResult, String>)
    ensures
        match *base_agent {
            None => r is Ok && r->Ok_0 is Invalid && r->Ok_0->Invalid_0@
                == "Tree link base address must be an agent pubkey"@,
            Some(agent) => if agent@ != author@ {
                r is Ok && r->Ok_0 is Invalid && r->Ok_0->Invalid_0@
                    == "Creating a link based on an agent pubkey can only be made by the matching agent"@
            } else if !target_is_tree {
                r is Err && r->Err_0@ == "Tree link target must be a tree entry"@
            } else {
                r is Ok && r->Ok_0 is Valid
            },
        },
{
    match link_type {
        LinkTypes::Tree => {
            let agent = match base_agent {
                Some(agent) => agent,
                None => {
                    return Ok(
                        ValidateCallbackResult::Invalid("Tree link base address must be an agent pubkey".to_owned()),
                    );
                },
            };
            if !bytes_eq(agent, author) {
                return Ok(
                    ValidateCallbackResult::Invalid(
                        "Creating a link based on an agent pubkey can only be made by the matching agent".to_owned(),
                    ),
                );
            }
            if !target_is_tree {
                return Err("Tree link target must be a tree entry".to_owned());
            }
            Ok(ValidateCallbackResult::Valid)
        },
    }
}

} // verus!
