use vstd::prelude::*;

verus! {

/// A message id that nobody has used: `uuid::Uuid::new_v4`, a random
/// version 4 UUID, in the hyphenated lower-case form that
/// `Uuid::to_hyphenated` prints. The contract claims the one thing that
/// holds of every such id: that form is 36 characters long.
#[verifier::external_body]
pub(crate) fn fresh_msg_id() -> (r: String)
    ensures
        r@.len() == 36,
{
    uuid::Uuid::new_v4().to_hyphenated().to_string()
}

} // verus!
