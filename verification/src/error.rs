//! The failures a call can end in.

use vstd::prelude::*;
use cosmwasm_std::StdError;

verus! {

/// `cosmwasm_std::StdError`, carried through unopened.
#[verifier::external_type_specification]
#[verifier::external_body]
pub struct ExStdError(StdError);

#[derive(Debug)]
pub enum ContractError {
    /// A failure reported by the store itself.
    Std(StdError),
    Unauthorized {},
    MentorNotFound {},
    UserNotFound {},
    CommentNotFound {},
    InvalidRating {},
    InvalidVote {},
    MentorAlreadyExists {},
}

impl From<StdError> for ContractError {
    fn from(error: StdError) -> (r: ContractError) {
        ContractError::Std(error)
    }
}

impl vstd::std_specs::convert::FromSpecImpl<StdError> for ContractError {
    open spec fn obeys_from_spec() -> bool {
        true
    }

    open spec fn from_spec(error: StdError) -> ContractError {
        ContractError::Std(error)
    }
}

} // verus!
