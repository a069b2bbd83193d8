//! The reply to a successful call: `cosmwasm_std::Response`, of which the
//! contract fills the attributes only.
//!
//! Nothing in this file is proved; the contracts record what the source of
//! `cosmwasm_std` shows of the two calls.

use vstd::prelude::*;
use cosmwasm_std::Empty;
use cosmwasm_std::Response;

verus! {

/// `cosmwasm_std::Empty`, the message type of a reply without custom messages.
#[verifier::external_type_specification]
#[verifier::external_body]
pub struct ExEmpty(Empty);

/// `cosmwasm_std::Response`, carried through unopened.
#[verifier::external_type_specification]
#[verifier::external_body]
#[verifier::reject_recursive_types(T)]
pub struct ExResponse<T>(Response<T>);

/// The attributes of a reply, as (key, value) pairs in the order in which
/// they were added.
pub uninterp spec fn attributes(response: Response<Empty>) -> Seq<(Seq<char>, Seq<char>)>;

/// The reply carries nothing but attributes: no messages, no events and no
/// data.
pub uninterp spec fn only_attributes(response: Response<Empty>) -> bool;

/// `Response::new`: a reply without attributes, messages, events or data.
#[verifier::external_body]
pub(crate) fn response_new() -> (r: Response<Empty>)
    ensures
        attributes(r) == Seq::<(Seq<char>, Seq<char>)>::empty(),
        only_attributes(r),
{
    Response::new()
}

/// A key that an attribute may have: one that does not start with an
/// underscore, which is reserved.
pub open spec fn is_attribute_key(key: Seq<char>) -> bool {
    key.len() > 0 ==> key[0] != '_'
}

/// `Response::add_attribute`: the same reply with one more attribute at the
/// end, and nothing else changed. In a build with debug assertions it
/// panics on a key that starts with an underscore.
#[verifier::external_body]
pub(crate) fn add_attribute(response: Response<Empty>, key: &str, value: &str) -> (r: Response<Empty>)
    requires
        is_attribute_key(key@),
    ensures
        attributes(r) == attributes(response).push((key@, value@)),
        only_attributes(r) == only_attributes(response),
{
    response.add_attribute(key, value)
}

} // verus!
