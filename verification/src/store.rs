//! The keyed store: `cosmwasm_std::MemoryStorage`, read and written through
//! the typed collections of `cw_storage_plus`.
//!
//! Nothing in this file is proved. Each function below makes one call into
//! those crates, and its contract records what their source shows of that
//! call. A record is stored as a tuple of its fields, in the order in which
//! the entity declares them.
//!
//! The contracts speak of a store that is `well_formed`: one on which
//! nothing that is read fails to decode. On such a store a load fails only
//! where nothing is stored, and a walk yields no error.

use vstd::prelude::*;
use cosmwasm_std::MemoryStorage;
use cosmwasm_std::StdError;
use crate::model::Ledger;
use crate::order::{is_first_past, none_past};
use crate::state::{Comment, CommentView, Mentor, MentorView, State, StateView, User, UserView};
use crate::tally::fits_vote_key;

verus! {

/// `cosmwasm_std::MemoryStorage`: an ordered map from byte keys to byte values.
#[verifier::external_type_specification]
#[verifier::external_body]
pub struct ExMemoryStorage(MemoryStorage);

type StateRow = (String, u64);

type MentorRow = (String, String, String, Option<String>, u64, String, Vec<String>, u64, String, Vec<String>);

type UserRow = (String, Option<String>, Vec<String>);

type CommentRow = (String, u64, String, String, u8, String, i32);

/// Every value held under one of the contract's keys decodes as the record
/// its collection stores, and every key of a collection is valid UTF-8. It
/// holds of a new store and of whatever the functions of this file make of
/// such a store.
pub uninterp spec fn well_formed(store: MemoryStorage) -> bool;

/// The contract name and version held under `contract_info`.
pub uninterp spec fn version_cell(store: MemoryStorage) -> Option<(Seq<char>, Seq<char>)>;

/// The owner record held under `state`.
pub uninterp spec fn state_cell(store: MemoryStorage) -> Option<StateView>;

/// The records of the collection `mentors`, by identity.
pub uninterp spec fn mentor_table(store: MemoryStorage) -> Map<Seq<char>, MentorView>;

/// The records of the collection `users`, by identity.
pub uninterp spec fn user_table(store: MemoryStorage) -> Map<Seq<char>, UserView>;

/// The records of the collection `comments`, by comment identifier.
pub uninterp spec fn comment_table(store: MemoryStorage) -> Map<Seq<char>, CommentView>;

/// The values of the collection `user_comment_votes`, by voter and comment
/// identifier.
pub uninterp spec fn vote_table(store: MemoryStorage) -> Map<(Seq<char>, Seq<char>), int>;

/// Everything the contract keeps in the store.
pub open spec fn ledger(store: MemoryStorage) -> Ledger {
    Ledger {
        version: version_cell(store),
        state: state_cell(store),
        mentors: mentor_table(store),
        users: user_table(store),
        comments: comment_table(store),
        votes: vote_table(store),
    }
}

/// The characters of an optional key.
pub open spec fn opt_key(key: Option<&str>) -> Option<Seq<char>> {
    match key {
        Some(k) => Some(k@),
        None => None,
    }
}

/// `MemoryStorage::new`: a store that holds nothing.
pub assume_specification[ MemoryStorage::new ]() -> (store: MemoryStorage)
    ensures
        well_formed(store),
        ledger(store) == Ledger::empty(),
;

/// `cw2::set_contract_version`: writes the name and version under
/// `contract_info`, a key of no collection, and cannot fail on two strings.
#[verifier::external_body]
pub(crate) fn set_contract_version(store: &mut MemoryStorage, name: &str, version: &str) -> (r: Result<(), StdError>)
    requires
        well_formed(*old(store)),
    ensures
        r is Ok,
        well_formed(*final(store)),
        version_cell(*final(store)) == Some((name@, version@)),
        ledger(*final(store)) == ledger(*old(store)).put_version(name@, version@),
{
    cw2::set_contract_version(store, name, version)
}

/// `Item::load` on `state`: the record, or the store's "not found" where
/// none is stored.
#[verifier::external_body]
pub(crate) fn state_load(store: &MemoryStorage) -> (r: Result<State, StdError>)
    requires
        well_formed(*store),
    ensures
        match r {
            Ok(state) => state_cell(*store) == Some(state@),
            Err(_) => state_cell(*store) is None,
        },
{
    cw_storage_plus::Item::<StateRow>::new("state").load(store).map(
        |t| State { owner: t.0, comment_counter: t.1 },
    )
}

/// `Item::save` on `state`: replaces the record; serialising strings and
/// integers into a growing buffer has no failing path.
#[verifier::external_body]
pub(crate) fn state_save(store: &mut MemoryStorage, state: State) -> (r: Result<(), StdError>)
    requires
        well_formed(*old(store)),
    ensures
        r is Ok,
        well_formed(*final(store)),
        ledger(*final(store)) == ledger(*old(store)).put_state(state@),
{
    cw_storage_plus::Item::<StateRow>::new("state").save(store, &(state.owner, state.comment_counter))
}

/// `Map::has` on `mentors`: whether anything is stored under the key.
#[verifier::external_body]
pub(crate) fn mentors_has(store: &MemoryStorage, id: &str) -> (r: bool)
    requires
        well_formed(*store),
    ensures
        r == mentor_table(*store).contains_key(id@),
{
    cw_storage_plus::Map::<&str, MentorRow>::new("mentors").has(store, id)
}

/// `Map::load` on `mentors`: the record under the key, or an error where
/// none is stored.
#[verifier::external_body]
pub(crate) fn mentors_load(store: &MemoryStorage, id: &str) -> (r: Result<Mentor, StdError>)
    requires
        well_formed(*store),
    ensures
        match r {
            Ok(mentor) => mentor_table(*store).contains_key(id@) && mentor_table(*store)[id@] == mentor@,
            Err(_) => !mentor_table(*store).contains_key(id@),
        },
{
    cw_storage_plus::Map::<&str, MentorRow>::new("mentors").load(store, id).map(
        |t| Mentor { name: t.0, institution: t.1, department: t.2, avatar: t.3, created_at: t.4, created_by: t.5, links: t.6, updated_at: t.7, updated_by: t.8, comments: t.9 },
    )
}

/// `Map::save` on `mentors`: sets the record under the key and touches no
/// other key; it cannot fail on these field types.
#[verifier::external_body]
pub(crate) fn mentors_save(store: &mut MemoryStorage, id: &str, mentor: Mentor) -> (r: Result<(), StdError>)
    requires
        well_formed(*old(store)),
    ensures
        r is Ok,
        well_formed(*final(store)),
        ledger(*final(store)) == ledger(*old(store)).put_mentor(id@, mentor@),
{
    let m = mentor;
    let row = (m.name, m.institution, m.department, m.avatar, m.created_at, m.created_by, m.links, m.updated_at, m.updated_by, m.comments);
    cw_storage_plus::Map::<&str, MentorRow>::new("mentors").save(store, id, &row)
}

/// `Map::range` on `mentors`, ascending from an exclusive lower bound, and
/// the first item it yields: the record with the least key beyond the bound,
/// or nothing where no key lies beyond it. Keys are walked in the order of
/// their bytes. An item is an error only where its key or value does not
/// decode, which a well-formed store does not give.
#[verifier::external_body]
pub(crate) fn mentors_first_after(store: &MemoryStorage, after: Option<&str>) -> (r: Option<Result<(String, Mentor), StdError>>)
    requires
        well_formed(*store),
    ensures
        match r {
            Some(Ok(item)) => is_first_past(mentor_table(*store).dom(), opt_key(after), item.0@)
                && mentor_table(*store)[item.0@] == item.1@,
            Some(Err(_)) => false,
            None => none_past(mentor_table(*store).dom(), opt_key(after)),
        },
{
    let min = after.map(cw_storage_plus::Bound::exclusive);
    cw_storage_plus::Map::<&str, MentorRow>::new("mentors")
        .range(store, min, None, cosmwasm_std::Order::Ascending)
        .next()
        .map(|item| item.map(|(k, t)| (k, Mentor { name: t.0, institution: t.1, department: t.2, avatar: t.3, created_at: t.4, created_by: t.5, links: t.6, updated_at: t.7, updated_by: t.8, comments: t.9 })))
}

/// `Map::may_load` on `users`: the record under the key, if any. Its only
/// error is that of decoding, which a well-formed store does not give.
#[verifier::external_body]
pub(crate) fn users_may_load(store: &MemoryStorage, id: &str) -> (r: Result<Option<User>, StdError>)
    requires
        well_formed(*store),
    ensures
        match r {
            Ok(Some(user)) => user_table(*store).contains_key(id@) && user_table(*store)[id@] == user@,
            Ok(None) => !user_table(*store).contains_key(id@),
            Err(_) => false,
        },
{
    cw_storage_plus::Map::<&str, UserRow>::new("users").may_load(store, id).map(
        |found| found.map(|t| User { id: t.0, institution: t.1, posted_comments: t.2 }),
    )
}

/// `Map::load` on `users`: the record under the key, or an error where none
/// is stored.
#[verifier::external_body]
pub(crate) fn users_load(store: &MemoryStorage, id: &str) -> (r: Result<User, StdError>)
    requires
        well_formed(*store),
    ensures
        match r {
            Ok(user) => user_table(*store).contains_key(id@) && user_table(*store)[id@] == user@,
            Err(_) => !user_table(*store).contains_key(id@),
        },
{
    cw_storage_plus::Map::<&str, UserRow>::new("users").load(store, id).map(
        |t| User { id: t.0, institution: t.1, posted_comments: t.2 },
    )
}

/// `Map::save` on `users`: sets the record under the key and touches no
/// other key; it cannot fail on these field types.
#[verifier::external_body]
pub(crate) fn users_save(store: &mut MemoryStorage, id: &str, user: User) -> (r: Result<(), StdError>)
    requires
        well_formed(*old(store)),
    ensures
        r is Ok,
        well_formed(*final(store)),
        ledger(*final(store)) == ledger(*old(store)).put_user(id@, user@),
{
    let row = (user.id, user.institution, user.posted_comments);
    cw_storage_plus::Map::<&str, UserRow>::new("users").save(store, id, &row)
}

/// `Map::load` on `comments`: the record under the key, or an error where
/// none is stored.
#[verifier::external_body]
pub(crate) fn comments_load(store: &MemoryStorage, id: &str) -> (r: Result<Comment, StdError>)
    requires
        well_formed(*store),
    ensures
        match r {
            Ok(comment) => comment_table(*store).contains_key(id@) && comment_table(*store)[id@] == comment@,
            Err(_) => !comment_table(*store).contains_key(id@),
        },
{
    cw_storage_plus::Map::<&str, CommentRow>::new("comments").load(store, id).map(
        |t| Comment { id: t.0, created_at: t.1, created_by: t.2, mentor_id: t.3, rating: t.4, comment: t.5, likes: t.6 },
    )
}

/// `Map::save` on `comments`: sets the record under the key and touches no
/// other key; it cannot fail on these field types.
#[verifier::external_body]
pub(crate) fn comments_save(store: &mut MemoryStorage, id: &str, comment: Comment) -> (r: Result<(), StdError>)
    requires
        well_formed(*old(store)),
    ensures
        r is Ok,
        well_formed(*final(store)),
        ledger(*final(store)) == ledger(*old(store)).put_comment(id@, comment@),
{
    let c = comment;
    let row = (c.id, c.created_at, c.created_by, c.mentor_id, c.rating, c.comment, c.likes);
    cw_storage_plus::Map::<&str, CommentRow>::new("comments").save(store, id, &row)
}

/// `Map::range` on `comments`, ascending from an exclusive lower bound, and
/// the first item it yields: the record with the least key beyond the bound,
/// or nothing where no key lies beyond it. Keys are walked in the order of
/// their bytes. An item is an error only where its key or value does not
/// decode, which a well-formed store does not give.
#[verifier::external_body]
pub(crate) fn comments_first_after(store: &MemoryStorage, after: Option<&str>) -> (r: Option<Result<(String, Comment), StdError>>)
    requires
        well_formed(*store),
    ensures
        match r {
            Some(Ok(item)) => is_first_past(comment_table(*store).dom(), opt_key(after), item.0@)
                && comment_table(*store)[item.0@] == item.1@,
            Some(Err(_)) => false,
            None => none_past(comment_table(*store).dom(), opt_key(after)),
        },
{
    let min = after.map(cw_storage_plus::Bound::exclusive);
    cw_storage_plus::Map::<&str, CommentRow>::new("comments")
        .range(store, min, None, cosmwasm_std::Order::Ascending)
        .next()
        .map(|item| item.map(|(k, t)| (k, Comment { id: t.0, created_at: t.1, created_by: t.2, mentor_id: t.3, rating: t.4, comment: t.5, likes: t.6 })))
}

/// `Map::may_load` on `user_comment_votes`: the value under the pair, if
/// any. Its only error is that of decoding, which a well-formed store does
/// not give. Building the key panics on a voter of more than 65535 bytes.
#[verifier::external_body]
pub(crate) fn votes_may_load(store: &MemoryStorage, voter: &str, comment_id: &str) -> (r: Result<Option<i8>, StdError>)
    requires
        fits_vote_key(voter@),
        well_formed(*store),
    ensures
        match r {
            Ok(Some(vote)) => vote_table(*store).contains_key((voter@, comment_id@))
                && vote_table(*store)[(voter@, comment_id@)] == vote,
            Ok(None) => !vote_table(*store).contains_key((voter@, comment_id@)),
            Err(_) => false,
        },
{
    cw_storage_plus::Map::<(&str, &str), i8>::new("user_comment_votes").may_load(store, (voter, comment_id))
}

/// `Map::save` on `user_comment_votes`: sets the value under the pair and
/// touches no other key; it cannot fail on an integer. Building the key
/// panics on a voter of more than 65535 bytes.
#[verifier::external_body]
pub(crate) fn votes_save(store: &mut MemoryStorage, voter: &str, comment_id: &str, vote: i8) -> (r: Result<(), StdError>)
    requires
        fits_vote_key(voter@),
        well_formed(*old(store)),
    ensures
        r is Ok,
        well_formed(*final(store)),
        ledger(*final(store)) == ledger(*old(store)).put_vote(voter@, comment_id@, vote as int),
{
    cw_storage_plus::Map::<(&str, &str), i8>::new("user_comment_votes").save(store, (voter, comment_id), &vote)
}

/// `Map::remove` on `user_comment_votes`: removes the pair's value, if any,
/// and touches no other key. Building the key panics on a voter of more
/// than 65535 bytes.
#[verifier::external_body]
pub(crate) fn votes_remove(store: &mut MemoryStorage, voter: &str, comment_id: &str)
    requires
        fits_vote_key(voter@),
        well_formed(*old(store)),
    ensures
        well_formed(*final(store)),
        ledger(*final(store)) == ledger(*old(store)).drop_vote(voter@, comment_id@),
{
    cw_storage_plus::Map::<(&str, &str), i8>::new("user_comment_votes").remove(store, (voter, comment_id))
}

} // verus!
