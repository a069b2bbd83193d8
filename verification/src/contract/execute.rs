//! The mutations: each loads what it needs, checks, and writes back every
//! record it touched.

use vstd::prelude::*;
use cosmwasm_std::Empty;
use cosmwasm_std::MemoryStorage;
use cosmwasm_std::Response;
use crate::consistency::{
    lemma_create_comment_keeps_consistent, lemma_create_mentor_keeps_consistent,
    lemma_update_mentor_keeps_consistent, lemma_update_user_institution_keeps_consistent,
    lemma_vote_comment_keeps_consistent,
};
use crate::contract::opt_texts;
use crate::error::ContractError;
use crate::ident::{decimal, next_comment_id, signed};
use crate::model::{
    create_comment_attributes, create_mentor_attributes, settles, update_mentor_attributes,
    update_user_institution_attributes, vote_comment_attributes,
};
use crate::msg::{Env, MessageInfo};
use crate::response::{add_attribute, attributes, response_new};
use crate::state::{lemma_texts_push, opt_text, texts, Comment, Mentor, User};
use crate::store::{
    comments_load, comments_save, ledger, mentors_has, mentors_load, mentors_save, users_may_load,
    users_save, votes_may_load, votes_remove, votes_save, well_formed,
};

verus! {

/// Creates the caller's mentor profile, or fails with `MentorAlreadyExists`
/// where they have one.
pub fn create_mentor(
    store: &mut MemoryStorage,
    env: Env,
    info: MessageInfo,
    name: String,
    institution: String,
    department: String,
    avatar: Option<String>,
    links: Vec<String>,
) -> (r: Result<Response<Empty>, ContractError>)
    requires
        well_formed(*old(store)),
    ensures
        well_formed(*final(store)),
        settles(
            ledger(*old(store)),
            ledger(*final(store)),
            ledger(*old(store)).create_mentor(
                info.sender@,
                env.time,
                name@,
                institution@,
                department@,
                opt_text(avatar),
                texts(links@),
            ),
            create_mentor_attributes(info.sender@, name@, institution@),
            r,
        ),
        ledger(*old(store)).consistent() ==> ledger(*final(store)).consistent(),
{
    proof {
        if ledger(*store).consistent() {
            lemma_create_mentor_keeps_consistent(
                ledger(*store),
                info.sender@,
                env.time,
                name@,
                institution@,
                department@,
                opt_text(avatar),
                texts(links@),
            );
        }
    }
    if mentors_has(store, info.sender.as_str()) {
        return Err(ContractError::MentorAlreadyExists {});
    }
    let mentor = Mentor {
        name: name.clone(),
        institution: institution.clone(),
        department,
        avatar,
        created_at: env.time,
        created_by: info.sender.clone(),
        links,
        updated_at: env.time,
        updated_by: info.sender.clone(),
        comments: Vec::new(),
    };
    assert(mentor.comments@.map_values(|s: String| s@) =~= Seq::<Seq<char>>::empty());
    match mentors_save(store, info.sender.as_str(), mentor) {
        Ok(()) => {},
        Err(e) => {
            return Err(ContractError::Std(e));
        },
    }
    proof {
        reveal_strlit("action");
        reveal_strlit("mentor_id");
        reveal_strlit("name");
        reveal_strlit("institution");
    }
    let reply = response_new();
    let reply = add_attribute(reply, "action", "create_mentor");
    let reply = add_attribute(reply, "mentor_id", info.sender.as_str());
    let reply = add_attribute(reply, "name", name.as_str());
    let reply = add_attribute(reply, "institution", institution.as_str());
    assert(attributes(reply) =~= create_mentor_attributes(info.sender@, name@, institution@));
    Ok(reply)
}

/// Stores a comment on `mentor_id` by the caller under a newly minted
/// identifier, and appends that identifier to the mentor's list and to the
/// caller's, whose user record is created if there is none.
pub fn create_comment(
    store: &mut MemoryStorage,
    env: Env,
    info: MessageInfo,
    mentor_id: String,
    rating: u8,
    comment: String,
) -> (r: Result<Response<Empty>, ContractError>)
    requires
        well_formed(*old(store)),
        ledger(*old(store)).comment_in_range(mentor_id@, rating),
    ensures
        well_formed(*final(store)),
        settles(
            ledger(*old(store)),
            ledger(*final(store)),
            ledger(*old(store)).create_comment(info.sender@, env.time, mentor_id@, rating, comment@),
            create_comment_attributes(ledger(*old(store)).next_id(), mentor_id@, rating),
            r,
        ),
        ledger(*old(store)).consistent() ==> ledger(*final(store)).consistent(),
{
    proof {
        if ledger(*store).consistent() {
            lemma_create_comment_keeps_consistent(ledger(*store), info.sender@, env.time, mentor_id@, rating, comment@);
        }
    }
    if rating < 1 || rating > 10 {
        return Err(ContractError::InvalidRating {});
    }
    let mut mentor = match mentors_load(store, mentor_id.as_str()) {
        Ok(mentor) => mentor,
        Err(_) => {
            return Err(ContractError::MentorNotFound {});
        },
    };
    let comment_id = match next_comment_id(store) {
        Ok(id) => id,
        Err(e) => {
            return Err(e);
        },
    };
    let new_comment = Comment {
        id: comment_id.clone(),
        created_at: env.time,
        created_by: info.sender.clone(),
        mentor_id: mentor_id.clone(),
        rating,
        comment,
        likes: 0,
    };
    match comments_save(store, comment_id.as_str(), new_comment) {
        Ok(()) => {},
        Err(e) => {
            return Err(ContractError::Std(e));
        },
    }
    proof {
        lemma_texts_push(mentor.comments@, comment_id);
    }
    mentor.comments.push(comment_id.clone());
    mentor.updated_at = env.time;
    mentor.updated_by = info.sender.clone();
    match mentors_save(store, mentor_id.as_str(), mentor) {
        Ok(()) => {},
        Err(e) => {
            return Err(ContractError::Std(e));
        },
    }
    let mut user = match users_may_load(store, info.sender.as_str()) {
        Ok(Some(user)) => user,
        Ok(None) => {
            let fresh = User { id: info.sender.clone(), institution: None, posted_comments: Vec::new() };
            assert(texts(fresh.posted_comments@) =~= Seq::<Seq<char>>::empty());
            fresh
        },
        Err(e) => {
            return Err(ContractError::Std(e));
        },
    };
    proof {
        lemma_texts_push(user.posted_comments@, comment_id);
    }
    user.posted_comments.push(comment_id.clone());
    match users_save(store, info.sender.as_str(), user) {
        Ok(()) => {},
        Err(e) => {
            return Err(ContractError::Std(e));
        },
    }
    let rating_text = decimal(rating as u64);
    proof {
        reveal_strlit("action");
        reveal_strlit("comment_id");
        reveal_strlit("mentor_id");
        reveal_strlit("rating");
    }
    let reply = response_new();
    let reply = add_attribute(reply, "action", "create_comment");
    let reply = add_attribute(reply, "comment_id", comment_id.as_str());
    let reply = add_attribute(reply, "mentor_id", mentor_id.as_str());
    let reply = add_attribute(reply, "rating", rating_text.as_str());
    assert(attributes(reply) =~= create_comment_attributes(comment_id@, mentor_id@, rating));
    Ok(reply)
}

/// Casts the caller's vote on a comment: the tally loses their earlier vote
/// and gains the new one, and the vote is recorded, or removed where it is 0.
pub fn vote_comment(store: &mut MemoryStorage, info: MessageInfo, comment_id: String, vote: i8) -> (r: Result<
    Response<Empty>,
    ContractError,
>)
    requires
        well_formed(*old(store)),
        ledger(*old(store)).vote_in_range(info.sender@, comment_id@, vote as int),
    ensures
        well_formed(*final(store)),
        settles(
            ledger(*old(store)),
            ledger(*final(store)),
            ledger(*old(store)).vote_comment(info.sender@, comment_id@, vote as int),
            vote_comment_attributes(
                comment_id@,
                vote as int,
                ledger(*old(store)).likes_after(info.sender@, comment_id@, vote as int),
            ),
            r,
        ),
        ledger(*old(store)).consistent() ==> ledger(*final(store)).consistent(),
{
    proof {
        if ledger(*store).consistent() {
            lemma_vote_comment_keeps_consistent(ledger(*store), info.sender@, comment_id@, vote as int);
        }
    }
    if vote < -1 || vote > 1 {
        return Err(ContractError::InvalidVote {});
    }
    let mut comment = match comments_load(store, comment_id.as_str()) {
        Ok(comment) => comment,
        Err(_) => {
            return Err(ContractError::CommentNotFound {});
        },
    };
    let previous_vote: i8 = match votes_may_load(store, info.sender.as_str(), comment_id.as_str()) {
        Ok(Some(vote)) => vote,
        Ok(None) => 0,
        Err(e) => {
            return Err(ContractError::Std(e));
        },
    };
    comment.likes = comment.likes - previous_vote as i32 + vote as i32;
    let likes: i32 = comment.likes;
    match comments_save(store, comment_id.as_str(), comment) {
        Ok(()) => {},
        Err(e) => {
            return Err(ContractError::Std(e));
        },
    }
    if vote == 0 {
        votes_remove(store, info.sender.as_str(), comment_id.as_str());
    } else {
        match votes_save(store, info.sender.as_str(), comment_id.as_str(), vote) {
            Ok(()) => {},
            Err(e) => {
                return Err(ContractError::Std(e));
            },
        }
    }
    let vote_text = signed(vote as i32);
    let likes_text = signed(likes);
    proof {
        reveal_strlit("action");
        reveal_strlit("comment_id");
        reveal_strlit("vote");
        reveal_strlit("new_likes");
    }
    let reply = response_new();
    let reply = add_attribute(reply, "action", "vote_comment");
    let reply = add_attribute(reply, "comment_id", comment_id.as_str());
    let reply = add_attribute(reply, "vote", vote_text.as_str());
    let reply = add_attribute(reply, "new_likes", likes_text.as_str());
    assert(attributes(reply) =~= vote_comment_attributes(comment_id@, vote as int, likes as int));
    Ok(reply)
}

/// Overwrites the fields given of the caller's own mentor profile and leaves
/// the others; fails with `MentorNotFound` where the caller has no profile.
pub fn update_mentor(
    store: &mut MemoryStorage,
    env: Env,
    info: MessageInfo,
    name: Option<String>,
    institution: Option<String>,
    department: Option<String>,
    avatar: Option<String>,
    links: Option<Vec<String>>,
) -> (r: Result<Response<Empty>, ContractError>)
    requires
        well_formed(*old(store)),
    ensures
        well_formed(*final(store)),
        settles(
            ledger(*old(store)),
            ledger(*final(store)),
            ledger(*old(store)).update_mentor(
                info.sender@,
                env.time,
                opt_text(name),
                opt_text(institution),
                opt_text(department),
                opt_text(avatar),
                opt_texts(links),
            ),
            update_mentor_attributes(info.sender@),
            r,
        ),
        ledger(*old(store)).consistent() ==> ledger(*final(store)).consistent(),
{
    proof {
        if ledger(*store).consistent() {
            lemma_update_mentor_keeps_consistent(
                ledger(*store),
                info.sender@,
                env.time,
                opt_text(name),
                opt_text(institution),
                opt_text(department),
                opt_text(avatar),
                opt_texts(links),
            );
        }
    }
    let mut mentor = match mentors_load(store, info.sender.as_str()) {
        Ok(mentor) => mentor,
        Err(_) => {
            return Err(ContractError::MentorNotFound {});
        },
    };
    if let Some(new_name) = name {
        mentor.name = new_name;
    }
    if let Some(new_institution) = institution {
        mentor.institution = new_institution;
    }
    if let Some(new_department) = department {
        mentor.department = new_department;
    }
    if let Some(new_avatar) = avatar {
        mentor.avatar = Some(new_avatar);
    }
    if let Some(new_links) = links {
        mentor.links = new_links;
    }
    mentor.updated_at = env.time;
    mentor.updated_by = info.sender.clone();
    match mentors_save(store, info.sender.as_str(), mentor) {
        Ok(()) => {},
        Err(e) => {
            return Err(ContractError::Std(e));
        },
    }
    proof {
        reveal_strlit("action");
        reveal_strlit("mentor_id");
    }
    let reply = response_new();
    let reply = add_attribute(reply, "action", "update_mentor");
    let reply = add_attribute(reply, "mentor_id", info.sender.as_str());
    assert(attributes(reply) =~= update_mentor_attributes(info.sender@));
    Ok(reply)
}

/// Sets the institution of the caller's user record, creating the record if
/// there is none; `None` clears it.
pub fn update_user_institution(store: &mut MemoryStorage, info: MessageInfo, institution: Option<String>) -> (r:
    Result<Response<Empty>, ContractError>)
    requires
        well_formed(*old(store)),
    ensures
        well_formed(*final(store)),
        settles(
            ledger(*old(store)),
            ledger(*final(store)),
            Ok(ledger(*old(store)).update_user_institution(info.sender@, opt_text(institution))),
            update_user_institution_attributes(info.sender@),
            r,
        ),
        ledger(*old(store)).consistent() ==> ledger(*final(store)).consistent(),
{
    proof {
        if ledger(*store).consistent() {
            lemma_update_user_institution_keeps_consistent(ledger(*store), info.sender@, opt_text(institution));
        }
    }
    let mut user = match users_may_load(store, info.sender.as_str()) {
        Ok(Some(user)) => user,
        Ok(None) => {
            let fresh = User { id: info.sender.clone(), institution: None, posted_comments: Vec::new() };
            assert(texts(fresh.posted_comments@) =~= Seq::<Seq<char>>::empty());
            fresh
        },
        Err(e) => {
            return Err(ContractError::Std(e));
        },
    };
    user.institution = institution;
    match users_save(store, info.sender.as_str(), user) {
        Ok(()) => {},
        Err(e) => {
            return Err(ContractError::Std(e));
        },
    }
    proof {
        reveal_strlit("action");
        reveal_strlit("user_id");
    }
    let reply = response_new();
    let reply = add_attribute(reply, "action", "update_user_institution");
    let reply = add_attribute(reply, "user_id", info.sender.as_str());
    assert(attributes(reply) =~= update_user_institution_attributes(info.sender@));
    Ok(reply)
}

} // verus!
