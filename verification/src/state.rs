//! The persisted entities and their mathematical views.
//!
//! Identities are plain strings and timestamps are nanoseconds since the
//! epoch; contracts speak of the `*View` structs, which hold sequences of
//! characters and unbounded integers in place of strings and machine
//! integers.

use vstd::prelude::*;

verus! {

/// The characters of each string of a list, in order.
pub open spec fn texts(items: Seq<String>) -> Seq<Seq<char>> {
    items.map_values(|s: String| s@)
}

/// Appending a string appends its characters.
pub proof fn lemma_texts_push(items: Seq<String>, item: String)
    ensures
        texts(items.push(item)) == texts(items).push(item@),
{
    assert(texts(items.push(item)) =~= texts(items).push(item@));
}

/// The characters of an optional string.
pub open spec fn opt_text(item: Option<String>) -> Option<Seq<char>> {
    match item {
        Some(s) => Some(s@),
        None => None,
    }
}

/// The singleton owner record.
#[derive(Clone, Debug, PartialEq, Eq)]
pub struct State {
    pub owner: String,
    pub comment_counter: u64,
}

pub struct StateView {
    pub owner: Seq<char>,
    pub comment_counter: nat,
}

impl View for State {
    type V = StateView;

    open spec fn view(&self) -> StateView {
        StateView { owner: self.owner@, comment_counter: self.comment_counter as nat }
    }
}

/// A mentor profile, keyed in the store by the identity that created it.
#[derive(Clone, Debug, PartialEq, Eq)]
pub struct Mentor {
    pub name: String,
    pub institution: String,
    pub department: String,
    pub avatar: Option<String>,
    pub created_at: u64,
    pub created_by: String,
    pub links: Vec<String>,
    pub updated_at: u64,
    pub updated_by: String,
    pub comments: Vec<String>,
}

pub struct MentorView {
    pub name: Seq<char>,
    pub institution: Seq<char>,
    pub department: Seq<char>,
    pub avatar: Option<Seq<char>>,
    pub created_at: u64,
    pub created_by: Seq<char>,
    pub links: Seq<Seq<char>>,
    pub updated_at: u64,
    pub updated_by: Seq<char>,
    pub comments: Seq<Seq<char>>,
}

impl View for Mentor {
    type V = MentorView;

    open spec fn view(&self) -> MentorView {
        MentorView {
            name: self.name@,
            institution: self.institution@,
            department: self.department@,
            avatar: opt_text(self.avatar),
            created_at: self.created_at,
            created_by: self.created_by@,
            links: texts(self.links@),
            updated_at: self.updated_at,
            updated_by: self.updated_by@,
            comments: texts(self.comments@),
        }
    }
}

/// A user record, created on the first comment or institution update.
#[derive(Clone, Debug, PartialEq, Eq)]
pub struct User {
    pub id: String,
    pub institution: Option<String>,
    pub posted_comments: Vec<String>,
}

pub struct UserView {
    pub id: Seq<char>,
    pub institution: Option<Seq<char>>,
    pub posted_comments: Seq<Seq<char>>,
}

impl View for User {
    type V = UserView;

    open spec fn view(&self) -> UserView {
        UserView {
            id: self.id@,
            institution: opt_text(self.institution),
            posted_comments: texts(self.posted_comments@),
        }
    }
}

impl UserView {
    /// The record a user has before anything was stored for them.
    pub open spec fn fresh(id: Seq<char>) -> UserView {
        UserView { id, institution: None, posted_comments: Seq::empty() }
    }
}

/// A rated comment on a mentor. Only `likes` changes after creation.
#[derive(Clone, Debug, PartialEq, Eq)]
pub struct Comment {
    pub id: String,
    pub created_at: u64,
    pub created_by: String,
    pub mentor_id: String,
    pub rating: u8,
    pub comment: String,
    pub likes: i32,
}

pub struct CommentView {
    pub id: Seq<char>,
    pub created_at: u64,
    pub created_by: Seq<char>,
    pub mentor_id: Seq<char>,
    pub rating: u8,
    pub comment: Seq<char>,
    pub likes: int,
}

impl View for Comment {
    type V = CommentView;

    open spec fn view(&self) -> CommentView {
        CommentView {
            id: self.id@,
            created_at: self.created_at,
            created_by: self.created_by@,
            mentor_id: self.mentor_id@,
            rating: self.rating,
            comment: self.comment@,
            likes: self.likes as int,
        }
    }
}

/// The views of a list of comments, in order.
pub open spec fn comment_views(items: Seq<Comment>) -> Seq<CommentView> {
    items.map_values(|c: Comment| c@)
}

/// The views of a list of mentors, in order.
pub open spec fn mentor_views(items: Seq<Mentor>) -> Seq<MentorView> {
    items.map_values(|m: Mentor| m@)
}

} // verus!
