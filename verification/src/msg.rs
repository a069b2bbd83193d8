//! The messages the entry points take and the replies the queries give,
//! together with what the host supplies with each call.

use vstd::prelude::*;
use crate::state::{comment_views, mentor_views, Comment, CommentView, Mentor, MentorView, User, UserView};

verus! {

/// What the host tells of the block a call runs in: its time, in
/// nanoseconds since the epoch.
#[derive(Clone, Debug, PartialEq, Eq)]
pub struct Env {
    pub time: u64,
}

/// What the host tells of the caller: the authenticated identity.
#[derive(Clone, Debug, PartialEq, Eq)]
pub struct MessageInfo {
    pub sender: String,
}

#[derive(Clone, Debug, PartialEq, Eq)]
pub struct InstantiateMsg {}

#[allow(inconsistent_fields)]
#[derive(Clone, Debug, PartialEq, Eq)]
pub enum ExecuteMsg {
    CreateMentor {
        name: String,
        institution: String,
        department: String,
        avatar: Option<String>,
        links: Vec<String>,
    },
    CreateComment { mentor_id: String, rating: u8, comment: String },
    /// `vote` is -1 to dislike, 1 to like and 0 to withdraw the vote.
    VoteComment { comment_id: String, vote: i8 },
    UpdateMentor {
        name: Option<String>,
        institution: Option<String>,
        department: Option<String>,
        avatar: Option<String>,
        links: Option<Vec<String>>,
    },
    UpdateUserInstitution { institution: Option<String> },
}

#[allow(inconsistent_fields)]
#[derive(Clone, Debug, PartialEq, Eq)]
pub enum QueryMsg {
    GetMentor { mentor_id: String },
    GetUser { user_id: String },
    GetComment { comment_id: String },
    ListMentors { start_after: Option<String>, limit: Option<u32> },
    ListComments { mentor_id: Option<String>, start_after: Option<String>, limit: Option<u32> },
}

#[derive(Clone, Debug, PartialEq, Eq)]
pub struct MentorResponse {
    pub mentor: Mentor,
    pub comments: Vec<Comment>,
}

pub struct MentorResponseView {
    pub mentor: MentorView,
    pub comments: Seq<CommentView>,
}

impl View for MentorResponse {
    type V = MentorResponseView;

    open spec fn view(&self) -> MentorResponseView {
        MentorResponseView { mentor: self.mentor@, comments: comment_views(self.comments@) }
    }
}

#[derive(Clone, Debug, PartialEq, Eq)]
pub struct UserResponse {
    pub user: User,
    pub comments: Vec<Comment>,
}

pub struct UserResponseView {
    pub user: UserView,
    pub comments: Seq<CommentView>,
}

impl View for UserResponse {
    type V = UserResponseView;

    open spec fn view(&self) -> UserResponseView {
        UserResponseView { user: self.user@, comments: comment_views(self.comments@) }
    }
}

#[derive(Clone, Debug, PartialEq, Eq)]
pub struct CommentResponse {
    pub comment: Comment,
}

impl View for CommentResponse {
    type V = CommentView;

    open spec fn view(&self) -> CommentView {
        self.comment@
    }
}

#[derive(Clone, Debug, PartialEq, Eq)]
pub struct MentorsResponse {
    pub mentors: Vec<Mentor>,
}

impl View for MentorsResponse {
    type V = Seq<MentorView>;

    open spec fn view(&self) -> Seq<MentorView> {
        mentor_views(self.mentors@)
    }
}

#[derive(Clone, Debug, PartialEq, Eq)]
pub struct CommentsResponse {
    pub comments: Vec<Comment>,
}

impl View for CommentsResponse {
    type V = Seq<CommentView>;

    open spec fn view(&self) -> Seq<CommentView> {
        comment_views(self.comments@)
    }
}

/// The reply to a query, by the kind of query it answers.
#[derive(Clone, Debug, PartialEq, Eq)]
pub enum QueryResponse {
    Mentor(MentorResponse),
    User(UserResponse),
    Comment(CommentResponse),
    Mentors(MentorsResponse),
    Comments(CommentsResponse),
}

pub enum QueryResponseView {
    Mentor(MentorResponseView),
    User(UserResponseView),
    Comment(CommentView),
    Mentors(Seq<MentorView>),
    Comments(Seq<CommentView>),
}

impl View for QueryResponse {
    type V = QueryResponseView;

    open spec fn view(&self) -> QueryResponseView {
        match self {
            QueryResponse::Mentor(reply) => QueryResponseView::Mentor(reply@),
            QueryResponse::User(reply) => QueryResponseView::User(reply@),
            QueryResponse::Comment(reply) => QueryResponseView::Comment(reply@),
            QueryResponse::Mentors(reply) => QueryResponseView::Mentors(reply@),
            QueryResponse::Comments(reply) => QueryResponseView::Comments(reply@),
        }
    }
}

} // verus!
