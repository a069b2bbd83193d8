//! The mathematical model of everything the contract persists.

use vstd::prelude::*;
use cosmwasm_std::Empty;
use cosmwasm_std::Response;
use crate::error::ContractError;
use crate::ident::{comment_id_text, decimal_text, signed_text};
use crate::msg::{MentorResponseView, UserResponseView};
use crate::order::{first_n, page_keys};
use crate::response::{attributes, only_attributes};
use crate::state::{CommentView, MentorView, StateView, UserView};
use crate::tally::{fits_vote_key, VoteKey};

verus! {

/// The name recorded as the contract's at instantiation.
pub const CONTRACT_NAME: &'static str = "crates.io:mentor-x-contracts";

/// The version recorded as the contract's at instantiation.
pub const CONTRACT_VERSION: &'static str = "0.1.0";

/// The page size used where a listing names none.
pub const DEFAULT_LIMIT: u32 = 10;

/// The largest page of mentors.
pub const MAX_MENTORS: u32 = 30;

/// The largest page of comments.
pub const MAX_COMMENTS: u32 = 50;

/// How many records a listing filtered by mentor walks for each record it
/// may return.
pub const SCAN_FACTOR: u32 = 3;

/// Why a call is turned down.
#[derive(Debug)]
pub enum Refusal {
    MentorAlreadyExists,
    InvalidRating,
    InvalidVote,
    MentorNotFound,
    UserNotFound,
    CommentNotFound,
    /// No owner record is stored: the contract was never instantiated.
    NotInstantiated,
}

impl Refusal {
    /// `error` is the error that reports this refusal.
    pub open spec fn describes(self, error: ContractError) -> bool {
        match self {
            Refusal::MentorAlreadyExists => error is MentorAlreadyExists,
            Refusal::InvalidRating => error is InvalidRating,
            Refusal::InvalidVote => error is InvalidVote,
            Refusal::MentorNotFound => error is MentorNotFound,
            Refusal::UserNotFound => error is UserNotFound,
            Refusal::CommentNotFound => error is CommentNotFound,
            Refusal::NotInstantiated => error is Std,
        }
    }
}

/// A limit of the machine that a mutation would run into.
#[derive(Clone, Copy, Debug, PartialEq, Eq)]
pub enum Limit {
    /// The comment counter is at the top of 64 bits and cannot advance.
    Counter,
    /// The voter's identity is too long for the key of a vote.
    VoteKey,
    /// The tally less the voter's earlier vote does not fit 32 bits.
    TallyWithout,
    /// The tally with the new vote added does not fit 32 bits.
    TallyWith,
}

/// The value given, or the one kept where none is given.
pub open spec fn or_kept<A>(given: Option<A>, kept: A) -> A {
    match given {
        Some(value) => value,
        None => kept,
    }
}

/// The number of records a listing returns at most: the limit asked for,
/// ten where none is, and never more than `cap`.
pub open spec fn page_size(limit: Option<u32>, cap: u32) -> nat {
    let asked = or_kept(limit, DEFAULT_LIMIT);
    if asked < cap {
        asked as nat
    } else {
        cap as nat
    }
}

/// The test a comment passes where it is a comment on `mentor`.
pub open spec fn is_on(mentor: Seq<char>) -> spec_fn(CommentView) -> bool {
    |c: CommentView| c.mentor_id == mentor
}

/// The persisted contents: the owner singleton, the packaging record and
/// the four keyed collections.
pub struct Ledger {
    /// Contract name and version, as recorded at instantiation.
    pub version: Option<(Seq<char>, Seq<char>)>,
    pub state: Option<StateView>,
    pub mentors: Map<Seq<char>, MentorView>,
    pub users: Map<Seq<char>, UserView>,
    pub comments: Map<Seq<char>, CommentView>,
    /// Keyed by (voter, comment identifier).
    pub votes: Map<VoteKey, int>,
}

impl Ledger {
    pub open spec fn empty() -> Ledger {
        Ledger {
            version: None,
            state: None,
            mentors: Map::empty(),
            users: Map::empty(),
            comments: Map::empty(),
            votes: Map::empty(),
        }
    }

    pub open spec fn put_version(self, name: Seq<char>, version: Seq<char>) -> Ledger {
        Ledger { version: Some((name, version)), ..self }
    }

    pub open spec fn put_state(self, state: StateView) -> Ledger {
        Ledger { state: Some(state), ..self }
    }

    pub open spec fn put_mentor(self, id: Seq<char>, mentor: MentorView) -> Ledger {
        Ledger { mentors: self.mentors.insert(id, mentor), ..self }
    }

    pub open spec fn put_user(self, id: Seq<char>, user: UserView) -> Ledger {
        Ledger { users: self.users.insert(id, user), ..self }
    }

    pub open spec fn put_comment(self, id: Seq<char>, comment: CommentView) -> Ledger {
        Ledger { comments: self.comments.insert(id, comment), ..self }
    }

    pub open spec fn put_vote(self, voter: Seq<char>, comment_id: Seq<char>, vote: int) -> Ledger {
        Ledger { votes: self.votes.insert((voter, comment_id), vote), ..self }
    }

    pub open spec fn drop_vote(self, voter: Seq<char>, comment_id: Seq<char>) -> Ledger {
        Ledger { votes: self.votes.remove((voter, comment_id)), ..self }
    }

    /// The user record stored for `id`, or the fresh one if none is.
    pub open spec fn user_or_fresh(self, id: Seq<char>) -> UserView {
        if self.users.contains_key(id) {
            self.users[id]
        } else {
            UserView::fresh(id)
        }
    }

    /// The vote `voter` currently has on `comment_id`; 0 where none is stored.
    pub open spec fn current_vote(self, voter: Seq<char>, comment_id: Seq<char>) -> int {
        if self.votes.contains_key((voter, comment_id)) {
            self.votes[(voter, comment_id)]
        } else {
            0
        }
    }

    /// The ledger after instantiation by `owner`.
    pub open spec fn instantiate(self, owner: Seq<char>) -> Ledger {
        self.put_version(CONTRACT_NAME@, CONTRACT_VERSION@).put_state(
            StateView { owner, comment_counter: 0 },
        )
    }

    /// The ledger after `caller` creates their mentor profile at time `now`.
    pub open spec fn create_mentor(
        self,
        caller: Seq<char>,
        now: u64,
        name: Seq<char>,
        institution: Seq<char>,
        department: Seq<char>,
        avatar: Option<Seq<char>>,
        links: Seq<Seq<char>>,
    ) -> Result<Ledger, Refusal> {
        if self.mentors.contains_key(caller) {
            Err(Refusal::MentorAlreadyExists)
        } else {
            Ok(
                self.put_mentor(
                    caller,
                    MentorView {
                        name,
                        institution,
                        department,
                        avatar,
                        created_at: now,
                        created_by: caller,
                        links,
                        updated_at: now,
                        updated_by: caller,
                        comments: Seq::empty(),
                    },
                ),
            )
        }
    }

    /// Where a comment on `mentor_id` with `rating` is one that is created,
    /// the counter can advance within 64 bits.
    pub open spec fn comment_in_range(self, mentor_id: Seq<char>, rating: u8) -> bool {
        1 <= rating <= 10 && self.mentors.contains_key(mentor_id) ==> (self.state matches Some(state)
            ==> state.comment_counter < u64::MAX)
    }

    /// The limit that creating a comment on `mentor_id` with `rating` runs
    /// into, if any.
    pub open spec fn comment_limit(self, mentor_id: Seq<char>, rating: u8) -> Option<Limit> {
        if self.comment_in_range(mentor_id, rating) {
            None
        } else {
            Some(Limit::Counter)
        }
    }

    /// The identifier the next comment gets.
    pub open spec fn next_id(self) -> Seq<char> {
        comment_id_text(self.state.unwrap().comment_counter + 1)
    }

    /// The ledger after `caller` comments on `mentor_id` at time `now`: the
    /// counter advanced, the comment stored under the identifier minted,
    /// and that identifier appended to the mentor's and to the author's list.
    pub open spec fn create_comment(
        self,
        caller: Seq<char>,
        now: u64,
        mentor_id: Seq<char>,
        rating: u8,
        text: Seq<char>,
    ) -> Result<Ledger, Refusal> {
        if rating < 1 || rating > 10 {
            Err(Refusal::InvalidRating)
        } else if !self.mentors.contains_key(mentor_id) {
            Err(Refusal::MentorNotFound)
        } else if self.state is None {
            Err(Refusal::NotInstantiated)
        } else {
            let state = self.state.unwrap();
            let id = self.next_id();
            let mentor = self.mentors[mentor_id];
            let minted = self.put_state(StateView { comment_counter: state.comment_counter + 1, ..state });
            let commented = minted.put_comment(
                id,
                CommentView {
                    id,
                    created_at: now,
                    created_by: caller,
                    mentor_id,
                    rating,
                    comment: text,
                    likes: 0,
                },
            ).put_mentor(
                mentor_id,
                MentorView { comments: mentor.comments.push(id), updated_at: now, updated_by: caller, ..mentor },
            );
            let user = commented.user_or_fresh(caller);
            Ok(commented.put_user(caller, UserView { posted_comments: user.posted_comments.push(id), ..user }))
        }
    }

    /// The tally of `comment_id` once `caller` has cast `vote` on it: their
    /// earlier vote taken back, the new one added.
    pub open spec fn likes_after(self, caller: Seq<char>, comment_id: Seq<char>, vote: int) -> int {
        self.comments[comment_id].likes - self.current_vote(caller, comment_id) + vote
    }

    /// Where the vote is one that is cast, casting it stays within what the
    /// machine holds: the caller's identity fits the key of a vote, which
    /// takes 65535 bytes at most, and the tally, with and without the
    /// caller's earlier vote, fits 32 bits.
    pub open spec fn vote_in_range(self, caller: Seq<char>, comment_id: Seq<char>, vote: int) -> bool {
        let without = self.comments[comment_id].likes - self.current_vote(caller, comment_id);
        self.vote_comment(caller, comment_id, vote) is Ok ==> {
            &&& fits_vote_key(caller)
            &&& i32::MIN <= without <= i32::MAX
            &&& i32::MIN <= without + vote <= i32::MAX
        }
    }

    /// The first limit that casting `vote` runs into, if any, in the order
    /// in which the steps are taken: the key is built, the earlier vote is
    /// taken off the tally, the new vote is put on.
    pub open spec fn vote_limit(self, caller: Seq<char>, comment_id: Seq<char>, vote: int) -> Option<Limit> {
        let without = self.comments[comment_id].likes - self.current_vote(caller, comment_id);
        if !(self.vote_comment(caller, comment_id, vote) is Ok) {
            None
        } else if !fits_vote_key(caller) {
            Some(Limit::VoteKey)
        } else if !(i32::MIN <= without <= i32::MAX) {
            Some(Limit::TallyWithout)
        } else if !(i32::MIN <= without + vote <= i32::MAX) {
            Some(Limit::TallyWith)
        } else {
            None
        }
    }

    /// The ledger after `caller` casts `vote` on `comment_id`. A vote of 0
    /// removes the caller's vote.
    pub open spec fn vote_comment(self, caller: Seq<char>, comment_id: Seq<char>, vote: int) -> Result<
        Ledger,
        Refusal,
    > {
        if vote < -1 || vote > 1 {
            Err(Refusal::InvalidVote)
        } else if !self.comments.contains_key(comment_id) {
            Err(Refusal::CommentNotFound)
        } else {
            let comment = self.comments[comment_id];
            let tallied = self.put_comment(
                comment_id,
                CommentView { likes: self.likes_after(caller, comment_id, vote), ..comment },
            );
            if vote == 0 {
                Ok(tallied.drop_vote(caller, comment_id))
            } else {
                Ok(tallied.put_vote(caller, comment_id, vote))
            }
        }
    }

    /// The ledger after `caller` updates their own profile at time `now`:
    /// each field given replaces the stored one, each field left out stays.
    pub open spec fn update_mentor(
        self,
        caller: Seq<char>,
        now: u64,
        name: Option<Seq<char>>,
        institution: Option<Seq<char>>,
        department: Option<Seq<char>>,
        avatar: Option<Seq<char>>,
        links: Option<Seq<Seq<char>>>,
    ) -> Result<Ledger, Refusal> {
        if !self.mentors.contains_key(caller) {
            Err(Refusal::MentorNotFound)
        } else {
            let kept = self.mentors[caller];
            Ok(
                self.put_mentor(
                    caller,
                    MentorView {
                        name: or_kept(name, kept.name),
                        institution: or_kept(institution, kept.institution),
                        department: or_kept(department, kept.department),
                        avatar: if avatar is Some {
                            avatar
                        } else {
                            kept.avatar
                        },
                        links: or_kept(links, kept.links),
                        updated_at: now,
                        updated_by: caller,
                        ..kept
                    },
                ),
            )
        }
    }

    /// The ledger after `caller` sets their institution; `None` clears it.
    pub open spec fn update_user_institution(self, caller: Seq<char>, institution: Option<Seq<char>>) -> Ledger {
        self.put_user(caller, UserView { institution, ..self.user_or_fresh(caller) })
    }

    /// The comments that `ids` refer to, in the order of `ids`; an
    /// identifier under which no comment is stored gives none.
    pub open spec fn resolve(self, ids: Seq<Seq<char>>) -> Seq<CommentView> {
        ids.filter_map(|id: Seq<char>| self.comments.get(id))
    }

    pub open spec fn get_mentor(self, mentor_id: Seq<char>) -> Result<MentorResponseView, Refusal> {
        if self.mentors.contains_key(mentor_id) {
            let mentor = self.mentors[mentor_id];
            Ok(MentorResponseView { mentor, comments: self.resolve(mentor.comments) })
        } else {
            Err(Refusal::MentorNotFound)
        }
    }

    pub open spec fn get_user(self, user_id: Seq<char>) -> Result<UserResponseView, Refusal> {
        if self.users.contains_key(user_id) {
            let user = self.users[user_id];
            Ok(UserResponseView { user, comments: self.resolve(user.posted_comments) })
        } else {
            Err(Refusal::UserNotFound)
        }
    }

    pub open spec fn get_comment(self, comment_id: Seq<char>) -> Result<CommentView, Refusal> {
        if self.comments.contains_key(comment_id) {
            Ok(self.comments[comment_id])
        } else {
            Err(Refusal::CommentNotFound)
        }
    }

    /// The mentors stored under `keys`, in the order of `keys`.
    pub open spec fn mentors_at(self, keys: Seq<Seq<char>>) -> Seq<MentorView> {
        keys.map_values(|key: Seq<char>| self.mentors[key])
    }

    /// The comments stored under `keys`, in the order of `keys`.
    pub open spec fn comments_at(self, keys: Seq<Seq<char>>) -> Seq<CommentView> {
        keys.map_values(|key: Seq<char>| self.comments[key])
    }

    /// One page of mentors: those with the first keys beyond `start_after`,
    /// in ascending key order.
    pub open spec fn list_mentors(self, start_after: Option<Seq<char>>, limit: Option<u32>) -> Seq<MentorView> {
        self.mentors_at(page_keys(self.mentors.dom(), start_after, page_size(limit, MAX_MENTORS)))
    }

    /// One page of comments in ascending key order. Without a mentor, those
    /// with the first keys beyond `start_after`. With one, three times the
    /// page size is walked from `start_after`, and of the comments walked
    /// the first on that mentor are returned; comments on the mentor that
    /// lie beyond that window are not.
    pub open spec fn list_comments(
        self,
        mentor_id: Option<Seq<char>>,
        start_after: Option<Seq<char>>,
        limit: Option<u32>,
    ) -> Seq<CommentView> {
        let size = page_size(limit, MAX_COMMENTS);
        match mentor_id {
            None => self.comments_at(page_keys(self.comments.dom(), start_after, size)),
            Some(mentor) => first_n(
                self.comments_at(page_keys(self.comments.dom(), start_after, (SCAN_FACTOR * size) as nat)).filter(
                    is_on(mentor),
                ),
                size,
            ),
        }
    }
}

pub open spec fn instantiate_attributes(owner: Seq<char>) -> Seq<(Seq<char>, Seq<char>)> {
    seq![("method"@, "instantiate"@), ("owner"@, owner)]
}

pub open spec fn create_mentor_attributes(caller: Seq<char>, name: Seq<char>, institution: Seq<char>) -> Seq<
    (Seq<char>, Seq<char>),
> {
    seq![
        ("action"@, "create_mentor"@),
        ("mentor_id"@, caller),
        ("name"@, name),
        ("institution"@, institution),
    ]
}

pub open spec fn create_comment_attributes(comment_id: Seq<char>, mentor_id: Seq<char>, rating: u8) -> Seq<
    (Seq<char>, Seq<char>),
> {
    seq![
        ("action"@, "create_comment"@),
        ("comment_id"@, comment_id),
        ("mentor_id"@, mentor_id),
        ("rating"@, decimal_text(rating as nat)),
    ]
}

pub open spec fn vote_comment_attributes(comment_id: Seq<char>, vote: int, likes: int) -> Seq<
    (Seq<char>, Seq<char>),
> {
    seq![
        ("action"@, "vote_comment"@),
        ("comment_id"@, comment_id),
        ("vote"@, signed_text(vote)),
        ("new_likes"@, signed_text(likes)),
    ]
}

pub open spec fn update_mentor_attributes(caller: Seq<char>) -> Seq<(Seq<char>, Seq<char>)> {
    seq![("action"@, "update_mentor"@), ("mentor_id"@, caller)]
}

pub open spec fn update_user_institution_attributes(caller: Seq<char>) -> Seq<(Seq<char>, Seq<char>)> {
    seq![("action"@, "update_user_institution"@), ("user_id"@, caller)]
}

/// A mutation ended as `outcome` says: on success the store holds the new
/// ledger and the reply carries `attrs` and nothing else; on refusal the
/// store holds what it held and the error reports the refusal.
pub open spec fn settles(
    before: Ledger,
    after: Ledger,
    outcome: Result<Ledger, Refusal>,
    attrs: Seq<(Seq<char>, Seq<char>)>,
    r: Result<Response<Empty>, ContractError>,
) -> bool {
    match outcome {
        Ok(next) => after == next && (r matches Ok(reply) && attributes(reply) == attrs && only_attributes(
            reply,
        )),
        Err(why) => after == before && (r matches Err(error) && why.describes(error)),
    }
}

/// A query ended as `outcome` says.
pub open spec fn answers<T: View>(outcome: Result<T::V, Refusal>, r: Result<T, ContractError>) -> bool {
    match outcome {
        Ok(view) => r matches Ok(reply) && reply@ == view,
        Err(why) => r matches Err(error) && why.describes(error),
    }
}

} // verus!
