//! What holds of every ledger the contract can reach: the relations between
//! the collections that the mutations keep up.

use vstd::prelude::*;
use crate::ident::{comment_id_text, lemma_comment_id_text_injective};
use crate::laws::{lemma_stored_references_resolve, run, Call};
use crate::model::Ledger;
use crate::msg::ExecuteMsg;
use crate::tally::{lemma_tally_after_insert, lemma_tally_after_remove, lemma_tally_without_votes, tally, VoteKey};

verus! {

impl Ledger {
    /// The value of the comment counter; zero before instantiation.
    pub open spec fn counter(self) -> nat {
        match self.state {
            Some(state) => state.comment_counter,
            None => 0,
        }
    }

    /// Each collection holds finitely many records.
    pub open spec fn finite(self) -> bool {
        &&& self.mentors.dom().finite()
        &&& self.users.dom().finite()
        &&& self.comments.dom().finite()
        &&& self.votes.dom().finite()
    }

    /// A stored vote is a like or a dislike, never 0, and is a vote on a
    /// stored comment.
    pub open spec fn votes_consistent(self) -> bool {
        forall|key: VoteKey| #[trigger]
            self.votes.contains_key(key) ==> (self.votes[key] == 1 || self.votes[key] == -1)
                && self.comments.contains_key(key.1)
    }

    /// The comments are those minted so far: one under the identifier of
    /// each counter value from 1 to the counter, and no other.
    pub open spec fn identifiers_consistent(self) -> bool {
        &&& forall|n: nat| 1 <= n <= self.counter() ==> self.comments.contains_key(#[trigger] comment_id_text(n))
        &&& forall|id: Seq<char>| #[trigger]
            self.comments.contains_key(id) ==> exists|n: nat|
                1 <= n <= self.counter() && id == #[trigger] comment_id_text(n)
    }

    /// A comment carries its own identifier and a rating from 1 to 10, its
    /// tally is the sum of the votes stored on it, and its mentor and its
    /// author are stored.
    pub open spec fn comments_consistent(self) -> bool {
        forall|id: Seq<char>| #[trigger]
            self.comments.contains_key(id) ==> {
                &&& self.comments[id].id == id
                &&& 1 <= self.comments[id].rating <= 10
                &&& self.comments[id].likes == tally(self.votes, id)
                &&& self.mentors.contains_key(self.comments[id].mentor_id)
                &&& self.users.contains_key(self.comments[id].created_by)
            }
    }

    /// A mentor is stored under the identity that created it, and its list
    /// holds, each once, the identifiers of the comments on it and no other.
    pub open spec fn mentors_consistent(self) -> bool {
        forall|mentor_id: Seq<char>| #[trigger]
            self.mentors.contains_key(mentor_id) ==> {
                &&& self.mentors[mentor_id].created_by == mentor_id
                &&& self.mentors[mentor_id].comments.no_duplicates()
                &&& forall|id: Seq<char>|
                    self.mentors[mentor_id].comments.contains(id) <==> self.comments.contains_key(id)
                        && self.comments[id].mentor_id == mentor_id
            }
    }

    /// A user is stored under its own identity, and its list holds, each
    /// once, the identifiers of the comments it wrote and no other.
    pub open spec fn users_consistent(self) -> bool {
        forall|user_id: Seq<char>| #[trigger]
            self.users.contains_key(user_id) ==> {
                &&& self.users[user_id].id == user_id
                &&& self.users[user_id].posted_comments.no_duplicates()
                &&& forall|id: Seq<char>|
                    self.users[user_id].posted_comments.contains(id) <==> self.comments.contains_key(id)
                        && self.comments[id].created_by == user_id
            }
    }

    /// The relations that hold between the collections of every ledger the
    /// contract reaches.
    pub open spec fn consistent(self) -> bool {
        &&& self.finite()
        &&& self.votes_consistent()
        &&& self.identifiers_consistent()
        &&& self.comments_consistent()
        &&& self.mentors_consistent()
        &&& self.users_consistent()
    }
}

/// A ledger that holds nothing is consistent.
pub proof fn lemma_empty_is_consistent()
    ensures
        Ledger::empty().consistent(),
{
}

/// Instantiating a consistent ledger that was not instantiated before
/// leaves it consistent.
pub proof fn lemma_instantiate_keeps_consistent(before: Ledger, owner: Seq<char>)
    requires
        before.consistent(),
        before.state is None,
    ensures
        before.instantiate(owner).consistent(),
{
    let after = before.instantiate(owner);
    assert forall|id: Seq<char>| !before.comments.contains_key(id) by {
        if before.comments.contains_key(id) {
            let n = choose|n: nat| 1 <= n <= before.counter() && id == #[trigger] comment_id_text(n);
        }
    }
}

/// Creating a mentor profile leaves a consistent ledger consistent.
pub proof fn lemma_create_mentor_keeps_consistent(
    before: Ledger,
    caller: Seq<char>,
    now: u64,
    name: Seq<char>,
    institution: Seq<char>,
    department: Seq<char>,
    avatar: Option<Seq<char>>,
    links: Seq<Seq<char>>,
)
    requires
        before.consistent(),
    ensures
        before.create_mentor(caller, now, name, institution, department, avatar, links) matches Ok(after)
            ==> after.consistent(),
{
    if let Ok(after) = before.create_mentor(caller, now, name, institution, department, avatar, links) {
        assert(after.counter() == before.counter());
        assert forall|mentor_id: Seq<char>| #[trigger] after.mentors.contains_key(mentor_id) implies {
            &&& after.mentors[mentor_id].created_by == mentor_id
            &&& after.mentors[mentor_id].comments.no_duplicates()
            &&& forall|id: Seq<char>|
                after.mentors[mentor_id].comments.contains(id) <==> after.comments.contains_key(id)
                    && after.comments[id].mentor_id == mentor_id
        } by {
            if mentor_id != caller {
                assert(before.mentors.contains_key(mentor_id));
            }
        }
    }
}

/// No identifier is used twice: the one that a consistent ledger mints
/// next is one under which no comment is stored and on which no vote is,
/// so creating a comment overwrites nothing.
pub proof fn lemma_next_id_is_new(before: Ledger)
    requires
        before.consistent(),
    ensures
        !before.comments.contains_key(before.next_id()),
        tally(before.votes, before.next_id()) == 0,
        before.state is Some ==> before.next_id() == comment_id_text(before.counter() + 1),
{
    let new_id = before.next_id();
    if before.comments.contains_key(new_id) {
        let n = choose|n: nat| 1 <= n <= before.counter() && new_id == #[trigger] comment_id_text(n);
        if before.state is Some {
            lemma_comment_id_text_injective(n, before.counter() + 1);
        }
    }
    assert forall|key: VoteKey| #[trigger] before.votes.contains_key(key) implies key.1 != new_id by {}
    lemma_tally_without_votes(before.votes, new_id);
}

proof fn lemma_create_comment_keeps_identifiers(
    before: Ledger,
    caller: Seq<char>,
    now: u64,
    mentor_id: Seq<char>,
    rating: u8,
    text: Seq<char>,
)
    requires
        before.consistent(),
        before.create_comment(caller, now, mentor_id, rating, text) is Ok,
    ensures
        before.create_comment(caller, now, mentor_id, rating, text).unwrap().identifiers_consistent(),
{
    let after = before.create_comment(caller, now, mentor_id, rating, text).unwrap();
    let new_id = before.next_id();
    let count = before.counter();
    assert(after.counter() == count + 1);
    assert forall|n: nat| 1 <= n <= after.counter() implies after.comments.contains_key(
        #[trigger] comment_id_text(n),
    ) by {
        if n <= count {
            assert(before.comments.contains_key(comment_id_text(n)));
        }
    }
    assert forall|id: Seq<char>| #[trigger] after.comments.contains_key(id) implies exists|n: nat|
        1 <= n <= after.counter() && id == #[trigger] comment_id_text(n) by {
        if id == new_id {
            assert(id == comment_id_text((count + 1) as nat));
        } else {
            assert(before.comments.contains_key(id));
            let n = choose|n: nat| 1 <= n <= count && id == #[trigger] comment_id_text(n);
            assert(1 <= n <= after.counter() && id == comment_id_text(n));
        }
    }
}

proof fn lemma_create_comment_keeps_comments(
    before: Ledger,
    caller: Seq<char>,
    now: u64,
    mentor_id: Seq<char>,
    rating: u8,
    text: Seq<char>,
)
    requires
        before.consistent(),
        before.create_comment(caller, now, mentor_id, rating, text) is Ok,
    ensures
        before.create_comment(caller, now, mentor_id, rating, text).unwrap().comments_consistent(),
        before.create_comment(caller, now, mentor_id, rating, text).unwrap().votes_consistent(),
        before.create_comment(caller, now, mentor_id, rating, text).unwrap().finite(),
{
    let after = before.create_comment(caller, now, mentor_id, rating, text).unwrap();
    let new_id = before.next_id();
    lemma_next_id_is_new(before);
    assert forall|id: Seq<char>| #[trigger] after.comments.contains_key(id) implies {
        &&& after.comments[id].id == id
        &&& 1 <= after.comments[id].rating <= 10
        &&& after.comments[id].likes == tally(after.votes, id)
        &&& after.mentors.contains_key(after.comments[id].mentor_id)
        &&& after.users.contains_key(after.comments[id].created_by)
    } by {
        if id != new_id {
            assert(before.comments.contains_key(id));
        }
    }
    assert forall|key: VoteKey| #[trigger] after.votes.contains_key(key) implies (after.votes[key] == 1
        || after.votes[key] == -1) && after.comments.contains_key(key.1) by {
        assert(before.votes.contains_key(key));
    }
}

proof fn lemma_create_comment_keeps_mentors(
    before: Ledger,
    caller: Seq<char>,
    now: u64,
    mentor_id: Seq<char>,
    rating: u8,
    text: Seq<char>,
)
    requires
        before.consistent(),
        before.create_comment(caller, now, mentor_id, rating, text) is Ok,
    ensures
        before.create_comment(caller, now, mentor_id, rating, text).unwrap().mentors_consistent(),
{
    let after = before.create_comment(caller, now, mentor_id, rating, text).unwrap();
    let new_id = before.next_id();
    lemma_next_id_is_new(before);
    assert forall|m: Seq<char>| #[trigger] after.mentors.contains_key(m) implies {
        &&& after.mentors[m].created_by == m
        &&& after.mentors[m].comments.no_duplicates()
        &&& forall|id: Seq<char>|
            after.mentors[m].comments.contains(id) <==> after.comments.contains_key(id)
                && after.comments[id].mentor_id == m
    } by {
        assert(before.mentors.contains_key(m));
        let list = before.mentors[m].comments;
        assert forall|id: Seq<char>|
            list.contains(id) <==> before.comments.contains_key(id) && before.comments[id].mentor_id == m by {}
        if m == mentor_id {
            lemma_push_keeps_distinct(list, new_id);
            assert(after.mentors[m].comments == list.push(new_id));
            assert forall|id: Seq<char>|
                after.mentors[m].comments.contains(id) <==> after.comments.contains_key(id)
                    && after.comments[id].mentor_id == m by {
                lemma_push_contains(list, new_id, id);
            }
        } else {
            assert(after.mentors[m] == before.mentors[m]);
            assert forall|id: Seq<char>|
                after.mentors[m].comments.contains(id) <==> after.comments.contains_key(id)
                    && after.comments[id].mentor_id == m by {
                assert(list.contains(id) <==> before.comments.contains_key(id) && before.comments[id].mentor_id
                    == m);
            }
        }
    }
}

proof fn lemma_create_comment_keeps_users(
    before: Ledger,
    caller: Seq<char>,
    now: u64,
    mentor_id: Seq<char>,
    rating: u8,
    text: Seq<char>,
)
    requires
        before.consistent(),
        before.create_comment(caller, now, mentor_id, rating, text) is Ok,
    ensures
        before.create_comment(caller, now, mentor_id, rating, text).unwrap().users_consistent(),
{
    let after = before.create_comment(caller, now, mentor_id, rating, text).unwrap();
    let new_id = before.next_id();
    lemma_next_id_is_new(before);
    lemma_user_or_fresh_is_consistent(before, caller);
    assert forall|u: Seq<char>| #[trigger] after.users.contains_key(u) implies {
        &&& after.users[u].id == u
        &&& after.users[u].posted_comments.no_duplicates()
        &&& forall|id: Seq<char>|
            after.users[u].posted_comments.contains(id) <==> after.comments.contains_key(id)
                && after.comments[id].created_by == u
    } by {
        if u == caller {
            let list = before.user_or_fresh(caller).posted_comments;
            lemma_push_keeps_distinct(list, new_id);
            assert(after.users[u].posted_comments == list.push(new_id));
            assert forall|id: Seq<char>|
                after.users[u].posted_comments.contains(id) <==> after.comments.contains_key(id)
                    && after.comments[id].created_by == u by {
                lemma_push_contains(list, new_id, id);
            }
        } else {
            assert(before.users.contains_key(u));
            assert(after.users[u] == before.users[u]);
            let list = before.users[u].posted_comments;
            assert forall|id: Seq<char>|
                after.users[u].posted_comments.contains(id) <==> after.comments.contains_key(id)
                    && after.comments[id].created_by == u by {
                assert(list.contains(id) <==> before.comments.contains_key(id) && before.comments[id].created_by
                    == u);
            }
        }
    }
}

/// The record a user has, stored or fresh, carries the user's identity and
/// lists, each once, the comments the user wrote.
proof fn lemma_user_or_fresh_is_consistent(before: Ledger, user_id: Seq<char>)
    requires
        before.consistent(),
    ensures
        before.user_or_fresh(user_id).id == user_id,
        before.user_or_fresh(user_id).posted_comments.no_duplicates(),
        forall|id: Seq<char>|
            before.user_or_fresh(user_id).posted_comments.contains(id) <==> before.comments.contains_key(id)
                && before.comments[id].created_by == user_id,
{
    let list = before.user_or_fresh(user_id).posted_comments;
    if !before.users.contains_key(user_id) {
        assert(list =~= Seq::<Seq<char>>::empty());
        assert forall|id: Seq<char>|
            list.contains(id) <==> before.comments.contains_key(id) && before.comments[id].created_by
                == user_id by {
            if before.comments.contains_key(id) {
                assert(before.users.contains_key(before.comments[id].created_by));
            }
        }
    }
}

/// Creating a comment leaves a consistent ledger consistent.
pub proof fn lemma_create_comment_keeps_consistent(
    before: Ledger,
    caller: Seq<char>,
    now: u64,
    mentor_id: Seq<char>,
    rating: u8,
    text: Seq<char>,
)
    requires
        before.consistent(),
    ensures
        before.create_comment(caller, now, mentor_id, rating, text) matches Ok(after) ==> after.consistent(),
{
    if before.create_comment(caller, now, mentor_id, rating, text) is Ok {
        lemma_create_comment_keeps_identifiers(before, caller, now, mentor_id, rating, text);
        lemma_create_comment_keeps_comments(before, caller, now, mentor_id, rating, text);
        lemma_create_comment_keeps_mentors(before, caller, now, mentor_id, rating, text);
        lemma_create_comment_keeps_users(before, caller, now, mentor_id, rating, text);
    }
}

/// Casting a vote leaves a consistent ledger consistent: the tally of the
/// comment stays the sum of the votes stored on it.
pub proof fn lemma_vote_comment_keeps_consistent(before: Ledger, caller: Seq<char>, comment_id: Seq<char>, vote: int)
    requires
        before.consistent(),
    ensures
        before.vote_comment(caller, comment_id, vote) matches Ok(after) ==> after.consistent(),
{
    if let Ok(after) = before.vote_comment(caller, comment_id, vote) {
        let key = (caller, comment_id);
        assert(after.counter() == before.counter());
        assert forall|id: Seq<char>| #[trigger] after.comments.contains_key(id) implies {
            &&& after.comments[id].id == id
            &&& 1 <= after.comments[id].rating <= 10
            &&& after.comments[id].likes == tally(after.votes, id)
            &&& after.mentors.contains_key(after.comments[id].mentor_id)
            &&& after.users.contains_key(after.comments[id].created_by)
        } by {
            assert(before.comments.contains_key(id));
            if vote == 0 {
                lemma_tally_after_remove(before.votes, key, id);
            } else {
                lemma_tally_after_insert(before.votes, key, vote, id);
            }
        }
        assert(after.identifiers_consistent()) by {
            assert forall|n: nat| 1 <= n <= after.counter() implies after.comments.contains_key(
                #[trigger] comment_id_text(n),
            ) by {
                assert(before.comments.contains_key(comment_id_text(n)));
            }
            assert forall|id: Seq<char>| #[trigger] after.comments.contains_key(id) implies exists|n: nat|
                1 <= n <= after.counter() && id == #[trigger] comment_id_text(n) by {
                assert(before.comments.contains_key(id));
                let n = choose|n: nat| 1 <= n <= before.counter() && id == #[trigger] comment_id_text(n);
                assert(1 <= n <= after.counter() && id == comment_id_text(n));
            }
        }
        assert(after.mentors_consistent()) by {
            assert forall|m: Seq<char>| #[trigger] after.mentors.contains_key(m) implies {
                &&& after.mentors[m].created_by == m
                &&& after.mentors[m].comments.no_duplicates()
                &&& forall|id: Seq<char>|
                    after.mentors[m].comments.contains(id) <==> after.comments.contains_key(id)
                        && after.comments[id].mentor_id == m
            } by {
                assert(before.mentors.contains_key(m));
            }
        }
        assert(after.users_consistent()) by {
            assert forall|u: Seq<char>| #[trigger] after.users.contains_key(u) implies {
                &&& after.users[u].id == u
                &&& after.users[u].posted_comments.no_duplicates()
                &&& forall|id: Seq<char>|
                    after.users[u].posted_comments.contains(id) <==> after.comments.contains_key(id)
                        && after.comments[id].created_by == u
            } by {
                assert(before.users.contains_key(u));
            }
        }
        assert(after.votes_consistent()) by {
            assert forall|k: VoteKey| #[trigger] after.votes.contains_key(k) implies (after.votes[k] == 1
                || after.votes[k] == -1) && after.comments.contains_key(k.1) by {
                if k != key {
                    assert(before.votes.contains_key(k));
                }
            }
        }
    }
}

/// Updating a mentor profile leaves a consistent ledger consistent.
pub proof fn lemma_update_mentor_keeps_consistent(
    before: Ledger,
    caller: Seq<char>,
    now: u64,
    name: Option<Seq<char>>,
    institution: Option<Seq<char>>,
    department: Option<Seq<char>>,
    avatar: Option<Seq<char>>,
    links: Option<Seq<Seq<char>>>,
)
    requires
        before.consistent(),
    ensures
        before.update_mentor(caller, now, name, institution, department, avatar, links) matches Ok(after)
            ==> after.consistent(),
{
    if let Ok(after) = before.update_mentor(caller, now, name, institution, department, avatar, links) {
        assert(after.counter() == before.counter());
        assert(after.mentors.dom() =~= before.mentors.dom());
        assert forall|m: Seq<char>| #[trigger] after.mentors.contains_key(m) implies {
            &&& after.mentors[m].created_by == m
            &&& after.mentors[m].comments.no_duplicates()
            &&& forall|id: Seq<char>|
                after.mentors[m].comments.contains(id) <==> after.comments.contains_key(id)
                    && after.comments[id].mentor_id == m
        } by {
            assert(before.mentors.contains_key(m));
        }
    }
}

/// Setting a user's institution leaves a consistent ledger consistent.
pub proof fn lemma_update_user_institution_keeps_consistent(
    before: Ledger,
    caller: Seq<char>,
    institution: Option<Seq<char>>,
)
    requires
        before.consistent(),
    ensures
        before.update_user_institution(caller, institution).consistent(),
{
    let after = before.update_user_institution(caller, institution);
    assert(after.counter() == before.counter());
    lemma_user_or_fresh_is_consistent(before, caller);
    assert forall|u: Seq<char>| #[trigger] after.users.contains_key(u) implies {
        &&& after.users[u].id == u
        &&& after.users[u].posted_comments.no_duplicates()
        &&& forall|id: Seq<char>|
            after.users[u].posted_comments.contains(id) <==> after.comments.contains_key(id)
                && after.comments[id].created_by == u
    } by {
        if u != caller {
            assert(before.users.contains_key(u));
        }
    }
    assert forall|id: Seq<char>| #[trigger] after.comments.contains_key(id) implies after.users.contains_key(
        after.comments[id].created_by,
    ) by {
        assert(before.comments.contains_key(id));
    }
}

/// Whatever a message asks for, the mutation leaves a consistent ledger
/// consistent.
pub proof fn lemma_outcome_keeps_consistent(msg: ExecuteMsg, before: Ledger, caller: Seq<char>, now: u64)
    requires
        before.consistent(),
    ensures
        msg.outcome(before, caller, now) matches Ok(after) ==> after.consistent(),
{
    match msg {
        ExecuteMsg::CreateMentor { name, institution, department, avatar, links } => {
            lemma_create_mentor_keeps_consistent(
                before,
                caller,
                now,
                name@,
                institution@,
                department@,
                crate::state::opt_text(avatar),
                crate::state::texts(links@),
            );
        },
        ExecuteMsg::CreateComment { mentor_id, rating, comment } => {
            lemma_create_comment_keeps_consistent(before, caller, now, mentor_id@, rating, comment@);
        },
        ExecuteMsg::VoteComment { comment_id, vote } => {
            lemma_vote_comment_keeps_consistent(before, caller, comment_id@, vote as int);
        },
        ExecuteMsg::UpdateMentor { name, institution, department, avatar, links } => {
            lemma_update_mentor_keeps_consistent(
                before,
                caller,
                now,
                crate::state::opt_text(name),
                crate::state::opt_text(institution),
                crate::state::opt_text(department),
                crate::state::opt_text(avatar),
                crate::contract::opt_texts(links),
            );
        },
        ExecuteMsg::UpdateUserInstitution { institution } => {
            lemma_update_user_institution_keeps_consistent(before, caller, crate::state::opt_text(institution));
        },
    }
}

/// Every ledger that calls lead to from a new, instantiated store is
/// consistent: in particular, the tally of each comment is the sum of the
/// votes that voters currently have on it.
pub proof fn lemma_reachable_is_consistent(owner: Seq<char>, trace: Seq<Call>)
    ensures
        run(Ledger::empty().instantiate(owner), trace).consistent(),
    decreases trace.len(),
{
    if trace.len() == 0 {
        lemma_instantiate_keeps_consistent(Ledger::empty(), owner);
    } else {
        lemma_reachable_is_consistent(owner, trace.drop_last());
        let before = run(Ledger::empty().instantiate(owner), trace.drop_last());
        let call = trace.last();
        lemma_outcome_keeps_consistent(call.msg, before, call.caller, call.now);
    }
}

/// In a consistent ledger no reference dangles: a mentor and a user are
/// found with every comment of their lists.
pub proof fn lemma_consistent_lists_resolve(before: Ledger, id: Seq<char>)
    requires
        before.consistent(),
    ensures
        before.get_mentor(id) matches Ok(found) ==> found.comments == before.comments_at(found.mentor.comments),
        before.get_user(id) matches Ok(found) ==> found.comments == before.comments_at(
            found.user.posted_comments,
        ),
{
    if before.mentors.contains_key(id) {
        let list = before.mentors[id].comments;
        assert forall|i: int| 0 <= i < list.len() implies before.comments.contains_key(#[trigger] list[i]) by {
            assert(list.contains(list[i]));
        }
        lemma_stored_references_resolve(before, list);
    }
    if before.users.contains_key(id) {
        let list = before.users[id].posted_comments;
        assert forall|i: int| 0 <= i < list.len() implies before.comments.contains_key(#[trigger] list[i]) by {
            assert(list.contains(list[i]));
        }
        lemma_stored_references_resolve(before, list);
    }
}

/// Appending an item that a list without duplicates lacks leaves it
/// without duplicates.
pub proof fn lemma_push_keeps_distinct(list: Seq<Seq<char>>, item: Seq<char>)
    requires
        list.no_duplicates(),
        !list.contains(item),
    ensures
        list.push(item).no_duplicates(),
{
    let longer = list.push(item);
    assert forall|i: int, j: int| 0 <= i < longer.len() && 0 <= j < longer.len() && i != j implies longer[i]
        != longer[j] by {
        if i < list.len() {
            assert(list.contains(list[i]));
        }
        if j < list.len() {
            assert(list.contains(list[j]));
        }
    }
}

/// A list with an item appended contains that item and what it contained.
pub proof fn lemma_push_contains(list: Seq<Seq<char>>, item: Seq<char>, other: Seq<char>)
    ensures
        list.push(item).contains(other) <==> list.contains(other) || other == item,
{
    let longer = list.push(item);
    if longer.contains(other) {
        let i = choose|i: int| 0 <= i < longer.len() && longer[i] == other;
        if i < list.len() {
            assert(list[i] == other);
        }
    }
    if list.contains(other) {
        let i = choose|i: int| 0 <= i < list.len() && list[i] == other;
        assert(longer[i] == other);
    }
    if other == item {
        assert(longer[list.len() as int] == other);
    }
}

} // verus!
