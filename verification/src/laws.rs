//! What holds of the contract across calls, proved over the ledger model
//! that the contracts of the entry points are stated in.

use vstd::prelude::*;
use crate::ident::{comment_id_text, lemma_comment_id_text_injective};
use crate::model::{is_on, page_size, Ledger, Refusal, MAX_COMMENTS, MAX_MENTORS, SCAN_FACTOR};
use crate::msg::{ExecuteMsg, MentorResponseView};
use crate::order::{key_lt, lemma_page_keys_ascend, lemma_past_excludes_bound, page_keys};
use crate::state::{CommentView, MentorView};

verus! {

/// A mentor that was just created is found under the creator's identity,
/// with exactly the fields submitted, stamped with the creator and the time
/// of creation, and with no comments.
pub proof fn lemma_created_mentor_is_found(
    before: Ledger,
    caller: Seq<char>,
    now: u64,
    name: Seq<char>,
    institution: Seq<char>,
    department: Seq<char>,
    avatar: Option<Seq<char>>,
    links: Seq<Seq<char>>,
)
    requires
        before.create_mentor(caller, now, name, institution, department, avatar, links) is Ok,
    ensures
        before.create_mentor(caller, now, name, institution, department, avatar, links).unwrap().get_mentor(
            caller,
        ) == Ok::<MentorResponseView, Refusal>(
            MentorResponseView {
                mentor: MentorView {
                    name,
                    institution,
                    department,
                    avatar,
                    created_at: now,
                    created_by: caller,
                    links,
                    updated_at: now,
                    updated_by: caller,
                    comments: Seq::empty(),
                },
                comments: Seq::empty(),
            },
        ),
{
    let after = before.create_mentor(caller, now, name, institution, department, avatar, links).unwrap();
    assert(after.resolve(Seq::empty()) =~= Seq::<CommentView>::empty());
}

/// Once an identity has a mentor profile, creating one for it again fails
/// with `MentorAlreadyExists`, whatever the fields submitted.
pub proof fn lemma_mentor_is_created_once(
    before: Ledger,
    caller: Seq<char>,
    now: u64,
    name: Seq<char>,
    institution: Seq<char>,
    department: Seq<char>,
    avatar: Option<Seq<char>>,
    links: Seq<Seq<char>>,
    again_now: u64,
    again_name: Seq<char>,
    again_institution: Seq<char>,
    again_department: Seq<char>,
    again_avatar: Option<Seq<char>>,
    again_links: Seq<Seq<char>>,
)
    requires
        before.create_mentor(caller, now, name, institution, department, avatar, links) is Ok,
    ensures
        before.create_mentor(caller, now, name, institution, department, avatar, links).unwrap().create_mentor(
            caller,
            again_now,
            again_name,
            again_institution,
            again_department,
            again_avatar,
            again_links,
        ) == Err::<Ledger, Refusal>(Refusal::MentorAlreadyExists),
{
}

/// A rating outside 1 to 10 is refused as `InvalidRating`, whatever else
/// holds; a refusal leaves every record as it was.
pub proof fn lemma_rating_out_of_range_is_refused(
    before: Ledger,
    caller: Seq<char>,
    now: u64,
    mentor_id: Seq<char>,
    rating: u8,
    text: Seq<char>,
)
    requires
        rating < 1 || rating > 10,
    ensures
        before.create_comment(caller, now, mentor_id, rating, text) == Err::<Ledger, Refusal>(
            Refusal::InvalidRating,
        ),
{
}

/// Creating a comment appends its identifier, and nothing else, to the end
/// of the commented mentor's list and of the author's list; no other mentor
/// or user changes, and the comment is stored under that identifier.
pub proof fn lemma_comment_is_appended_once(
    before: Ledger,
    caller: Seq<char>,
    now: u64,
    mentor_id: Seq<char>,
    rating: u8,
    text: Seq<char>,
)
    requires
        before.create_comment(caller, now, mentor_id, rating, text) is Ok,
    ensures
        ({
            let after = before.create_comment(caller, now, mentor_id, rating, text).unwrap();
            let id = before.next_id();
            &&& after.mentors[mentor_id].comments == before.mentors[mentor_id].comments.push(id)
            &&& after.users[caller].posted_comments == before.user_or_fresh(caller).posted_comments.push(id)
            &&& after.comments.contains_key(id) && after.comments[id].id == id
            &&& after.comments[id].likes == 0
            &&& after.mentors.dom() == before.mentors.dom()
            &&& after.users.dom() == before.users.dom().insert(caller)
            &&& forall|other: Seq<char>|
                other != mentor_id && before.mentors.contains_key(other) ==> after.mentors[other]
                    == before.mentors[other]
            &&& forall|other: Seq<char>|
                other != caller && before.users.contains_key(other) ==> after.users[other] == before.users[other]
        }),
{
    let after = before.create_comment(caller, now, mentor_id, rating, text).unwrap();
    assert(after.mentors.dom() =~= before.mentors.dom());
    assert(after.users.dom() =~= before.users.dom().insert(caller));
}

/// One call of a trace: who asks, when, and for what.
pub struct Call {
    pub caller: Seq<char>,
    pub now: u64,
    pub msg: ExecuteMsg,
}

impl Call {
    /// The ledger after this call: what the mutation makes of it, or the
    /// same ledger where the call is refused.
    pub open spec fn apply(self, before: Ledger) -> Ledger {
        match self.msg.outcome(before, self.caller, self.now) {
            Ok(after) => after,
            Err(_) => before,
        }
    }

    /// This call creates a comment on `before`.
    pub open spec fn creates_comment(self, before: Ledger) -> bool {
        self.msg is CreateComment && self.msg.outcome(before, self.caller, self.now) is Ok
    }
}

/// The ledger after the calls of `trace`, made in order.
pub open spec fn run(start: Ledger, trace: Seq<Call>) -> Ledger
    decreases trace.len(),
{
    if trace.len() == 0 {
        start
    } else {
        trace.last().apply(run(start, trace.drop_last()))
    }
}

/// How many calls of `trace` create a comment.
pub open spec fn comments_created(start: Ledger, trace: Seq<Call>) -> nat
    decreases trace.len(),
{
    if trace.len() == 0 {
        0
    } else {
        let earlier = comments_created(start, trace.drop_last());
        if trace.last().creates_comment(run(start, trace.drop_last())) {
            earlier + 1
        } else {
            earlier
        }
    }
}

/// Over the lifetime of an instance the counter is the number of comments
/// created so far: after any calls on a freshly instantiated ledger, the
/// next comment gets `cid` followed by one more than that number. With
/// `lemma_comment_id_text_injective`, no identifier is minted twice.
pub proof fn lemma_identifiers_count_comments(fresh: Ledger, owner: Seq<char>, trace: Seq<Call>)
    ensures
        run(fresh.instantiate(owner), trace).state is Some,
        run(fresh.instantiate(owner), trace).state.unwrap().comment_counter == comments_created(
            fresh.instantiate(owner),
            trace,
        ),
        run(fresh.instantiate(owner), trace).next_id() == comment_id_text(
            comments_created(fresh.instantiate(owner), trace) + 1,
        ),
    decreases trace.len(),
{
    if trace.len() > 0 {
        lemma_identifiers_count_comments(fresh, owner, trace.drop_last());
    }
}

/// The identifiers minted at two different values of the counter differ.
pub proof fn lemma_identifiers_never_repeat(earlier: nat, later: nat)
    requires
        earlier != later,
    ensures
        comment_id_text(earlier) != comment_id_text(later),
{
    if comment_id_text(earlier) == comment_id_text(later) {
        lemma_comment_id_text_injective(earlier, later);
    }
}

/// The ledger after one voter casts the votes of `votes` on one comment, in
/// order.
pub open spec fn cast_all(start: Ledger, voter: Seq<char>, comment_id: Seq<char>, votes: Seq<int>) -> Ledger
    decreases votes.len(),
{
    if votes.len() == 0 {
        start
    } else {
        let earlier = cast_all(start, voter, comment_id, votes.drop_last());
        match earlier.vote_comment(voter, comment_id, votes.last()) {
            Ok(after) => after,
            Err(_) => earlier,
        }
    }
}

/// Only the last vote of a voter counts: after any sequence of valid votes
/// by one voter on one comment, the tally is the one before the sequence,
/// less the vote the voter had then, plus the last vote cast; and that last
/// vote is the one recorded, or none where it is 0. A voter without a vote
/// before the sequence so moves the tally by exactly the last vote.
pub proof fn lemma_last_vote_counts(start: Ledger, voter: Seq<char>, comment_id: Seq<char>, votes: Seq<int>)
    requires
        start.comments.contains_key(comment_id),
        votes.len() > 0,
        forall|i: int| 0 <= i < votes.len() ==> -1 <= #[trigger] votes[i] <= 1,
    ensures
        ({
            let after = cast_all(start, voter, comment_id, votes);
            &&& after.comments.contains_key(comment_id)
            &&& after.comments[comment_id].likes == start.comments[comment_id].likes - start.current_vote(
                voter,
                comment_id,
            ) + votes.last()
            &&& after.current_vote(voter, comment_id) == votes.last()
            &&& after.votes.contains_key((voter, comment_id)) <==> votes.last() != 0
            &&& start.current_vote(voter, comment_id) == 0 ==> after.comments[comment_id].likes
                == start.comments[comment_id].likes + votes.last()
        }),
    decreases votes.len(),
{
    let earlier = cast_all(start, voter, comment_id, votes.drop_last());
    if votes.len() > 1 {
        lemma_last_vote_counts(start, voter, comment_id, votes.drop_last());
    }
}

/// Votes of different voters add up, in whichever order they are cast: two
/// voters who each like a comment leave the same ledger either way, with a
/// tally that lost their earlier votes and gained 2. Where neither had
/// voted before, the tally is 2 more than it was.
pub proof fn lemma_two_likes_add_up(start: Ledger, first: Seq<char>, second: Seq<char>, comment_id: Seq<char>)
    requires
        first != second,
        start.comments.contains_key(comment_id),
    ensures
        ({
            let one_way = start.vote_comment(first, comment_id, 1).unwrap().vote_comment(second, comment_id, 1);
            let other_way = start.vote_comment(second, comment_id, 1).unwrap().vote_comment(first, comment_id, 1);
            &&& one_way is Ok
            &&& one_way == other_way
            &&& one_way.unwrap().comments[comment_id].likes == start.comments[comment_id].likes
                - start.current_vote(first, comment_id) - start.current_vote(second, comment_id) + 2
            &&& start.current_vote(first, comment_id) == 0 && start.current_vote(second, comment_id) == 0
                ==> one_way.unwrap().comments[comment_id].likes == start.comments[comment_id].likes + 2
        }),
{
    let one_way = start.vote_comment(first, comment_id, 1).unwrap().vote_comment(second, comment_id, 1).unwrap();
    let other_way = start.vote_comment(second, comment_id, 1).unwrap().vote_comment(first, comment_id, 1).unwrap();
    assert(one_way.comments =~= other_way.comments);
    assert(one_way.votes =~= other_way.votes);
}

/// A page of mentors holds at most as many as the limit asked for, ten
/// where none is asked for, and at most thirty whatever is asked for; and
/// it holds only mentors stored under identities beyond `start_after`: never the
/// one stored under `start_after` itself, nor one under an identity before
/// it. The identities are those of `page_keys`, so they ascend strictly.
pub proof fn lemma_mentor_page_is_capped_and_past(before: Ledger, start_after: Option<Seq<char>>, limit: Option<u32>)
    ensures
        ({
            let page = page_keys(before.mentors.dom(), start_after, page_size(limit, MAX_MENTORS));
            &&& before.list_mentors(start_after, limit) == before.mentors_at(page)
            &&& before.list_mentors(start_after, limit).len() == page.len()
            &&& page.len() <= page_size(limit, MAX_MENTORS)
            &&& page.len() <= 30
            &&& limit matches Some(asked) ==> page.len() <= asked
            &&& limit is None ==> page.len() <= 10
            &&& forall|i: int|
                0 <= i < page.len() ==> {
                    &&& before.mentors.contains_key(#[trigger] page[i])
                    &&& before.list_mentors(start_after, limit)[i] == before.mentors[page[i]]
                    &&& start_after matches Some(bound) ==> page[i] != bound && key_lt(bound, page[i])
                        && !key_lt(page[i], bound)
                }
        }),
{
    let page = page_keys(before.mentors.dom(), start_after, page_size(limit, MAX_MENTORS));
    lemma_page_keys_ascend(before.mentors.dom(), start_after, page_size(limit, MAX_MENTORS));
    assert forall|i: int| 0 <= i < page.len() implies (start_after matches Some(bound) ==> page[i] != bound
        && key_lt(bound, #[trigger] page[i]) && !key_lt(page[i], bound)) by {
        if let Some(bound) = start_after {
            lemma_past_excludes_bound(bound, page[i]);
        }
    }
}

/// A page of comments holds at most as many as the limit asked for, ten
/// where none is asked for, and at most fifty whatever is asked for,
/// whether or not a mentor is given.
pub proof fn lemma_comment_page_is_capped(
    before: Ledger,
    mentor_id: Option<Seq<char>>,
    start_after: Option<Seq<char>>,
    limit: Option<u32>,
)
    ensures
        before.list_comments(mentor_id, start_after, limit).len() <= page_size(limit, MAX_COMMENTS),
        before.list_comments(mentor_id, start_after, limit).len() <= 50,
        limit matches Some(asked) ==> before.list_comments(mentor_id, start_after, limit).len() <= asked,
        limit is None ==> before.list_comments(mentor_id, start_after, limit).len() <= 10,
{
    let size = page_size(limit, MAX_COMMENTS);
    lemma_page_keys_ascend(before.comments.dom(), start_after, size);
}

/// A page of comments asked for one mentor holds comments on that mentor
/// only.
pub proof fn lemma_filtered_page_is_on_mentor(
    before: Ledger,
    mentor_id: Seq<char>,
    start_after: Option<Seq<char>>,
    limit: Option<u32>,
)
    ensures
        forall|i: int|
            0 <= i < before.list_comments(Some(mentor_id), start_after, limit).len() ==> (
            #[trigger] before.list_comments(Some(mentor_id), start_after, limit)[i]).mentor_id == mentor_id,
{
    let size = page_size(limit, MAX_COMMENTS);
    let walked = before.comments_at(page_keys(before.comments.dom(), start_after, (SCAN_FACTOR * size) as nat));
    let kept = walked.filter(is_on(mentor_id));
    let page = before.list_comments(Some(mentor_id), start_after, limit);
    assert forall|i: int| 0 <= i < page.len() implies (#[trigger] page[i]).mentor_id == mentor_id by {
        assert(page[i] == kept[i]);
        walked.lemma_filter_pred(is_on(mentor_id), i);
    }
}

/// An identifier under which no comment is stored adds nothing to what a
/// list of identifiers resolves to: the other comments come out as if the
/// identifier were not in the list.
pub proof fn lemma_dangling_reference_is_skipped(before: Ledger, ids: Seq<Seq<char>>, at: int)
    requires
        0 <= at < ids.len(),
        !before.comments.contains_key(ids[at]),
    ensures
        before.resolve(ids) == before.resolve(ids.remove(at)),
    decreases ids.len(),
{
    if at == ids.len() - 1 {
        assert(ids.remove(at) =~= ids.drop_last());
    } else {
        lemma_dangling_reference_is_skipped(before, ids.drop_last(), at);
        assert(ids.remove(at).drop_last() =~= ids.drop_last().remove(at));
        assert(ids.remove(at).last() == ids.last());
    }
}

/// Where a comment is stored under every identifier of a list, the list
/// resolves to those comments, one for one.
pub proof fn lemma_stored_references_resolve(before: Ledger, ids: Seq<Seq<char>>)
    requires
        forall|i: int| 0 <= i < ids.len() ==> before.comments.contains_key(#[trigger] ids[i]),
    ensures
        before.resolve(ids) == before.comments_at(ids),
    decreases ids.len(),
{
    if ids.len() > 0 {
        lemma_stored_references_resolve(before, ids.drop_last());
        assert(before.comments_at(ids) =~= before.comments_at(ids.drop_last()).push(before.comments[ids.last()]));
        assert(before.resolve(ids) =~= before.resolve(ids.drop_last()).push(before.comments[ids.last()]));
    } else {
        assert(before.resolve(ids) =~= before.comments_at(ids));
    }
}

} // verus!
