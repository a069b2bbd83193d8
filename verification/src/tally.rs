//! The sum of the votes stored on a comment, and how a change of one vote
//! changes it.

use vstd::prelude::*;
use vstd::utf8::encode_utf8;

verus! {

/// A key of the vote collection: the voter and the comment voted on.
pub type VoteKey = (Seq<char>, Seq<char>);

/// The voter's identity fits the first part of a vote's key, which holds
/// 65535 bytes at most.
pub open spec fn fits_vote_key(voter: Seq<char>) -> bool {
    encode_utf8(voter).len() <= 0xFFFF
}

/// What the vote stored under `key` counts towards `comment_id`: its value
/// where it is a vote on that comment, and nothing otherwise.
pub open spec fn weight(votes: Map<VoteKey, int>, comment_id: Seq<char>, key: VoteKey) -> int {
    if key.1 == comment_id {
        votes[key]
    } else {
        0
    }
}

/// The sum of what the votes under `keys` count towards `comment_id`.
pub open spec fn tally_over(votes: Map<VoteKey, int>, keys: Set<VoteKey>, comment_id: Seq<char>) -> int
    decreases keys.len(),
    when keys.finite()
{
    if keys.len() == 0 {
        0
    } else {
        let key = keys.choose();
        weight(votes, comment_id, key) + tally_over(votes, keys.remove(key), comment_id)
    }
}

/// The sum of all votes stored on `comment_id`.
pub open spec fn tally(votes: Map<VoteKey, int>, comment_id: Seq<char>) -> int {
    tally_over(votes, votes.dom(), comment_id)
}

/// Any key of the set can be taken out of the sum first.
pub proof fn lemma_tally_over_remove(votes: Map<VoteKey, int>, keys: Set<VoteKey>, comment_id: Seq<char>, key: VoteKey)
    requires
        keys.finite(),
        keys.contains(key),
    ensures
        tally_over(votes, keys, comment_id) == weight(votes, comment_id, key) + tally_over(
            votes,
            keys.remove(key),
            comment_id,
        ),
    decreases keys.len(),
{
    let chosen = keys.choose();
    if keys.len() == 0 {
        assert(keys =~= Set::empty());
    } else if chosen != key {
        lemma_tally_over_remove(votes, keys.remove(chosen), comment_id, key);
        lemma_tally_over_remove(votes, keys.remove(key), comment_id, chosen);
        assert(keys.remove(chosen).remove(key) =~= keys.remove(key).remove(chosen));
    }
}

/// Two vote maps that count the same under every key of the set have the
/// same sum over it.
pub proof fn lemma_tally_over_same(
    votes: Map<VoteKey, int>,
    others: Map<VoteKey, int>,
    keys: Set<VoteKey>,
    comment_id: Seq<char>,
)
    requires
        keys.finite(),
        forall|key: VoteKey| #[trigger]
            keys.contains(key) ==> weight(votes, comment_id, key) == weight(others, comment_id, key),
    ensures
        tally_over(votes, keys, comment_id) == tally_over(others, keys, comment_id),
    decreases keys.len(),
{
    if keys.len() > 0 {
        let chosen = keys.choose();
        assert(keys.contains(chosen));
        lemma_tally_over_same(votes, others, keys.remove(chosen), comment_id);
    }
}

/// A comment on which no vote is stored has a tally of zero.
pub proof fn lemma_tally_without_votes(votes: Map<VoteKey, int>, comment_id: Seq<char>)
    requires
        votes.dom().finite(),
        forall|key: VoteKey| #[trigger] votes.contains_key(key) ==> key.1 != comment_id,
    ensures
        tally(votes, comment_id) == 0,
{
    lemma_tally_over_zero(votes, votes.dom(), comment_id);
}

proof fn lemma_tally_over_zero(votes: Map<VoteKey, int>, keys: Set<VoteKey>, comment_id: Seq<char>)
    requires
        keys.finite(),
        forall|key: VoteKey| #[trigger] keys.contains(key) ==> key.1 != comment_id,
    ensures
        tally_over(votes, keys, comment_id) == 0,
    decreases keys.len(),
{
    if keys.len() > 0 {
        let chosen = keys.choose();
        assert(keys.contains(chosen));
        lemma_tally_over_zero(votes, keys.remove(chosen), comment_id);
    }
}

/// The vote stored under `key`, 0 where none is.
pub open spec fn stored(votes: Map<VoteKey, int>, key: VoteKey) -> int {
    if votes.contains_key(key) {
        votes[key]
    } else {
        0
    }
}

/// Storing `vote` under `key` moves the tally of the comment voted on by
/// the difference to the vote stored before, and no other tally.
pub proof fn lemma_tally_after_insert(votes: Map<VoteKey, int>, key: VoteKey, vote: int, comment_id: Seq<char>)
    requires
        votes.dom().finite(),
    ensures
        tally(votes.insert(key, vote), comment_id) == tally(votes, comment_id) + if key.1 == comment_id {
            vote - stored(votes, key)
        } else {
            0
        },
{
    let after = votes.insert(key, vote);
    let rest = votes.dom().remove(key);
    assert(after.dom().remove(key) =~= rest);
    lemma_tally_over_remove(after, after.dom(), comment_id, key);
    lemma_tally_over_same(after, votes, rest, comment_id);
    if votes.contains_key(key) {
        lemma_tally_over_remove(votes, votes.dom(), comment_id, key);
    } else {
        assert(rest =~= votes.dom());
    }
}

/// Removing the vote under `key` takes it out of the tally of the comment
/// voted on, and changes no other tally.
pub proof fn lemma_tally_after_remove(votes: Map<VoteKey, int>, key: VoteKey, comment_id: Seq<char>)
    requires
        votes.dom().finite(),
    ensures
        tally(votes.remove(key), comment_id) == tally(votes, comment_id) - if key.1 == comment_id {
            stored(votes, key)
        } else {
            0
        },
{
    let after = votes.remove(key);
    let rest = votes.dom().remove(key);
    assert(after.dom() =~= rest);
    lemma_tally_over_same(after, votes, rest, comment_id);
    if votes.contains_key(key) {
        lemma_tally_over_remove(votes, votes.dom(), comment_id, key);
    } else {
        assert(rest =~= votes.dom());
    }
}

} // verus!
