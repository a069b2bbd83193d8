//! The order in which the store walks the keys of a collection, and the
//! pages that cursor pagination cuts out of it.
//!
//! Keys are compared as the store compares them: by the bytes of their
//! UTF-8 encoding, lexicographically.

use vstd::prelude::*;
use vstd::utf8::{encode_utf8, encode_utf8_decode_utf8};

verus! {

/// `a` comes strictly before `b` in lexicographic byte order.
pub open spec fn bytes_lt(a: Seq<u8>, b: Seq<u8>) -> bool
    decreases a.len(),
{
    if b.len() == 0 {
        false
    } else if a.len() == 0 {
        true
    } else if a[0] != b[0] {
        a[0] < b[0]
    } else {
        bytes_lt(a.drop_first(), b.drop_first())
    }
}

/// Key `a` is walked strictly before key `b`.
pub open spec fn key_lt(a: Seq<char>, b: Seq<char>) -> bool {
    bytes_lt(encode_utf8(a), encode_utf8(b))
}

/// `key` lies beyond the exclusive lower bound `after`; without a bound
/// every key does.
pub open spec fn past(after: Option<Seq<char>>, key: Seq<char>) -> bool {
    match after {
        Some(bound) => key_lt(bound, key),
        None => true,
    }
}

/// `key` is the first key of `keys` beyond `after`.
pub open spec fn is_first_past(keys: Set<Seq<char>>, after: Option<Seq<char>>, key: Seq<char>) -> bool {
    &&& keys.contains(key)
    &&& past(after, key)
    &&& forall|other: Seq<char>| #[trigger]
        keys.contains(other) && past(after, other) ==> other == key || key_lt(key, other)
}

/// No key of `keys` lies beyond `after`.
pub open spec fn none_past(keys: Set<Seq<char>>, after: Option<Seq<char>>) -> bool {
    forall|key: Seq<char>| #[trigger] keys.contains(key) ==> !past(after, key)
}

/// The keys of one page: up to `n` keys of `keys` beyond `after`, in
/// ascending order, with none skipped.
pub open spec fn page_keys(keys: Set<Seq<char>>, after: Option<Seq<char>>, n: nat) -> Seq<Seq<char>>
    decreases n,
{
    if n == 0 || !exists|key: Seq<char>| is_first_past(keys, after, key) {
        Seq::empty()
    } else {
        let first = choose|key: Seq<char>| is_first_past(keys, after, key);
        seq![first] + page_keys(keys, Some(first), (n - 1) as nat)
    }
}

/// The first `n` items of `items`, or all of them if there are fewer.
pub open spec fn first_n<A>(items: Seq<A>, n: nat) -> Seq<A> {
    if items.len() <= n {
        items
    } else {
        items.take(n as int)
    }
}

pub proof fn lemma_bytes_lt_asymmetric(a: Seq<u8>, b: Seq<u8>)
    ensures
        !(bytes_lt(a, b) && bytes_lt(b, a)),
    decreases a.len(),
{
    if a.len() > 0 && b.len() > 0 && a[0] == b[0] {
        lemma_bytes_lt_asymmetric(a.drop_first(), b.drop_first());
    }
}

pub proof fn lemma_bytes_lt_transitive(a: Seq<u8>, b: Seq<u8>, c: Seq<u8>)
    requires
        bytes_lt(a, b),
        bytes_lt(b, c),
    ensures
        bytes_lt(a, c),
    decreases a.len(),
{
    if a.len() > 0 && a[0] == b[0] && b[0] == c[0] {
        lemma_bytes_lt_transitive(a.drop_first(), b.drop_first(), c.drop_first());
    }
}

/// Of two different byte strings one comes before the other.
pub proof fn lemma_bytes_lt_total(a: Seq<u8>, b: Seq<u8>)
    requires
        a != b,
    ensures
        bytes_lt(a, b) || bytes_lt(b, a),
    decreases a.len(),
{
    if a.len() > 0 && b.len() > 0 && a[0] == b[0] {
        if a.drop_first() == b.drop_first() {
            assert(a =~= seq![a[0]] + a.drop_first());
            assert(b =~= seq![b[0]] + b.drop_first());
        }
        lemma_bytes_lt_total(a.drop_first(), b.drop_first());
    } else if a.len() == 0 && b.len() == 0 {
        assert(a =~= b);
    }
}

/// Of two different keys one is walked before the other.
pub proof fn lemma_key_lt_total(a: Seq<char>, b: Seq<char>)
    requires
        a != b,
    ensures
        key_lt(a, b) || key_lt(b, a),
{
    encode_utf8_decode_utf8(a);
    encode_utf8_decode_utf8(b);
    lemma_bytes_lt_total(encode_utf8(a), encode_utf8(b));
}

/// No key comes before itself, and no two keys come before each other.
pub proof fn lemma_key_lt_asymmetric(a: Seq<char>, b: Seq<char>)
    ensures
        !(key_lt(a, b) && key_lt(b, a)),
        !key_lt(a, a),
{
    lemma_bytes_lt_asymmetric(encode_utf8(a), encode_utf8(b));
    lemma_bytes_lt_asymmetric(encode_utf8(a), encode_utf8(a));
}

pub proof fn lemma_key_lt_transitive(a: Seq<char>, b: Seq<char>, c: Seq<char>)
    requires
        key_lt(a, b),
        key_lt(b, c),
    ensures
        key_lt(a, c),
{
    lemma_bytes_lt_transitive(encode_utf8(a), encode_utf8(b), encode_utf8(c));
}

/// A key beyond a key that is itself beyond the bound is beyond the bound.
pub proof fn lemma_past_step(after: Option<Seq<char>>, mid: Seq<char>, key: Seq<char>)
    requires
        past(after, mid),
        key_lt(mid, key),
    ensures
        past(after, key),
{
    if let Some(bound) = after {
        lemma_key_lt_transitive(bound, mid, key);
    }
}

/// At most one key is the first beyond a bound.
pub proof fn lemma_first_past_unique(keys: Set<Seq<char>>, after: Option<Seq<char>>, a: Seq<char>, b: Seq<char>)
    requires
        is_first_past(keys, after, a),
        is_first_past(keys, after, b),
    ensures
        a == b,
{
    lemma_key_lt_asymmetric(a, b);
}

/// One step of a page: where `first` is the first key beyond `after`, a
/// non-empty page starts with it and goes on from it.
pub proof fn lemma_page_keys_step(keys: Set<Seq<char>>, after: Option<Seq<char>>, n: nat, first: Seq<char>)
    requires
        n > 0,
        is_first_past(keys, after, first),
    ensures
        page_keys(keys, after, n) == seq![first] + page_keys(keys, Some(first), (n - 1) as nat),
{
    let chosen = choose|key: Seq<char>| is_first_past(keys, after, key);
    lemma_first_past_unique(keys, after, first, chosen);
}

/// A page is empty where no key lies beyond the bound.
pub proof fn lemma_page_keys_end(keys: Set<Seq<char>>, after: Option<Seq<char>>, n: nat)
    requires
        none_past(keys, after),
    ensures
        page_keys(keys, after, n) == Seq::<Seq<char>>::empty(),
{
    assert forall|key: Seq<char>| !is_first_past(keys, after, key) by {
        if is_first_past(keys, after, key) {
            assert(keys.contains(key));
        }
    }
}

/// Among finitely many keys of which one lies beyond the bound, one is the
/// first beyond it.
pub proof fn lemma_some_key_is_first(keys: Set<Seq<char>>, after: Option<Seq<char>>, key: Seq<char>)
    requires
        keys.finite(),
        keys.contains(key),
        past(after, key),
    ensures
        exists|first: Seq<char>| is_first_past(keys, after, first),
    decreases keys.len(),
{
    let others = keys.remove(key);
    if exists|other: Seq<char>| others.contains(other) && past(after, other) {
        let other = choose|other: Seq<char>| others.contains(other) && past(after, other);
        lemma_some_key_is_first(others, after, other);
        let least = choose|first: Seq<char>| is_first_past(others, after, first);
        lemma_key_lt_total(key, least);
        if key_lt(key, least) {
            assert forall|k: Seq<char>| #[trigger] keys.contains(k) && past(after, k) implies k == key || key_lt(
                key,
                k,
            ) by {
                if k != key {
                    assert(others.contains(k));
                    if k != least {
                        lemma_key_lt_transitive(key, least, k);
                    }
                }
            }
            assert(is_first_past(keys, after, key));
        } else {
            assert forall|k: Seq<char>| #[trigger] keys.contains(k) && past(after, k) implies k == least
                || key_lt(least, k) by {
                if k != key {
                    assert(others.contains(k));
                }
            }
            assert(is_first_past(keys, after, least));
        }
    } else {
        assert forall|k: Seq<char>| #[trigger] keys.contains(k) && past(after, k) implies k == key || key_lt(
            key,
            k,
        ) by {
            if k != key {
                assert(others.contains(k));
            }
        }
        assert(is_first_past(keys, after, key));
    }
}

/// What a page is: at most `n` keys, each a key of the collection beyond
/// the bound, so never the bound itself nor a key before it, in strictly
/// ascending order.
pub proof fn lemma_page_keys_ascend(keys: Set<Seq<char>>, after: Option<Seq<char>>, n: nat)
    ensures
        page_keys(keys, after, n).len() <= n,
        forall|i: int|
            0 <= i < page_keys(keys, after, n).len() ==> keys.contains(#[trigger] page_keys(keys, after, n)[i])
                && past(after, page_keys(keys, after, n)[i]),
        forall|i: int, j: int|
            0 <= i < j < page_keys(keys, after, n).len() ==> key_lt(
                #[trigger] page_keys(keys, after, n)[i],
                #[trigger] page_keys(keys, after, n)[j],
            ),
    decreases n,
{
    let page = page_keys(keys, after, n);
    if n > 0 && exists|key: Seq<char>| is_first_past(keys, after, key) {
        let first = choose|key: Seq<char>| is_first_past(keys, after, key);
        let rest = page_keys(keys, Some(first), (n - 1) as nat);
        lemma_page_keys_ascend(keys, Some(first), (n - 1) as nat);
        assert(page == seq![first] + rest);
        assert forall|i: int| 0 <= i < page.len() implies keys.contains(#[trigger] page[i]) && past(
            after,
            page[i],
        ) by {
            if i > 0 {
                assert(page[i] == rest[i - 1]);
                lemma_past_step(after, first, rest[i - 1]);
            }
        }
        assert forall|i: int, j: int| 0 <= i < j < page.len() implies key_lt(
            #[trigger] page[i],
            #[trigger] page[j],
        ) by {
            assert(page[j] == rest[j - 1]);
            if i > 0 {
                assert(page[i] == rest[i - 1]);
            }
        }
    }
}

/// A page skips no key: of finitely many keys, one beyond the bound that
/// the page lacks lies beyond the last key of a page that is full.
pub proof fn lemma_page_keys_skip_none(keys: Set<Seq<char>>, after: Option<Seq<char>>, n: nat, key: Seq<char>)
    requires
        keys.finite(),
        keys.contains(key),
        past(after, key),
        !page_keys(keys, after, n).contains(key),
    ensures
        page_keys(keys, after, n).len() == n,
        n > 0 ==> key_lt(page_keys(keys, after, n).last(), key),
    decreases n,
{
    let page = page_keys(keys, after, n);
    if n > 0 {
        lemma_some_key_is_first(keys, after, key);
        let first = choose|k: Seq<char>| is_first_past(keys, after, k);
        let rest = page_keys(keys, Some(first), (n - 1) as nat);
        assert(page == seq![first] + rest);
        assert(page[0] == first);
        assert(key_lt(first, key));
        if rest.contains(key) {
            let i = choose|i: int| 0 <= i < rest.len() && rest[i] == key;
            assert(page[i + 1] == key);
        }
        lemma_page_keys_skip_none(keys, Some(first), (n - 1) as nat, key);
        if rest.len() > 0 {
            assert(page.last() == rest.last());
        }
    }
}

/// A key beyond a bound is neither the bound nor a key before it.
pub proof fn lemma_past_excludes_bound(bound: Seq<char>, key: Seq<char>)
    requires
        past(Some(bound), key),
    ensures
        key != bound,
        !key_lt(key, bound),
{
    lemma_key_lt_asymmetric(bound, key);
}

} // verus!
