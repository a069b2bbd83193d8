//! Decimal text of integers, and the minting of comment identifiers from
//! the stored counter.

use vstd::prelude::*;
use vstd::string::StringExecFns;
use cosmwasm_std::MemoryStorage;
use crate::error::ContractError;
use crate::state::State;
use crate::store::{ledger, state_load, state_save, well_formed};

verus! {

/// The character of one decimal digit.
pub open spec fn digit_char(d: nat) -> char {
    if d == 0 {
        '0'
    } else if d == 1 {
        '1'
    } else if d == 2 {
        '2'
    } else if d == 3 {
        '3'
    } else if d == 4 {
        '4'
    } else if d == 5 {
        '5'
    } else if d == 6 {
        '6'
    } else if d == 7 {
        '7'
    } else if d == 8 {
        '8'
    } else {
        '9'
    }
}

/// The decimal digits of `n`, most significant first, without leading zeros.
pub open spec fn decimal_text(n: nat) -> Seq<char>
    decreases n,
{
    if n < 10 {
        seq![digit_char(n)]
    } else {
        decimal_text(n / 10).push(digit_char(n % 10))
    }
}

/// The decimal text of an integer, with a minus sign where it is negative.
pub open spec fn signed_text(i: int) -> Seq<char> {
    if i < 0 {
        seq!['-'] + decimal_text((-i) as nat)
    } else {
        decimal_text(i as nat)
    }
}

/// The identifier of the `n`-th comment: `cid` followed by `n` in decimal.
pub open spec fn comment_id_text(n: nat) -> Seq<char> {
    seq!['c', 'i', 'd'] + decimal_text(n)
}

fn digit_str(d: u64) -> (r: &'static str)
    requires
        d < 10,
    ensures
        r@ == seq![digit_char(d as nat)],
{
    proof {
        reveal_strlit("0");
        reveal_strlit("1");
        reveal_strlit("2");
        reveal_strlit("3");
        reveal_strlit("4");
        reveal_strlit("5");
        reveal_strlit("6");
        reveal_strlit("7");
        reveal_strlit("8");
        reveal_strlit("9");
    }
    let r = if d == 0 {
        "0"
    } else if d == 1 {
        "1"
    } else if d == 2 {
        "2"
    } else if d == 3 {
        "3"
    } else if d == 4 {
        "4"
    } else if d == 5 {
        "5"
    } else if d == 6 {
        "6"
    } else if d == 7 {
        "7"
    } else if d == 8 {
        "8"
    } else {
        "9"
    };
    assert(r@ =~= seq![digit_char(d as nat)]);
    r
}

/// Formats `n` in decimal.
pub fn decimal(n: u64) -> (r: String)
    ensures
        r@ == decimal_text(n as nat),
    decreases n,
{
    if n < 10 {
        String::from_str(digit_str(n))
    } else {
        let mut s = decimal(n / 10);
        s.append(digit_str(n % 10));
        assert(s@ =~= decimal_text(n as nat));
        s
    }
}

/// Formats `i` in decimal, with a minus sign where it is negative.
pub fn signed(i: i32) -> (r: String)
    ensures
        r@ == signed_text(i as int),
{
    let wide: i64 = i as i64;
    if wide < 0 {
        proof {
            reveal_strlit("-");
        }
        let mut s = String::from_str("-");
        let digits = decimal((-wide) as u64);
        s.append(digits.as_str());
        assert(s@ =~= signed_text(i as int));
        s
    } else {
        decimal(wide as u64)
    }
}

/// Formats the identifier of the `n`-th comment.
pub fn comment_id(n: u64) -> (r: String)
    ensures
        r@ == comment_id_text(n as nat),
{
    proof {
        reveal_strlit("cid");
    }
    let mut s = String::from_str("cid");
    let digits = decimal(n);
    s.append(digits.as_str());
    assert(s@ =~= comment_id_text(n as nat));
    s
}

/// Decimal text is never empty, and is a single digit exactly below ten.
pub proof fn lemma_decimal_text_len(n: nat)
    ensures
        decimal_text(n).len() >= 1,
        n < 10 <==> decimal_text(n).len() == 1,
    decreases n,
{
    if n >= 10 {
        lemma_decimal_text_len(n / 10);
    }
}

/// Different numbers have different decimal texts.
pub proof fn lemma_decimal_text_injective(a: nat, b: nat)
    requires
        decimal_text(a) == decimal_text(b),
    ensures
        a == b,
    decreases a,
{
    lemma_decimal_text_len(a);
    lemma_decimal_text_len(b);
    if a < 10 {
        assert(decimal_text(a)[0] == digit_char(a));
        assert(decimal_text(b)[0] == digit_char(b));
    } else {
        let ta = decimal_text(a / 10);
        let tb = decimal_text(b / 10);
        assert(ta.push(digit_char(a % 10)).last() == digit_char(a % 10));
        assert(tb.push(digit_char(b % 10)).last() == digit_char(b % 10));
        assert(ta.push(digit_char(a % 10)).drop_last() =~= ta);
        assert(tb.push(digit_char(b % 10)).drop_last() =~= tb);
        lemma_decimal_text_injective(a / 10, b / 10);
    }
}

/// Different counter values mint different identifiers.
pub proof fn lemma_comment_id_text_injective(a: nat, b: nat)
    requires
        comment_id_text(a) == comment_id_text(b),
    ensures
        a == b,
{
    assert(comment_id_text(a).skip(3) =~= decimal_text(a));
    assert(comment_id_text(b).skip(3) =~= decimal_text(b));
    lemma_decimal_text_injective(a, b);
}

/// The owner record; a store error where none is stored, as before
/// instantiation.
pub fn owner_state(store: &MemoryStorage) -> (r: Result<State, ContractError>)
    requires
        well_formed(*store),
    ensures
        match r {
            Ok(state) => ledger(*store).state == Some(state@),
            Err(e) => e is Std && ledger(*store).state is None,
        },
{
    match state_load(store) {
        Ok(state) => Ok(state),
        Err(e) => Err(ContractError::Std(e)),
    }
}

/// Advances the stored counter by one and returns the identifier minted
/// from its new value. Fails, leaving the store as it was, where no owner
/// record is stored.
pub fn next_comment_id(store: &mut MemoryStorage) -> (r: Result<String, ContractError>)
    requires
        well_formed(*old(store)),
        ledger(*old(store)).state matches Some(state) ==> state.comment_counter < u64::MAX,
    ensures
        well_formed(*final(store)),
        match r {
            Ok(id) => match ledger(*old(store)).state {
                Some(state) => {
                    &&& id@ == comment_id_text(state.comment_counter + 1)
                    &&& ledger(*final(store)) == ledger(*old(store)).put_state(
                        crate::state::StateView { comment_counter: state.comment_counter + 1, ..state },
                    )
                },
                None => false,
            },
            Err(e) => e is Std && ledger(*old(store)).state is None && ledger(*final(store)) == ledger(
                *old(store),
            ),
        },
{
    let mut state: State = match state_load(store) {
        Ok(state) => state,
        Err(e) => {
            return Err(ContractError::Std(e));
        },
    };
    state.comment_counter += 1;
    let id = comment_id(state.comment_counter);
    match state_save(store, state) {
        Ok(()) => Ok(id),
        Err(e) => Err(ContractError::Std(e)),
    }
}

} // verus!
