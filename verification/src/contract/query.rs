//! The queries: point reads that bring along the comments a record refers
//! to, and the two paginated listings. None writes to the store.

use vstd::prelude::*;
use cosmwasm_std::MemoryStorage;
use crate::error::ContractError;
use crate::model::{answers, is_on, page_size, DEFAULT_LIMIT, MAX_COMMENTS, MAX_MENTORS, SCAN_FACTOR};
use crate::msg::{CommentResponse, CommentsResponse, MentorResponse, MentorsResponse, UserResponse};
use crate::order::{first_n, lemma_page_keys_end, lemma_page_keys_step, page_keys};
use crate::state::{comment_views, mentor_views, opt_text, texts, Comment, CommentView, Mentor};
use crate::store::{
    comments_first_after, comments_load, ledger, mentors_first_after, mentors_load, users_load,
    well_formed,
};

verus! {

/// Loads the comments that `ids` refer to, in order, leaving out each
/// identifier under which nothing is stored.
fn load_comments(store: &MemoryStorage, ids: &Vec<String>) -> (comments: Vec<Comment>)
    requires
        well_formed(*store),
    ensures
        comment_views(comments@) == ledger(*store).resolve(texts(ids@)),
{
    let mut comments: Vec<Comment> = Vec::new();
    let mut i: usize = 0;
    assert(texts(ids@.take(0)) =~= Seq::<Seq<char>>::empty());
    assert(comment_views(comments@) =~= Seq::<CommentView>::empty());
    while i < ids.len()
        invariant
            i <= ids.len(),
            well_formed(*store),
            comment_views(comments@) == ledger(*store).resolve(texts(ids@.take(i as int))),
        decreases ids.len() - i,
    {
        let ghost before = texts(ids@.take(i as int));
        let ghost shown = comment_views(comments@);
        proof {
            let now = texts(ids@.take(i + 1));
            assert(now.drop_last() =~= before);
            assert(now.last() == ids@[i as int]@);
        }
        match comments_load(store, ids[i].as_str()) {
            Ok(comment) => {
                comments.push(comment);
                assert(comment_views(comments@) =~= shown + seq![comment@]);
            },
            Err(_) => {},
        }
        i += 1;
    }
    assert(ids@.take(i as int) =~= ids@);
    comments
}

/// The mentor stored for `mentor_id` with every comment of its list that is
/// stored; `MentorNotFound` where no mentor is stored for it.
pub fn get_mentor(store: &MemoryStorage, mentor_id: String) -> (r: Result<MentorResponse, ContractError>)
    requires
        well_formed(*store),
    ensures
        answers(ledger(*store).get_mentor(mentor_id@), r),
{
    let mentor = match mentors_load(store, mentor_id.as_str()) {
        Ok(mentor) => mentor,
        Err(_) => {
            return Err(ContractError::MentorNotFound {});
        },
    };
    let comments = load_comments(store, &mentor.comments);
    Ok(MentorResponse { mentor, comments })
}

/// The user stored for `user_id` with every comment of its list that is
/// stored; `UserNotFound` where no user is stored for it.
pub fn get_user(store: &MemoryStorage, user_id: String) -> (r: Result<UserResponse, ContractError>)
    requires
        well_formed(*store),
    ensures
        answers(ledger(*store).get_user(user_id@), r),
{
    let user = match users_load(store, user_id.as_str()) {
        Ok(user) => user,
        Err(_) => {
            return Err(ContractError::UserNotFound {});
        },
    };
    let comments = load_comments(store, &user.posted_comments);
    Ok(UserResponse { user, comments })
}

/// The comment stored under `comment_id`; `CommentNotFound` where none is.
pub fn get_comment(store: &MemoryStorage, comment_id: String) -> (r: Result<CommentResponse, ContractError>)
    requires
        well_formed(*store),
    ensures
        answers(ledger(*store).get_comment(comment_id@), r),
{
    match comments_load(store, comment_id.as_str()) {
        Ok(comment) => Ok(CommentResponse { comment }),
        Err(_) => Err(ContractError::CommentNotFound {}),
    }
}

/// The limit asked for, ten where none is, and never more than `cap`.
fn capped(limit: Option<u32>, cap: u32) -> (size: usize)
    ensures
        size == page_size(limit, cap),
{
    let asked: u32 = match limit {
        Some(n) => n,
        None => DEFAULT_LIMIT,
    };
    if asked < cap {
        asked as usize
    } else {
        cap as usize
    }
}

/// The key a cursor stands at, borrowed.
fn cursor_key(cursor: &Option<String>) -> (key: Option<&str>)
    ensures
        crate::store::opt_key(key) == opt_text(*cursor),
{
    match cursor {
        Some(key) => Some(key.as_str()),
        None => None,
    }
}

/// One page of mentors in ascending order of identity, starting with the
/// first identity beyond `start_after`. The page holds `limit` mentors, ten
/// where no limit is given and never more than thirty, or fewer where the
/// collection ends before.
pub fn list_mentors(store: &MemoryStorage, start_after: Option<String>, limit: Option<u32>) -> (r: Result<
    MentorsResponse,
    ContractError,
>)
    requires
        well_formed(*store),
    ensures
        answers(Ok(ledger(*store).list_mentors(opt_text(start_after), limit)), r),
{
    let size = capped(limit, MAX_MENTORS);
    let ghost all = ledger(*store);
    let ghost keys = all.mentors.dom();
    let ghost start = opt_text(start_after);
    let ghost mut walked: Seq<Seq<char>> = Seq::empty();
    let mut mentors: Vec<Mentor> = Vec::new();
    let mut cursor = start_after;
    let mut ended = false;
    assert(mentor_views(mentors@) =~= all.mentors_at(walked));
    assert(walked + page_keys(keys, start, size as nat) =~= page_keys(keys, start, size as nat));
    while !ended && mentors.len() < size
        invariant
            well_formed(*store),
            all == ledger(*store),
            keys == all.mentors.dom(),
            mentors.len() <= size,
            mentor_views(mentors@) == all.mentors_at(walked),
            page_keys(keys, start, size as nat) == walked + page_keys(
                keys,
                opt_text(cursor),
                (size - mentors.len()) as nat,
            ),
            ended ==> page_keys(keys, opt_text(cursor), (size - mentors.len()) as nat).len() == 0,
        decreases size - mentors.len() + if ended { 0int } else { 1int },
    {
        let ghost left = (size - mentors.len()) as nat;
        let ghost rest = page_keys(keys, opt_text(cursor), left);
        let ghost shown = mentor_views(mentors@);
        match mentors_first_after(store, cursor_key(&cursor)) {
            None => {
                proof {
                    lemma_page_keys_end(keys, opt_text(cursor), left);
                }
                ended = true;
            },
            Some(Err(e)) => {
                return Err(ContractError::Std(e));
            },
            Some(Ok((key, mentor))) => {
                proof {
                    lemma_page_keys_step(keys, opt_text(cursor), left, key@);
                    let next = page_keys(keys, Some(key@), (left - 1) as nat);
                    assert(walked + rest =~= walked.push(key@) + next);
                    assert(all.mentors_at(walked.push(key@)) =~= all.mentors_at(walked).push(mentor@));
                    walked = walked.push(key@);
                }
                mentors.push(mentor);
                assert(mentor_views(mentors@) =~= shown.push(mentor@));
                cursor = Some(key);
            },
        }
    }
    assert(page_keys(keys, start, size as nat) =~= walked);
    Ok(MentorsResponse { mentors })
}

/// One page of comments in ascending order of identifier, starting with the
/// first identifier beyond `start_after`; `limit` is ten where none is given
/// and never more than fifty.
///
/// Without `mentor_id` the page holds the next `limit` comments. With it,
/// the next three times `limit` comments are walked, and the page holds the
/// first `limit` of those walked that are on that mentor: comments on the
/// mentor that lie beyond the window are left out, so a page may come back
/// short, or empty, while more would match.
pub fn list_comments(
    store: &MemoryStorage,
    mentor_id: Option<String>,
    start_after: Option<String>,
    limit: Option<u32>,
) -> (r: Result<CommentsResponse, ContractError>)
    requires
        well_formed(*store),
    ensures
        answers(Ok(ledger(*store).list_comments(opt_text(mentor_id), opt_text(start_after), limit)), r),
{
    let size = capped(limit, MAX_COMMENTS);
    match mentor_id {
        Some(mentor) => match scan_comments_on(store, &mentor, start_after, size) {
            Ok(comments) => Ok(CommentsResponse { comments }),
            Err(e) => Err(e),
        },
        None => match scan_comments(store, start_after, size) {
            Ok(comments) => Ok(CommentsResponse { comments }),
            Err(e) => Err(e),
        },
    }
}

/// The next `size` comments beyond `start_after`.
fn scan_comments(store: &MemoryStorage, start_after: Option<String>, size: usize) -> (r: Result<
    Vec<Comment>,
    ContractError,
>)
    requires
        well_formed(*store),
    ensures
        r matches Ok(comments) && comment_views(comments@) == ledger(*store).comments_at(
            page_keys(ledger(*store).comments.dom(), opt_text(start_after), size as nat),
        ),
{
    let ghost all = ledger(*store);
    let ghost keys = all.comments.dom();
    let ghost start = opt_text(start_after);
    let ghost mut walked: Seq<Seq<char>> = Seq::empty();
    let mut comments: Vec<Comment> = Vec::new();
    let mut cursor = start_after;
    let mut ended = false;
    assert(comment_views(comments@) =~= all.comments_at(walked));
    assert(walked + page_keys(keys, start, size as nat) =~= page_keys(keys, start, size as nat));
    while !ended && comments.len() < size
        invariant
            well_formed(*store),
            all == ledger(*store),
            keys == all.comments.dom(),
            comments.len() <= size,
            comment_views(comments@) == all.comments_at(walked),
            page_keys(keys, start, size as nat) == walked + page_keys(
                keys,
                opt_text(cursor),
                (size - comments.len()) as nat,
            ),
            ended ==> page_keys(keys, opt_text(cursor), (size - comments.len()) as nat).len() == 0,
        decreases size - comments.len() + if ended { 0int } else { 1int },
    {
        let ghost left = (size - comments.len()) as nat;
        let ghost rest = page_keys(keys, opt_text(cursor), left);
        let ghost shown = comment_views(comments@);
        match comments_first_after(store, cursor_key(&cursor)) {
            None => {
                proof {
                    lemma_page_keys_end(keys, opt_text(cursor), left);
                }
                ended = true;
            },
            Some(Err(e)) => {
                return Err(ContractError::Std(e));
            },
            Some(Ok((key, comment))) => {
                proof {
                    lemma_page_keys_step(keys, opt_text(cursor), left, key@);
                    let next = page_keys(keys, Some(key@), (left - 1) as nat);
                    assert(walked + rest =~= walked.push(key@) + next);
                    assert(all.comments_at(walked.push(key@)) =~= all.comments_at(walked).push(comment@));
                    walked = walked.push(key@);
                }
                comments.push(comment);
                assert(comment_views(comments@) =~= shown.push(comment@));
                cursor = Some(key);
            },
        }
    }
    assert(page_keys(keys, start, size as nat) =~= walked);
    Ok(comments)
}

/// Walks the next three times `size` comments beyond `start_after` and keeps
/// the first `size` of them that are on `mentor`.
fn scan_comments_on(store: &MemoryStorage, mentor: &String, start_after: Option<String>, size: usize) -> (r:
    Result<Vec<Comment>, ContractError>)
    requires
        well_formed(*store),
        size <= MAX_COMMENTS,
    ensures
        r matches Ok(comments) && comment_views(comments@) == first_n(
            ledger(*store).comments_at(
                page_keys(ledger(*store).comments.dom(), opt_text(start_after), (SCAN_FACTOR * size) as nat),
            ).filter(is_on(mentor@)),
            size as nat,
        ),
{
    let factor: usize = SCAN_FACTOR as usize;
    assert(size * factor == SCAN_FACTOR * size && size * factor <= 150) by (nonlinear_arith)
        requires
            size <= 50,
            factor == 3,
            SCAN_FACTOR == 3,
    ;
    let window: usize = size * factor;
    let ghost all = ledger(*store);
    let ghost keys = all.comments.dom();
    let ghost start = opt_text(start_after);
    let ghost on_mentor = is_on(mentor@);
    let ghost mut walked: Seq<Seq<char>> = Seq::empty();
    let mut comments: Vec<Comment> = Vec::new();
    let mut cursor = start_after;
    let mut scanned: usize = 0;
    let mut ended = false;
    proof {
        reveal(Seq::filter);
        assert(comment_views(comments@) =~= all.comments_at(walked).filter(on_mentor));
        assert(walked + page_keys(keys, start, window as nat) =~= page_keys(keys, start, window as nat));
    }
    while !ended && scanned < window && comments.len() < size
        invariant
            well_formed(*store),
            all == ledger(*store),
            keys == all.comments.dom(),
            on_mentor == is_on(mentor@),
            scanned <= window,
            comments.len() <= size,
            comment_views(comments@) == all.comments_at(walked).filter(on_mentor),
            page_keys(keys, start, window as nat) == walked + page_keys(
                keys,
                opt_text(cursor),
                (window - scanned) as nat,
            ),
            ended ==> page_keys(keys, opt_text(cursor), (window - scanned) as nat).len() == 0,
        decreases window - scanned + if ended { 0int } else { 1int },
    {
        let ghost left = (window - scanned) as nat;
        let ghost rest = page_keys(keys, opt_text(cursor), left);
        let ghost shown = comment_views(comments@);
        match comments_first_after(store, cursor_key(&cursor)) {
            None => {
                proof {
                    lemma_page_keys_end(keys, opt_text(cursor), left);
                }
                ended = true;
            },
            Some(Err(e)) => {
                return Err(ContractError::Std(e));
            },
            Some(Ok((key, comment))) => {
                proof {
                    lemma_page_keys_step(keys, opt_text(cursor), left, key@);
                    let next = page_keys(keys, Some(key@), (left - 1) as nat);
                    assert(walked + rest =~= walked.push(key@) + next);
                    assert(all.comments_at(walked.push(key@)) =~= all.comments_at(walked).push(comment@));
                    all.comments_at(walked).lemma_filter_push(comment@, on_mentor);
                    walked = walked.push(key@);
                }
                if comment.mentor_id == *mentor {
                    comments.push(comment);
                    assert(comment_views(comments@) =~= shown.push(comment@));
                }
                cursor = Some(key);
                scanned += 1;
            },
        }
    }
    proof {
        let rest = page_keys(keys, opt_text(cursor), (window - scanned) as nat);
        let kept = all.comments_at(walked).filter(on_mentor);
        let full = all.comments_at(walked + rest).filter(on_mentor);
        assert(all.comments_at(walked + rest) =~= all.comments_at(walked) + all.comments_at(rest));
        Seq::filter_distributes_over_add(all.comments_at(walked), all.comments_at(rest), on_mentor);
        if rest.len() == 0 {
            assert(all.comments_at(rest).filter(on_mentor) =~= Seq::<CommentView>::empty());
            assert(full =~= kept);
        }
        assert(first_n(full, size as nat) =~= kept);
    }
    Ok(comments)
}

} // verus!
