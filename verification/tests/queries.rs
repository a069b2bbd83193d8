use cosmwasm_std::MemoryStorage;
use mentor_x_contracts::contract::execute::{create_comment as post_comment, create_mentor};
use mentor_x_contracts::contract::query::{get_comment, get_mentor, get_user, list_comments, list_mentors};
use mentor_x_contracts::contract::{instantiate, query};
use mentor_x_contracts::error::ContractError;
use mentor_x_contracts::msg::{Env, InstantiateMsg, MessageInfo, QueryMsg, QueryResponse};

fn at(time: u64) -> Env {
    Env { time }
}

fn by(sender: &str) -> MessageInfo {
    MessageInfo { sender: sender.to_string() }
}

fn text(s: &str) -> String {
    s.to_string()
}

fn new_store() -> MemoryStorage {
    let mut store = MemoryStorage::new();
    instantiate(&mut store, at(1), by("owner"), InstantiateMsg {}).unwrap();
    store
}

fn add_mentor(store: &mut MemoryStorage, id: &str) {
    create_mentor(store, at(10), by(id), format!("name of {}", id), text("I"), text("D"), None, vec![]).unwrap();
}

fn names(store: &MemoryStorage, start_after: Option<&str>, limit: Option<u32>) -> Vec<String> {
    list_mentors(store, start_after.map(text), limit)
        .unwrap()
        .mentors
        .into_iter()
        .map(|m| m.created_by)
        .collect()
}

fn ids(store: &MemoryStorage, mentor: Option<&str>, start_after: Option<&str>, limit: Option<u32>) -> Vec<String> {
    list_comments(store, mentor.map(text), start_after.map(text), limit)
        .unwrap()
        .comments
        .into_iter()
        .map(|c| c.id)
        .collect()
}

#[test]
fn point_reads_fail_on_missing_records() {
    let store = new_store();
    assert!(matches!(get_mentor(&store, text("nobody")), Err(ContractError::MentorNotFound {})));
    assert!(matches!(get_user(&store, text("nobody")), Err(ContractError::UserNotFound {})));
    assert!(matches!(get_comment(&store, text("cid1")), Err(ContractError::CommentNotFound {})));
    assert!(matches!(
        query(&store, at(2), QueryMsg::GetMentor { mentor_id: text("nobody") }),
        Err(ContractError::MentorNotFound {})
    ));
    assert!(matches!(
        query(&store, at(2), QueryMsg::GetUser { user_id: text("nobody") }),
        Err(ContractError::UserNotFound {})
    ));
    assert!(matches!(
        query(&store, at(2), QueryMsg::GetComment { comment_id: text("cid1") }),
        Err(ContractError::CommentNotFound {})
    ));
}

#[test]
fn dangling_comment_reference_is_silently_omitted() {
    let mut store = new_store();
    add_mentor(&mut store, "alice");
    post_comment(&mut store, at(20), by("bob"), text("alice"), 9, text("first")).unwrap();
    post_comment(&mut store, at(21), by("bob"), text("alice"), 8, text("second")).unwrap();
    post_comment(&mut store, at(22), by("bob"), text("alice"), 7, text("third")).unwrap();

    // Remove the middle comment behind the contract's back.
    cw_storage_plus::Map::<&str, u8>::new("comments").remove(&mut store, "cid2");

    let alice = get_mentor(&store, text("alice")).unwrap();
    assert_eq!(alice.mentor.comments, vec![text("cid1"), text("cid2"), text("cid3")]);
    let found: Vec<&str> = alice.comments.iter().map(|c| c.id.as_str()).collect();
    assert_eq!(found, vec!["cid1", "cid3"]);

    let bob = get_user(&store, text("bob")).unwrap();
    assert_eq!(bob.user.posted_comments, vec![text("cid1"), text("cid2"), text("cid3")]);
    let found: Vec<&str> = bob.comments.iter().map(|c| c.comment.as_str()).collect();
    assert_eq!(found, vec!["first", "third"]);

    assert!(matches!(get_comment(&store, text("cid2")), Err(ContractError::CommentNotFound {})));
}

#[test]
fn list_mentors_on_empty_store_is_empty() {
    let store = new_store();
    assert!(names(&store, None, None).is_empty());
    assert!(names(&store, Some("a"), Some(5)).is_empty());
}

#[test]
fn list_mentors_caps_the_page_at_thirty() {
    let mut store = new_store();
    for i in 0..35 {
        add_mentor(&mut store, &format!("m{:02}", i));
    }
    let expected = |from: usize, to: usize| (from..to).map(|i| format!("m{:02}", i)).collect::<Vec<_>>();
    // Ten by default.
    assert_eq!(names(&store, None, None), expected(0, 10));
    assert_eq!(names(&store, None, Some(30)), expected(0, 30));
    assert_eq!(names(&store, None, Some(31)), expected(0, 30));
    assert_eq!(names(&store, None, Some(1000)), expected(0, 30));
    assert_eq!(names(&store, None, Some(u32::MAX)), expected(0, 30));
    assert_eq!(names(&store, None, Some(0)), Vec::<String>::new());
    assert_eq!(names(&store, None, Some(1)), expected(0, 1));
    // A page that reaches the end is short.
    assert_eq!(names(&store, Some("m29"), Some(1000)), expected(30, 35));
}

#[test]
fn list_mentors_starts_strictly_after_the_cursor() {
    let mut store = new_store();
    for id in ["b", "ab", "B", "a", "é", "z", "a\u{0}", "aa"] {
        add_mentor(&mut store, id);
    }
    // Keys ascend by the bytes of their UTF-8 encoding.
    let all = vec!["B", "a", "a\u{0}", "aa", "ab", "b", "z", "é"];
    assert_eq!(names(&store, None, Some(30)), all);
    assert_eq!(names(&store, Some("a"), Some(30)), &all[2..]);
    assert_eq!(names(&store, Some("a"), Some(2)), &all[2..4]);
    // A cursor that is no key starts at the next key.
    assert_eq!(names(&store, Some("aaa"), Some(30)), &all[4..]);
    assert_eq!(names(&store, Some(""), Some(30)), all);
    assert_eq!(names(&store, Some("é"), Some(30)), Vec::<String>::new());
    assert_eq!(names(&store, Some("zzz"), Some(30)), vec!["é"]);
}

#[test]
fn pages_of_mentors_walk_the_collection_once() {
    let mut store = new_store();
    for i in 0..25 {
        add_mentor(&mut store, &format!("m{:02}", i));
    }
    let mut seen: Vec<String> = vec![];
    let mut cursor: Option<String> = None;
    loop {
        let page = names(&store, cursor.as_deref(), Some(7));
        if page.is_empty() {
            break;
        }
        cursor = page.last().cloned();
        seen.extend(page);
    }
    assert_eq!(seen, (0..25).map(|i| format!("m{:02}", i)).collect::<Vec<_>>());
}

#[test]
fn list_comments_caps_the_page_at_fifty() {
    let mut store = new_store();
    add_mentor(&mut store, "alice");
    for _ in 0..60 {
        post_comment(&mut store, at(20), by("bob"), text("alice"), 5, text("c")).unwrap();
    }
    assert_eq!(ids(&store, None, None, None).len(), 10);
    assert_eq!(ids(&store, None, None, Some(50)).len(), 50);
    assert_eq!(ids(&store, None, None, Some(51)).len(), 50);
    assert_eq!(ids(&store, None, None, Some(1000)).len(), 50);
    assert_eq!(ids(&store, Some("alice"), None, Some(1000)).len(), 50);
    assert_eq!(ids(&store, Some("alice"), None, None).len(), 10);
    assert_eq!(ids(&store, None, None, Some(0)).len(), 0);
    assert_eq!(ids(&store, Some("alice"), None, Some(0)).len(), 0);
    // Identifiers ascend as text, not as numbers.
    assert_eq!(ids(&store, None, None, Some(4)), vec!["cid1", "cid10", "cid11", "cid12"]);
    assert_eq!(ids(&store, None, Some("cid19"), Some(3)), vec!["cid2", "cid20", "cid21"]);
    assert_eq!(ids(&store, None, Some("cid9"), Some(3)), Vec::<String>::new());
}

#[test]
fn filtered_page_is_short_when_matches_lie_beyond_the_window() {
    let mut store = new_store();
    add_mentor(&mut store, "alice");
    add_mentor(&mut store, "other");
    post_comment(&mut store, at(20), by("bob"), text("alice"), 9, text("first on alice")).unwrap();
    for _ in 0..40 {
        post_comment(&mut store, at(21), by("bob"), text("other"), 5, text("noise")).unwrap();
    }
    post_comment(&mut store, at(22), by("bob"), text("alice"), 8, text("second on alice")).unwrap();
    assert_eq!(get_mentor(&store, text("alice")).unwrap().mentor.comments, vec![text("cid1"), text("cid42")]);

    // With a limit of 5 the window is the first 15 identifiers in text
    // order: cid1, cid10 to cid19, cid2, cid20, cid21, cid22. The second
    // comment on alice, cid42, lies beyond it.
    assert_eq!(ids(&store, Some("alice"), None, Some(5)), vec!["cid1"]);
    // A window that reaches it returns both: 14 * 3 = 42 identifiers are
    // all there are.
    assert_eq!(ids(&store, Some("alice"), None, Some(14)), vec!["cid1", "cid42"]);
    // cid42 is the 37th identifier in text order, so a window of 36 misses
    // it and one of 39 has it.
    assert_eq!(ids(&store, Some("alice"), None, Some(12)), vec!["cid1"]);
    assert_eq!(ids(&store, Some("alice"), None, Some(13)), vec!["cid1", "cid42"]);
    // From a cursor close enough, it is found.
    assert_eq!(ids(&store, Some("alice"), Some("cid4"), Some(5)), vec!["cid42"]);
    // The other mentor fills its pages.
    assert_eq!(ids(&store, Some("other"), None, Some(3)), vec!["cid10", "cid11", "cid12"]);
    assert_eq!(ids(&store, Some("nobody"), None, Some(50)), Vec::<String>::new());
}

#[test]
fn filtered_page_stops_at_the_limit() {
    let mut store = new_store();
    add_mentor(&mut store, "alice");
    add_mentor(&mut store, "other");
    for k in 1..=9 {
        let mentor = if k % 2 == 1 { "alice" } else { "other" };
        post_comment(&mut store, at(20), by("bob"), text(mentor), 5, text("c")).unwrap();
    }
    assert_eq!(ids(&store, Some("alice"), None, Some(2)), vec!["cid1", "cid3"]);
    // The window after cid3 is cid4 to cid9.
    assert_eq!(ids(&store, Some("alice"), Some("cid3"), Some(2)), vec!["cid5", "cid7"]);
    assert_eq!(ids(&store, Some("alice"), Some("cid7"), Some(2)), vec!["cid9"]);
    // A window of three holds cid1 to cid3 only.
    assert_eq!(ids(&store, Some("other"), None, Some(1)), vec!["cid2"]);
    assert_eq!(ids(&store, Some("other"), Some("cid2"), Some(1)), vec!["cid4"]);
}

#[test]
fn query_dispatches_each_message() {
    let mut store = new_store();
    add_mentor(&mut store, "alice");
    add_mentor(&mut store, "carol");
    post_comment(&mut store, at(20), by("bob"), text("alice"), 9, text("first")).unwrap();
    post_comment(&mut store, at(21), by("bob"), text("carol"), 2, text("second")).unwrap();

    match query(&store, at(30), QueryMsg::GetMentor { mentor_id: text("alice") }).unwrap() {
        QueryResponse::Mentor(found) => {
            assert_eq!(found.mentor.name, "name of alice");
            assert_eq!(found.comments.len(), 1);
        }
        other => panic!("unexpected reply {:?}", other),
    }
    match query(&store, at(30), QueryMsg::GetUser { user_id: text("bob") }).unwrap() {
        QueryResponse::User(found) => {
            assert_eq!(found.user.posted_comments, vec![text("cid1"), text("cid2")]);
            assert_eq!(found.comments.len(), 2);
        }
        other => panic!("unexpected reply {:?}", other),
    }
    match query(&store, at(30), QueryMsg::GetComment { comment_id: text("cid2") }).unwrap() {
        QueryResponse::Comment(found) => assert_eq!(found.comment.comment, "second"),
        other => panic!("unexpected reply {:?}", other),
    }
    match query(&store, at(30), QueryMsg::ListMentors { start_after: Some(text("alice")), limit: None }).unwrap() {
        QueryResponse::Mentors(found) => {
            assert_eq!(found.mentors.len(), 1);
            assert_eq!(found.mentors[0].created_by, "carol");
        }
        other => panic!("unexpected reply {:?}", other),
    }
    let msg = QueryMsg::ListComments { mentor_id: Some(text("carol")), start_after: None, limit: Some(5) };
    match query(&store, at(30), msg).unwrap() {
        QueryResponse::Comments(found) => {
            assert_eq!(found.comments.len(), 1);
            assert_eq!(found.comments[0].id, "cid2");
        }
        other => panic!("unexpected reply {:?}", other),
    }
}

#[test]
fn queries_leave_the_store_as_it_was() {
    let mut store = new_store();
    add_mentor(&mut store, "alice");
    post_comment(&mut store, at(20), by("bob"), text("alice"), 9, text("first")).unwrap();
    let before = format!("{:?}", store);
    let _ = get_mentor(&store, text("alice"));
    let _ = get_user(&store, text("bob"));
    let _ = list_mentors(&store, None, Some(1000));
    let _ = list_comments(&store, Some(text("alice")), None, Some(1000));
    assert_eq!(format!("{:?}", store), before);
}
