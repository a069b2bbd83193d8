use cosmwasm_std::testing::{mock_dependencies, mock_env};
use cosmwasm_std::{coins, Coin};
use mentor_x_contracts::contract::{execute, instantiate, query};
use mentor_x_contracts::ident::owner_state;
use mentor_x_contracts::msg::{Env, ExecuteMsg, InstantiateMsg, MessageInfo, QueryMsg, QueryResponse};

/// The block the mock host runs a call in.
fn env() -> Env {
    Env { time: mock_env().block.time.nanos() }
}

/// A call by `sender`; the funds sent along play no part in the contract.
fn mock_info(sender: &str, _funds: &[Coin]) -> MessageInfo {
    MessageInfo { sender: sender.to_string() }
}

#[test]
fn proper_initialization() {
    let mut deps = mock_dependencies();

    let msg = InstantiateMsg {};
    let info = mock_info("creator", &coins(1000, "earth"));

    let res = instantiate(&mut deps.storage, env(), info, msg).unwrap();
    assert_eq!(0, res.messages.len());

    let state = owner_state(&deps.storage).unwrap();
    assert_eq!(state.comment_counter, 0);
    assert_eq!(state.owner, "creator");
}

#[test]
fn contract_create_mentor() {
    let mut deps = mock_dependencies();

    let msg = InstantiateMsg {};
    let info = mock_info("creator", &coins(2, "token"));
    let _res = instantiate(&mut deps.storage, env(), info, msg).unwrap();

    let info = mock_info("mentor1", &coins(2, "token"));
    let msg = ExecuteMsg::CreateMentor {
        name: "Ivy".to_string(),
        institution: "野鸡大学".to_string(),
        department: "计算机学院".to_string(),
        avatar: Some("https://avatars.githubusercontent.com/u/103652334?v=4".to_string()),
        links: vec!["https://github.com/yuchangongzhu".to_string()],
    };
    let _res = execute(&mut deps.storage, env(), info, msg).unwrap();

    let res = query(&deps.storage, env(), QueryMsg::GetMentor { mentor_id: "mentor1".to_string() }).unwrap();
    let mentor_response = match res {
        QueryResponse::Mentor(found) => found,
        other => panic!("unexpected reply {:?}", other),
    };
    assert_eq!(mentor_response.mentor.name, "Ivy");
    assert_eq!(mentor_response.mentor.institution, "野鸡大学");
    assert_eq!(mentor_response.comments.len(), 0);
}

#[test]
fn create_comment() {
    let mut deps = mock_dependencies();

    let msg = InstantiateMsg {};
    let info = mock_info("creator", &coins(2, "token"));
    let _res = instantiate(&mut deps.storage, env(), info, msg).unwrap();

    let info = mock_info("mentor1", &coins(2, "token"));
    let msg = ExecuteMsg::CreateMentor {
        name: "Ivy".to_string(),
        institution: "野鸡大学".to_string(),
        department: "计算机学院".to_string(),
        avatar: None,
        links: vec![],
    };
    let _res = execute(&mut deps.storage, env(), info, msg).unwrap();

    let info = mock_info("student1", &coins(2, "token"));
    let msg = ExecuteMsg::CreateComment {
        mentor_id: "mentor1".to_string(),
        rating: 9,
        comment: "Ivy老师是世界上最好的老师".to_string(),
    };
    let _res = execute(&mut deps.storage, env(), info, msg).unwrap();

    let res = query(&deps.storage, env(), QueryMsg::GetMentor { mentor_id: "mentor1".to_string() }).unwrap();
    let mentor_response = match res {
        QueryResponse::Mentor(found) => found,
        other => panic!("unexpected reply {:?}", other),
    };
    assert_eq!(mentor_response.comments.len(), 1);
    assert_eq!(mentor_response.comments[0].rating, 9);
    assert_eq!(mentor_response.comments[0].comment, "Ivy老师是世界上最好的老师");
}

#[test]
fn vote_comment() {
    let mut deps = mock_dependencies();

    let msg = InstantiateMsg {};
    let info = mock_info("creator", &coins(2, "token"));
    let _res = instantiate(&mut deps.storage, env(), info, msg).unwrap();

    let info = mock_info("mentor1", &coins(2, "token"));
    let msg = ExecuteMsg::CreateMentor {
        name: "Ivy".to_string(),
        institution: "野鸡大学".to_string(),
        department: "计算机学院".to_string(),
        avatar: None,
        links: vec![],
    };
    let _res = execute(&mut deps.storage, env(), info, msg).unwrap();

    let info = mock_info("student1", &coins(2, "token"));
    let msg = ExecuteMsg::CreateComment {
        mentor_id: "mentor1".to_string(),
        rating: 9,
        comment: "Great teacher!".to_string(),
    };
    let _res = execute(&mut deps.storage, env(), info, msg).unwrap();

    let info = mock_info("voter1", &coins(2, "token"));
    let msg = ExecuteMsg::VoteComment { comment_id: "cid1".to_string(), vote: 1 };
    let _res = execute(&mut deps.storage, env(), info, msg).unwrap();

    let res = query(&deps.storage, env(), QueryMsg::GetComment { comment_id: "cid1".to_string() }).unwrap();
    let comment_response = match res {
        QueryResponse::Comment(found) => found,
        other => panic!("unexpected reply {:?}", other),
    };
    assert_eq!(comment_response.comment.likes, 1);
}
