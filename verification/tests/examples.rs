use cosmwasm_std::testing::{mock_dependencies, mock_env};
use cosmwasm_std::{coins, Coin};
use mentor_x_contracts::contract::{execute, instantiate, query};
use mentor_x_contracts::msg::{Env, ExecuteMsg, InstantiateMsg, MessageInfo, QueryMsg, QueryResponse};

fn mock_info(sender: &str, _funds: &[Coin]) -> MessageInfo {
    MessageInfo { sender: sender.to_string() }
}

#[test]
fn test_full_workflow() {
    let mut deps = mock_dependencies();
    let env = Env { time: mock_env().block.time.nanos() };

    let instantiate_msg = InstantiateMsg {};
    let info = mock_info("creator", &coins(1000, "token"));
    let _res = instantiate(&mut deps.storage, env.clone(), info, instantiate_msg).unwrap();

    let mentor_info = mock_info("mentor1", &coins(0, "token"));
    let create_mentor_msg = ExecuteMsg::CreateMentor {
        name: "Dr. Ivy".to_string(),
        institution: "MIT".to_string(),
        department: "CS".to_string(),
        avatar: None,
        links: vec![],
    };
    let _res = execute(&mut deps.storage, env.clone(), mentor_info, create_mentor_msg).unwrap();

    let student_info = mock_info("student1", &coins(0, "token"));
    let create_comment_msg = ExecuteMsg::CreateComment {
        mentor_id: "mentor1".to_string(),
        rating: 8,
        comment: "Great teacher!".to_string(),
    };
    let _res = execute(&mut deps.storage, env.clone(), student_info, create_comment_msg).unwrap();

    let voter_info = mock_info("voter1", &coins(0, "token"));
    let vote_msg = ExecuteMsg::VoteComment { comment_id: "cid1".to_string(), vote: 1 };
    let _res = execute(&mut deps.storage, env.clone(), voter_info, vote_msg).unwrap();

    let query_msg = QueryMsg::GetMentor { mentor_id: "mentor1".to_string() };
    let res = query(&deps.storage, env, query_msg).unwrap();
    match res {
        QueryResponse::Mentor(found) => {
            assert_eq!(found.mentor.name, "Dr. Ivy");
            assert_eq!(found.mentor.comments, vec!["cid1".to_string()]);
            assert_eq!(found.comments.len(), 1);
            assert_eq!(found.comments[0].rating, 8);
            assert_eq!(found.comments[0].likes, 1);
        }
        other => panic!("unexpected reply {:?}", other),
    }
}
