use cosmwasm_std::testing::mock_env;
use cosmwasm_std::MemoryStorage;
use mentor_x_contracts::contract::{execute, instantiate};
use mentor_x_contracts::contract::query::get_mentor;
use mentor_x_contracts::msg::{Env, ExecuteMsg, InstantiateMsg, MessageInfo};

const USER: &str = "USER";
const ADMIN: &str = "ADMIN";

fn env() -> Env {
    Env { time: mock_env().block.time.nanos() }
}

/// A store as it is right after the admin instantiated the contract.
fn proper_instantiate() -> MemoryStorage {
    let mut store = MemoryStorage::new();
    let msg = InstantiateMsg {};
    instantiate(&mut store, env(), MessageInfo { sender: ADMIN.to_string() }, msg).unwrap();
    store
}

#[test]
fn integration_tests_create_mentor() {
    let mut store = proper_instantiate();

    let msg = ExecuteMsg::CreateMentor {
        name: "Ivy".to_string(),
        institution: "野鸡大学".to_string(),
        department: "计算机学院".to_string(),
        avatar: Some("https://avatars.githubusercontent.com/u/103652334?v=4".to_string()),
        links: vec!["https://github.com/yuchangongzhu".to_string()],
    };
    execute(&mut store, env(), MessageInfo { sender: USER.to_string() }, msg).unwrap();

    let found = get_mentor(&store, USER.to_string()).unwrap();
    assert_eq!(found.mentor.created_by, USER);
    assert_eq!(found.mentor.links, vec!["https://github.com/yuchangongzhu".to_string()]);
}
