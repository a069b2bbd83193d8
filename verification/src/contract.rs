//! The entry points of the contract: instantiation, and the dispatch of
//! mutations and queries by message.

use vstd::prelude::*;
use cosmwasm_std::Empty;
use cosmwasm_std::MemoryStorage;
use cosmwasm_std::Response;
use crate::consistency::lemma_instantiate_keeps_consistent;
use crate::error::ContractError;
use crate::model::{
    answers, create_comment_attributes, create_mentor_attributes, instantiate_attributes, settles,
    update_mentor_attributes, update_user_institution_attributes, vote_comment_attributes, Ledger,
    Limit, Refusal, CONTRACT_NAME, CONTRACT_VERSION,
};
use crate::msg::{Env, ExecuteMsg, InstantiateMsg, MessageInfo, QueryMsg, QueryResponse, QueryResponseView};
use crate::response::{add_attribute, attributes, response_new};
use crate::state::{opt_text, texts, State};
use crate::store::{
    comments_load, ledger, mentors_has, set_contract_version, state_load, state_save, votes_may_load,
    well_formed,
};

pub mod execute;
pub mod query;

verus! {

/// The characters of each string of an optional list.
pub open spec fn opt_texts(items: Option<Vec<String>>) -> Option<Seq<Seq<char>>> {
    match items {
        Some(items) => Some(texts(items@)),
        None => None,
    }
}

impl ExecuteMsg {
    /// What the mutation this message asks for makes of `before`, asked by
    /// `caller` at time `now`.
    pub open spec fn outcome(self, before: Ledger, caller: Seq<char>, now: u64) -> Result<Ledger, Refusal> {
        match self {
            ExecuteMsg::CreateMentor { name, institution, department, avatar, links } => before.create_mentor(
                caller,
                now,
                name@,
                institution@,
                department@,
                opt_text(avatar),
                texts(links@),
            ),
            ExecuteMsg::CreateComment { mentor_id, rating, comment } => before.create_comment(
                caller,
                now,
                mentor_id@,
                rating,
                comment@,
            ),
            ExecuteMsg::VoteComment { comment_id, vote } => before.vote_comment(caller, comment_id@, vote as int),
            ExecuteMsg::UpdateMentor { name, institution, department, avatar, links } => before.update_mentor(
                caller,
                now,
                opt_text(name),
                opt_text(institution),
                opt_text(department),
                opt_text(avatar),
                opt_texts(links),
            ),
            ExecuteMsg::UpdateUserInstitution { institution } => Ok(
                before.update_user_institution(caller, opt_text(institution)),
            ),
        }
    }

    /// The attributes of the reply to this message where it succeeds.
    pub open spec fn reply_attributes(self, before: Ledger, caller: Seq<char>) -> Seq<(Seq<char>, Seq<char>)> {
        match self {
            ExecuteMsg::CreateMentor { name, institution, .. } => create_mentor_attributes(
                caller,
                name@,
                institution@,
            ),
            ExecuteMsg::CreateComment { mentor_id, rating, .. } => create_comment_attributes(
                before.next_id(),
                mentor_id@,
                rating,
            ),
            ExecuteMsg::VoteComment { comment_id, vote } => vote_comment_attributes(
                comment_id@,
                vote as int,
                before.likes_after(caller, comment_id@, vote as int),
            ),
            ExecuteMsg::UpdateMentor { .. } => update_mentor_attributes(caller),
            ExecuteMsg::UpdateUserInstitution { .. } => update_user_institution_attributes(caller),
        }
    }

    /// The first limit of the machine that the mutation this message asks
    /// for runs into, if any.
    pub open spec fn limit(self, before: Ledger, caller: Seq<char>) -> Option<Limit> {
        match self {
            ExecuteMsg::CreateComment { mentor_id, rating, .. } => before.comment_limit(mentor_id@, rating),
            ExecuteMsg::VoteComment { comment_id, vote } => before.vote_limit(caller, comment_id@, vote as int),
            _ => None,
        }
    }

    /// The mutation this message asks for stays within what the machine
    /// holds: the counter can advance, the tally fits, the key of the vote
    /// can be built.
    pub open spec fn in_range(self, before: Ledger, caller: Seq<char>) -> bool {
        match self {
            ExecuteMsg::CreateComment { mentor_id, rating, .. } => before.comment_in_range(mentor_id@, rating),
            ExecuteMsg::VoteComment { comment_id, vote } => before.vote_in_range(
                caller,
                comment_id@,
                vote as int,
            ),
            _ => true,
        }
    }
}

impl QueryMsg {
    /// What this query finds in `ledger`.
    pub open spec fn answer(self, ledger: Ledger) -> Result<QueryResponseView, Refusal> {
        match self {
            QueryMsg::GetMentor { mentor_id } => match ledger.get_mentor(mentor_id@) {
                Ok(found) => Ok(QueryResponseView::Mentor(found)),
                Err(why) => Err(why),
            },
            QueryMsg::GetUser { user_id } => match ledger.get_user(user_id@) {
                Ok(found) => Ok(QueryResponseView::User(found)),
                Err(why) => Err(why),
            },
            QueryMsg::GetComment { comment_id } => match ledger.get_comment(comment_id@) {
                Ok(found) => Ok(QueryResponseView::Comment(found)),
                Err(why) => Err(why),
            },
            QueryMsg::ListMentors { start_after, limit } => Ok(
                QueryResponseView::Mentors(ledger.list_mentors(opt_text(start_after), limit)),
            ),
            QueryMsg::ListComments { mentor_id, start_after, limit } => Ok(
                QueryResponseView::Comments(
                    ledger.list_comments(opt_text(mentor_id), opt_text(start_after), limit),
                ),
            ),
        }
    }
}

/// Records the contract's name and version and stores the owner record:
/// the caller as owner, the comment counter at zero.
pub fn instantiate(store: &mut MemoryStorage, _env: Env, info: MessageInfo, _msg: InstantiateMsg) -> (r: Result<
    Response<Empty>,
    ContractError,
>)
    requires
        well_formed(*old(store)),
    ensures
        well_formed(*final(store)),
        settles(
            ledger(*old(store)),
            ledger(*final(store)),
            Ok(ledger(*old(store)).instantiate(info.sender@)),
            instantiate_attributes(info.sender@),
            r,
        ),
        ledger(*old(store)).consistent() && ledger(*old(store)).state is None ==> ledger(
            *final(store),
        ).consistent(),
{
    proof {
        if ledger(*store).consistent() && ledger(*store).state is None {
            lemma_instantiate_keeps_consistent(ledger(*store), info.sender@);
        }
    }
    let state = State { owner: info.sender.clone(), comment_counter: 0 };
    match set_contract_version(store, CONTRACT_NAME, CONTRACT_VERSION) {
        Ok(()) => {},
        Err(e) => {
            return Err(ContractError::Std(e));
        },
    }
    match state_save(store, state) {
        Ok(()) => {},
        Err(e) => {
            return Err(ContractError::Std(e));
        },
    }
    proof {
        reveal_strlit("method");
        reveal_strlit("owner");
    }
    let reply = response_new();
    let reply = add_attribute(reply, "method", "instantiate");
    let reply = add_attribute(reply, "owner", info.sender.as_str());
    assert(attributes(reply) =~= instantiate_attributes(info.sender@));
    Ok(reply)
}

/// The limit of the machine that the mutation that `msg` asks for would run
/// into on this store, if any. `execute` may be called where there is none.
pub fn limit_hit(store: &MemoryStorage, info: &MessageInfo, msg: &ExecuteMsg) -> (r: Option<Limit>)
    requires
        well_formed(*store),
    ensures
        r == msg.limit(ledger(*store), info.sender@),
        r is None <==> msg.in_range(ledger(*store), info.sender@),
{
    match msg {
        ExecuteMsg::CreateComment { mentor_id, rating, .. } => {
            if *rating < 1 || *rating > 10 || !mentors_has(store, mentor_id.as_str()) {
                return None;
            }
            match state_load(store) {
                Ok(state) => if state.comment_counter < u64::MAX {
                    None
                } else {
                    Some(Limit::Counter)
                },
                Err(_) => None,
            }
        },
        ExecuteMsg::VoteComment { comment_id, vote } => {
            if *vote < -1 || *vote > 1 {
                return None;
            }
            let comment = match comments_load(store, comment_id.as_str()) {
                Ok(comment) => comment,
                Err(_) => {
                    return None;
                },
            };
            if info.sender.as_str().as_bytes().len() > 0xFFFF {
                return Some(Limit::VoteKey);
            }
            let previous: i64 = match votes_may_load(store, info.sender.as_str(), comment_id.as_str()) {
                Ok(Some(vote)) => vote as i64,
                _ => 0,
            };
            let without: i64 = comment.likes as i64 - previous;
            let with: i64 = without + *vote as i64;
            if without < i32::MIN as i64 || without > i32::MAX as i64 {
                Some(Limit::TallyWithout)
            } else if with < i32::MIN as i64 || with > i32::MAX as i64 {
                Some(Limit::TallyWith)
            } else {
                None
            }
        },
        _ => None,
    }
}

/// Whether the mutation that `msg` asks for stays within what the machine
/// holds on this store, so that `execute` may be called with it.
pub fn in_range(store: &MemoryStorage, info: &MessageInfo, msg: &ExecuteMsg) -> (ok: bool)
    requires
        well_formed(*store),
    ensures
        ok == msg.in_range(ledger(*store), info.sender@),
{
    limit_hit(store, info, msg).is_none()
}

/// Runs the mutation that `msg` asks for, on behalf of the caller.
pub fn execute(store: &mut MemoryStorage, env: Env, info: MessageInfo, msg: ExecuteMsg) -> (r: Result<
    Response<Empty>,
    ContractError,
>)
    requires
        well_formed(*old(store)),
        msg.in_range(ledger(*old(store)), info.sender@),
    ensures
        well_formed(*final(store)),
        settles(
            ledger(*old(store)),
            ledger(*final(store)),
            msg.outcome(ledger(*old(store)), info.sender@, env.time),
            msg.reply_attributes(ledger(*old(store)), info.sender@),
            r,
        ),
        ledger(*old(store)).consistent() ==> ledger(*final(store)).consistent(),
{
    match msg {
        ExecuteMsg::CreateMentor { name, institution, department, avatar, links } => execute::create_mentor(
            store,
            env,
            info,
            name,
            institution,
            department,
            avatar,
            links,
        ),
        ExecuteMsg::CreateComment { mentor_id, rating, comment } => execute::create_comment(
            store,
            env,
            info,
            mentor_id,
            rating,
            comment,
        ),
        ExecuteMsg::VoteComment { comment_id, vote } => execute::vote_comment(store, info, comment_id, vote),
        ExecuteMsg::UpdateMentor { name, institution, department, avatar, links } => execute::update_mentor(
            store,
            env,
            info,
            name,
            institution,
            department,
            avatar,
            links,
        ),
        ExecuteMsg::UpdateUserInstitution { institution } => execute::update_user_institution(
            store,
            info,
            institution,
        ),
    }
}

/// Answers the query that `msg` asks.
pub fn query(store: &MemoryStorage, _env: Env, msg: QueryMsg) -> (r: Result<QueryResponse, ContractError>)
    requires
        well_formed(*store),
    ensures
        answers(msg.answer(ledger(*store)), r),
{
    match msg {
        QueryMsg::GetMentor { mentor_id } => match query::get_mentor(store, mentor_id) {
            Ok(reply) => Ok(QueryResponse::Mentor(reply)),
            Err(e) => Err(e),
        },
        QueryMsg::GetUser { user_id } => match query::get_user(store, user_id) {
            Ok(reply) => Ok(QueryResponse::User(reply)),
            Err(e) => Err(e),
        },
        QueryMsg::GetComment { comment_id } => match query::get_comment(store, comment_id) {
            Ok(reply) => Ok(QueryResponse::Comment(reply)),
            Err(e) => Err(e),
        },
        QueryMsg::ListMentors { start_after, limit } => match query::list_mentors(store, start_after, limit) {
            Ok(reply) => Ok(QueryResponse::Mentors(reply)),
            Err(e) => Err(e),
        },
        QueryMsg::ListComments { mentor_id, start_after, limit } => match query::list_comments(
            store,
            mentor_id,
            start_after,
            limit,
        ) {
            Ok(reply) => Ok(QueryResponse::Comments(reply)),
            Err(e) => Err(e),
        },
    }
}

} // verus!
