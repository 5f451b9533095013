use rulebook::agent::{Agent, AgentError, AgentStep};
use rulebook::player::{PlayerId, RoomInfo, SessionInfo};
use rulebook::session::{Config, SessionPhase};
use rulebook::wire::DecodeError;

use PlayerId::{Blue, Red};

fn agent_of(player: PlayerId, enable_state: bool) -> Agent {
    let info = SessionInfo { room: RoomInfo { players: vec![Red, Blue] }, player };
    Agent::new(info, Config { enable_state, enable_logging: true })
}

fn reply(text: &str) -> AgentStep {
    AgentStep::Answer { state: None, reply: text.to_string() }
}

#[test]
fn client_answers_the_room_it_was_greeted_with() {
    let mut agent = agent_of(Blue, true);
    assert_eq!(agent.current_phase(), SessionPhase::Starting);
    assert_eq!(agent.handle(r#"{"type":"sessionStart"}"#), reply(r#"{"players":["red","blue"]}"#));
    assert_eq!(agent.current_phase(), SessionPhase::Running);
    assert_eq!(
        agent.handle(r#"{"type":"updateState","data":[1]}"#),
        AgentStep::Answer { state: Some("[1]".to_string()), reply: "null".to_string() }
    );
    assert_eq!(agent.handle(r#"{"type":"sessionEnd"}"#), reply("null"));
    assert_eq!(agent.current_phase(), SessionPhase::Ended);
    assert_eq!(
        agent.handle(r#"{"type":"sessionStart"}"#),
        AgentStep::Failed(AgentError::NotRunning)
    );
}

#[test]
fn client_keeps_both_switches() {
    let agent = agent_of(Blue, false);
    assert_eq!(agent.conf(), Config { enable_state: false, enable_logging: true });
}

#[test]
fn client_hides_state_where_not_enabled() {
    let mut agent = agent_of(Blue, false);
    assert_eq!(agent.handle(r#"{"type":"updateState","data":[1]}"#), reply("null"));
}

#[test]
fn client_inside_a_scope_goes_on_and_waits_for_the_close() {
    let mut agent = agent_of(Red, false);
    assert_eq!(
        agent.handle(r#"{"type":"doTaskIf","data":{"allowed":["red"]}}"#),
        reply(r#"{"type":"doTask"}"#)
    );
    assert_eq!(
        agent.handle(r#"{"type":"taskDone","data":{"targets":[],"value":null}}"#),
        AgentStep::Receive
    );
    assert_eq!(agent.received(r#"{"type":"doTask"}"#), reply("null"));
}

#[test]
fn client_inside_a_scope_must_be_told_to_go_on() {
    let mut agent = agent_of(Red, false);
    agent.handle(r#"{"type":"taskDone","data":{"targets":[],"value":null}}"#);
    assert_eq!(
        agent.received(r#"{"type":"restricted"}"#),
        AgentStep::Failed(AgentError::ExpectedDoTask)
    );
    assert_eq!(agent.current_phase(), SessionPhase::Failed);
}

#[test]
fn client_outside_a_scope_waits_for_the_result() {
    let mut agent = agent_of(Blue, false);
    let open = r#"{"type":"doTaskIf","data":{"allowed":["red"]}}"#;
    assert_eq!(agent.handle(open), AgentStep::Receive);
    assert_eq!(
        agent.received(r#"{ "type": "syncResult", "data": 7 }"#),
        reply(r#"{"type":"syncResult","data":7}"#)
    );
    assert_eq!(agent.handle(open), AgentStep::Receive);
    assert_eq!(agent.received(r#"{"type":"restricted"}"#), reply(r#"{"type":"restricted"}"#));
    assert_eq!(agent.handle(open), AgentStep::Receive);
    assert_eq!(
        agent.received(r#"{"type":"doTask"}"#),
        AgentStep::Failed(AgentError::UnexpectedDoTask)
    );
    assert_eq!(agent.current_phase(), SessionPhase::Failed);
}

#[test]
fn client_takes_random_numbers_from_the_host() {
    let mut agent = agent_of(Blue, false);
    let request = r#"{"type":"random","data":{"start":1,"end":99}}"#;
    assert_eq!(agent.handle(request), AgentStep::Receive);
    assert_eq!(agent.received(" 17 "), reply("17"));
    assert_eq!(agent.handle(request), AgentStep::Receive);
    assert_eq!(agent.received("\"17\""), AgentStep::Failed(AgentError::BadMessage));
    assert_eq!(agent.current_phase(), SessionPhase::Failed);
}

#[test]
fn client_waits_for_the_move_of_another_player() {
    let mut agent = agent_of(Blue, false);
    let request = r#"{"type":"action","data":{"from":"red","param":"Guess"}}"#;
    assert_eq!(agent.handle(request), AgentStep::Receive);
    assert_eq!(agent.typed("1".to_string()), AgentStep::Failed(AgentError::OutOfTurn));
    assert_eq!(agent.received("42"), reply("42"));
}

#[test]
fn client_asks_its_own_player_and_sends_the_move() {
    let mut agent = agent_of(Red, false);
    let request = r#"{"type":"action","data":{"from":"red","param":"Guess"}}"#;
    assert_eq!(agent.handle(request), AgentStep::Prompt { param: "\"Guess\"".to_string() });
    assert_eq!(agent.received("42"), AgentStep::Failed(AgentError::OutOfTurn));
    assert_eq!(agent.handle(request), AgentStep::Failed(AgentError::OutOfTurn));
    assert_eq!(
        agent.typed(" 42\n".to_string()),
        AgentStep::Send { payload: "42".to_string(), reply: "42".to_string() }
    );
    assert_eq!(agent.handle(request), AgentStep::Prompt { param: "\"Guess\"".to_string() });
    assert_eq!(agent.typed("forty-two".to_string()), AgentStep::Failed(AgentError::BadInput));
    assert_eq!(agent.current_phase(), SessionPhase::Failed);
}

#[test]
fn client_fails_on_what_is_no_request() {
    let mut agent = agent_of(Red, false);
    assert_eq!(agent.received("1"), AgentStep::Failed(AgentError::OutOfTurn));
    assert_eq!(
        agent.handle("[]"),
        AgentStep::Failed(AgentError::Malformed(DecodeError::NotAnObject))
    );
    assert_eq!(agent.current_phase(), SessionPhase::Failed);
    let mut agent = agent_of(Red, false);
    assert_eq!(
        agent.handle(r#"{"type":"error","data":"boom"}"#),
        AgentStep::Aborted("boom".to_string())
    );
    assert_eq!(agent.current_phase(), SessionPhase::Failed);
    let mut agent = agent_of(Red, false);
    agent.fail();
    assert_eq!(agent.handle("{}"), AgentStep::Failed(AgentError::NotRunning));
}

#[test]
fn client_fails_on_a_message_that_is_no_task_result() {
    let mut agent = agent_of(Blue, false);
    agent.handle(r#"{"type":"doTaskIf","data":{"allowed":[]}}"#);
    assert_eq!(agent.received("7"), AgentStep::Failed(AgentError::BadMessage));
    let mut agent = agent_of(Blue, false);
    agent.handle(r#"{"type":"taskDone","data":{"targets":[],"value":1}}"#);
    assert_eq!(agent.received("7"), AgentStep::Failed(AgentError::BadMessage));
}
