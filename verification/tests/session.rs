use rulebook::channel::{Channel, ReceiveStep, SendStep};
use rulebook::frame::{encode_ack, encode_msg};
use rulebook::player::{PlayerId, RoomInfo};
use rulebook::room::{Delivery, RoomError};
use rulebook::session::{Config, Session, SessionError, SessionPhase, Step};
use rulebook::wire::DecodeError;

use PlayerId::{Blue, Green, Lime, Red};

fn session_of(players: Vec<PlayerId>, enable_state: bool) -> Session {
    let conf = Config { enable_state, enable_logging: false };
    let mut session = Session::new("guess".to_string(), conf);
    assert_eq!(session.start(16384, false, RoomInfo { players }), Ok((16384, 0)));
    session
}

fn answer(told: Vec<(PlayerId, &str)>, reply: &str) -> Step {
    Step::Answer {
        told: told
            .into_iter()
            .map(|(to, payload)| Delivery { to, payload: payload.to_string() })
            .collect(),
        state: None,
        reply: reply.to_string(),
    }
}

#[test]
fn session_keeps_both_switches() {
    let conf = Config { enable_state: true, enable_logging: false };
    assert_eq!(Session::new("game".to_string(), conf).conf(), conf);
    let conf = Config { enable_state: false, enable_logging: true };
    let mut session = Session::new("game".to_string(), conf);
    session.handle(r#"{"type":"sessionStart"}"#);
    session.fail();
    assert_eq!(session.conf(), conf);
}

#[test]
fn config_is_off_by_default() {
    assert_eq!(Config::default(), Config { enable_state: false, enable_logging: false });
}

#[test]
fn start_seats_the_players_and_gives_the_entry_arguments() {
    let mut session = Session::new("game".to_string(), Config::default());
    assert_eq!(session.game_key(), "game");
    assert_eq!(session.current_phase(), SessionPhase::Starting);
    assert_eq!(session.start(16, true, RoomInfo { players: vec![Red, Blue] }), Ok((16, 1)));
    assert_eq!(session.room().info(), RoomInfo { players: vec![Red, Blue] });
    assert_eq!(
        session.start(16, true, RoomInfo { players: vec![Green] }),
        Err(SessionError::OutOfTurn)
    );
    assert_eq!(session.room().info(), RoomInfo { players: vec![Red, Blue] });
}

#[test]
fn start_refuses_a_seat_taken_twice() {
    let mut session = Session::new("game".to_string(), Config::default());
    assert_eq!(
        session.start(16, false, RoomInfo { players: vec![Red, Red] }),
        Err(SessionError::Room(RoomError::SeatTaken))
    );
    assert_eq!(session.start(16, false, RoomInfo { players: vec![Red] }), Ok((16, 0)));
}

#[test]
fn single_player_random_draw() {
    let mut session = session_of(vec![Red], false);
    assert_eq!(
        session.handle(r#"{"type":"sessionStart"}"#),
        answer(vec![], r#"{"players":["red"]}"#)
    );
    assert_eq!(session.current_phase(), SessionPhase::Running);
    assert_eq!(
        session.handle(r#"{"type":"random","data":{"start":1,"end":1}}"#),
        answer(vec![(Red, "1")], "1")
    );
    assert_eq!(session.handle(r#"{"type":"sessionEnd"}"#), answer(vec![], "null"));
    assert_eq!(session.current_phase(), SessionPhase::Ended);
    assert_eq!(
        session.handle(r#"{"type":"sessionStart"}"#),
        Step::Failed(SessionError::NotRunning)
    );
}

#[test]
fn two_player_action_fanout() {
    let mut session = session_of(vec![Red, Blue], false);
    let mut red = Channel::new();
    let mut blue = Channel::new();
    for channel in [&mut red, &mut blue] {
        channel.send("{}").unwrap();
        assert_eq!(channel.send_step(Some(&encode_ack(0))), SendStep::Done);
    }

    let step = session.handle(r#"{"type":"action","data":{"from":"red","param":null}}"#);
    assert_eq!(step, Step::Await { from: Red });
    assert_eq!(red.receive(), ReceiveStep::Waiting);
    let incoming = r#"{"type":"msg","data":{"id":1,"val":42}}"#;
    let payload = match red.receive_step(Some(incoming)) {
        ReceiveStep::Delivered { payload, ack } => {
            assert_eq!(ack, encode_ack(1));
            payload
        }
        other => panic!("nothing delivered: {:?}", other),
    };
    assert_eq!(payload, "42");

    let step = session.acted(&payload);
    assert_eq!(step, answer(vec![(Blue, "42")], "42"));
    assert_eq!(blue.send("42").unwrap(), encode_msg(1, "42"));
}

#[test]
fn scope_open_and_close() {
    let mut session = session_of(vec![Red, Blue, Green], false);
    assert_eq!(
        session.handle(r#"{"type":"doTaskIf","data":{"allowed":["red"]}}"#),
        answer(vec![], r#"{"type":"doTask"}"#)
    );
    assert_eq!(
        session.handle(r#"{"type":"taskDone","data":{"targets":["blue"],"value":7}}"#),
        answer(
            vec![
                (Red, r#"{"type":"doTask"}"#),
                (Blue, r#"{"type":"syncResult","data":7}"#),
                (Green, r#"{"type":"restricted"}"#),
            ],
            "null"
        )
    );
}

#[test]
fn scope_widening_rejected() {
    let mut session = session_of(vec![Red, Blue, Green], false);
    session.handle(r#"{"type":"doTaskIf","data":{"allowed":["red"]}}"#);
    assert_eq!(
        session.handle(r#"{"type":"doTaskIf","data":{"allowed":["blue"]}}"#),
        Step::Failed(SessionError::Room(RoomError::ScopeViolation))
    );
    assert_eq!(session.current_phase(), SessionPhase::Failed);
    assert_eq!(
        session.handle(r#"{"type":"sessionEnd"}"#),
        Step::Failed(SessionError::NotRunning)
    );
}

#[test]
fn admin_only_scope_always_gets_do_task() {
    let mut session = session_of(vec![Red, Blue], false);
    assert_eq!(
        session.handle(r#"{"type":"doTaskIf","data":{"allowed":[]}}"#),
        answer(vec![], r#"{"type":"doTask"}"#)
    );
    match session.handle(r#"{"type":"random","data":{"start":1,"end":99}}"#) {
        Step::Answer { told, state, reply } => {
            assert_eq!(told, vec![]);
            assert_eq!(state, None);
            let value: i32 = reply.parse().unwrap();
            assert!((1..=99).contains(&value));
        }
        other => panic!("no answer: {:?}", other),
    }
    assert_eq!(
        session.handle(r#"{"type":"taskDone","data":{"targets":["red","blue"],"value":"Less"}}"#),
        answer(
            vec![
                (Red, r#"{"type":"syncResult","data":"Less"}"#),
                (Blue, r#"{"type":"syncResult","data":"Less"}"#),
            ],
            "null"
        )
    );
}

#[test]
fn session_end_with_a_scope_open_fails_the_session() {
    let mut session = session_of(vec![Red], false);
    session.handle(r#"{"type":"doTaskIf","data":{"allowed":["red"]}}"#);
    assert_eq!(
        session.handle(r#"{"type":"sessionEnd"}"#),
        Step::Failed(SessionError::Room(RoomError::ScopeStillOpen))
    );
    assert_eq!(session.current_phase(), SessionPhase::Failed);
}

#[test]
fn task_done_without_a_scope_fails_the_session() {
    let mut session = session_of(vec![Red], false);
    assert_eq!(
        session.handle(r#"{"type":"taskDone","data":{"targets":[],"value":null}}"#),
        Step::Failed(SessionError::Room(RoomError::NoOpenScope))
    );
    assert_eq!(session.current_phase(), SessionPhase::Failed);
}

#[test]
fn empty_range_fails_the_session() {
    let mut session = session_of(vec![Red], false);
    assert_eq!(
        session.handle(r#"{"type":"random","data":{"start":5,"end":4}}"#),
        Step::Failed(SessionError::Room(RoomError::EmptyRange))
    );
    assert_eq!(session.current_phase(), SessionPhase::Failed);
}

#[test]
fn action_of_an_unseated_player_fails_the_session() {
    let mut session = session_of(vec![Red], false);
    assert_eq!(
        session.handle(r#"{"type":"action","data":{"from":"lime","param":1}}"#),
        Step::Failed(SessionError::Room(RoomError::UnknownPlayer))
    );
    assert_eq!(session.current_phase(), SessionPhase::Failed);
    let _ = Lime;
}

#[test]
fn guest_error_aborts_the_session() {
    let mut session = session_of(vec![Red], false);
    assert_eq!(
        session.handle(r#"{"type":"error","data":"boom"}"#),
        Step::Aborted("boom".to_string())
    );
    assert_eq!(session.current_phase(), SessionPhase::Failed);
}

#[test]
fn malformed_request_fails_the_session() {
    let mut session = session_of(vec![Red], false);
    assert_eq!(
        session.handle("{"),
        Step::Failed(SessionError::Malformed(DecodeError::NotAnObject))
    );
    assert_eq!(session.current_phase(), SessionPhase::Failed);
}

#[test]
fn state_is_shown_only_where_enabled() {
    let request = r#"{"type":"updateState","data":{"turn":1}}"#;
    let mut quiet = session_of(vec![Red], false);
    assert_eq!(quiet.handle(request), answer(vec![], "null"));
    let mut loud = session_of(vec![Red], true);
    assert_eq!(
        loud.handle(request),
        Step::Answer { told: vec![], state: Some(r#"{"turn":1}"#.to_string()), reply: "null".to_string() }
    );
}

#[test]
fn requests_and_moves_out_of_turn_are_refused() {
    let mut session = session_of(vec![Red, Blue], false);
    assert_eq!(session.acted("1"), Step::Failed(SessionError::OutOfTurn));
    session.handle(r#"{"type":"action","data":{"from":"blue","param":null}}"#);
    assert_eq!(
        session.handle(r#"{"type":"sessionStart"}"#),
        Step::Failed(SessionError::OutOfTurn)
    );
    assert_eq!(session.acted("1"), answer(vec![(Red, "1")], "1"));
    assert_eq!(session.acted("1"), Step::Failed(SessionError::OutOfTurn));
}

#[test]
fn a_failure_of_the_host_fails_the_session() {
    let mut session = session_of(vec![Red], false);
    session.fail();
    assert_eq!(session.current_phase(), SessionPhase::Failed);
    assert_eq!(
        session.handle(r#"{"type":"sessionStart"}"#),
        Step::Failed(SessionError::NotRunning)
    );
}
