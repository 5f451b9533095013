use std::cell::RefCell;

use rulebook::guest::{
    action, do_if, do_if_admin, random, start_session, sync_admin_if, GuestError, Link, State,
    Store,
};
use rulebook::player::{PlayerId, RoomInfo};
use rulebook::wire::Output;

struct Count(u32);

impl State for Count {
    fn from_room_info(room_info: &RoomInfo) -> Self {
        Count(room_info.players.len() as u32)
    }

    fn to_json(&self) -> String {
        self.0.to_string()
    }
}

/// A host that answers from a script and keeps what it was asked.
fn scripted<'a>(
    asked: &'a RefCell<Vec<String>>,
    replies: &'a [&'a str],
) -> impl Fn(String) -> String + 'a {
    move |request: String| {
        let mut asked = asked.borrow_mut();
        let reply = replies.get(asked.len()).copied().unwrap_or("null");
        asked.push(request);
        reply.to_string()
    }
}

#[test]
fn raw_exchange_hands_the_request_over_and_the_reply_back() {
    let asked = RefCell::new(Vec::new());
    let link = Link::new(scripted(&asked, &["{\"players\":[]}"]), false);
    assert_eq!(link.perform_io_raw(&Output::SessionStart), "{\"players\":[]}");
    assert_eq!(*asked.borrow(), vec![r#"{"type":"sessionStart"}"#]);
    assert!(!link.print_state());
}

#[test]
fn random_asks_the_host() {
    let asked = RefCell::new(Vec::new());
    let link = Link::new(scripted(&asked, &["17"]), false);
    assert_eq!(random(&link, 1, 99), Ok(17));
    assert_eq!(*asked.borrow(), vec![r#"{"type":"random","data":{"start":1,"end":99}}"#]);
}

#[test]
fn random_over_a_range_of_one_number_asks_the_host() {
    let asked = RefCell::new(Vec::new());
    let link = Link::new(scripted(&asked, &["3"]), false);
    assert_eq!(random(&link, 3, 3), Ok(3));
    assert_eq!(*asked.borrow(), vec![r#"{"type":"random","data":{"start":3,"end":3}}"#]);
}

#[test]
fn random_with_a_bad_reply_reports_and_fails() {
    let asked = RefCell::new(Vec::new());
    let link = Link::new(scripted(&asked, &["\"seventeen\""]), false);
    assert_eq!(random(&link, 1, 99), Err(GuestError::BadReply));
    let asked = asked.borrow();
    assert_eq!(asked.len(), 2);
    assert!(asked[1].starts_with(r#"{"type":"error","data":""#));
}

#[test]
fn do_if_runs_the_task_inside_the_scope() {
    let asked = RefCell::new(Vec::new());
    let link = Link::new(scripted(&asked, &[r#"{"type":"doTask"}"#, "5", "null"]), false);
    let done = do_if(&link, vec![PlayerId::Red], || random(&link, 1, 6));
    assert_eq!(done, Ok(Some(Ok(5))));
    assert_eq!(
        *asked.borrow(),
        vec![
            r#"{"type":"doTaskIf","data":{"allowed":["red"]}}"#,
            r#"{"type":"random","data":{"start":1,"end":6}}"#,
            r#"{"type":"taskDone","data":{"targets":[],"value":null}}"#,
        ]
    );
}

#[test]
fn do_if_skips_the_task_outside_the_scope() {
    let asked = RefCell::new(Vec::new());
    let link = Link::new(scripted(&asked, &[r#"{"type":"restricted"}"#]), false);
    let done = do_if(&link, vec![PlayerId::Red], || panic!("the task was run"));
    assert_eq!(done, Ok(None::<()>));
    assert_eq!(asked.borrow().len(), 1);
}

#[test]
fn do_if_refuses_a_sync_result() {
    let asked = RefCell::new(Vec::new());
    let link = Link::new(scripted(&asked, &[r#"{"type":"syncResult","data":null}"#]), false);
    let done = do_if(&link, vec![], || 1);
    assert_eq!(done, Err(GuestError::UnexpectedSync));
    let asked = asked.borrow();
    assert_eq!(asked.len(), 2);
    assert_eq!(asked[1], r#"{"type":"error","data":"unexpected syncResult response"}"#);
}

#[test]
fn do_if_fails_on_a_reply_that_is_no_task_result() {
    let asked = RefCell::new(Vec::new());
    let link = Link::new(scripted(&asked, &["null"]), false);
    assert_eq!(do_if(&link, vec![], || 1), Err(GuestError::BadReply));
    let asked2 = RefCell::new(Vec::new());
    let link = Link::new(scripted(&asked2, &[r#"{"type":"doTask"}"#, "1"]), false);
    assert_eq!(do_if(&link, vec![], || 1), Err(GuestError::BadReply));
}

#[test]
fn do_if_admin_opens_a_scope_for_nobody() {
    let asked = RefCell::new(Vec::new());
    let link = Link::new(scripted(&asked, &[r#"{"type":"doTask"}"#, "null"]), false);
    assert_eq!(do_if_admin(&link, || "secret"), Ok(Some("secret")));
    assert_eq!(asked.borrow()[0], r#"{"type":"doTaskIf","data":{"allowed":[]}}"#);
}

#[test]
fn sync_admin_if_publishes_the_value_on_the_host() {
    let asked = RefCell::new(Vec::new());
    let link = Link::new(scripted(&asked, &[r#"{"type":"doTask"}"#, "null"]), false);
    let synced = sync_admin_if(&link, vec![PlayerId::Red, PlayerId::Blue], || "\"Less\"".to_string());
    assert_eq!(synced, Ok(Some("\"Less\"".to_string())));
    assert_eq!(
        *asked.borrow(),
        vec![
            r#"{"type":"doTaskIf","data":{"allowed":[]}}"#,
            r#"{"type":"taskDone","data":{"targets":["red","blue"],"value":"Less"}}"#,
        ]
    );
}

#[test]
fn sync_admin_if_takes_the_value_that_the_host_sent() {
    let asked = RefCell::new(Vec::new());
    let link = Link::new(scripted(&asked, &[r#"{"type":"syncResult","data":"Less"}"#]), false);
    let synced = sync_admin_if(&link, vec![PlayerId::Red], || panic!("the task was run"));
    assert_eq!(synced, Ok(Some("\"Less\"".to_string())));

    let asked = RefCell::new(Vec::new());
    let link = Link::new(scripted(&asked, &[r#"{"type":"restricted"}"#]), false);
    let synced = sync_admin_if(&link, vec![PlayerId::Red], || panic!("the task was run"));
    assert_eq!(synced, Ok(None));

    let asked = RefCell::new(Vec::new());
    let link = Link::new(scripted(&asked, &["7"]), false);
    let synced = sync_admin_if(&link, vec![PlayerId::Red], || panic!("the task was run"));
    assert_eq!(synced, Err(GuestError::BadReply));
}

#[test]
fn action_gives_the_move_as_it_came() {
    let asked = RefCell::new(Vec::new());
    let link = Link::new(scripted(&asked, &[" 42 "]), false);
    assert_eq!(action(&link, PlayerId::Lime, "\"Guess\""), " 42 ");
    assert_eq!(
        *asked.borrow(),
        vec![r#"{"type":"action","data":{"from":"lime","param":"Guess"}}"#]
    );
}

#[test]
fn store_publishes_each_change_where_asked() {
    let asked = RefCell::new(Vec::new());
    let link = Link::new(scripted(&asked, &[]), true);
    let mut store = Store::new(Count(1));
    assert_eq!(store.get().0, 1);
    assert_eq!(store.mutate(&link, |c| c.0 += 4), Ok(()));
    assert_eq!(store.get().0, 5);
    assert_eq!(store.set(&link, Count(9)), Ok(()));
    assert_eq!(store.get().0, 9);
    assert_eq!(
        *asked.borrow(),
        vec![r#"{"type":"updateState","data":5}"#, r#"{"type":"updateState","data":9}"#]
    );
}

#[test]
fn store_is_silent_where_not_asked() {
    let asked = RefCell::new(Vec::new());
    let link = Link::new(scripted(&asked, &[]), false);
    let mut store = Store::new(Count(1));
    assert_eq!(store.mutate(&link, |c| c.0 = 2), Ok(()));
    assert_eq!(store.set(&link, Count(3)), Ok(()));
    assert_eq!(store.get().0, 3);
    assert!(asked.borrow().is_empty());
}

#[test]
fn store_fails_where_the_publication_is_not_answered_with_null() {
    let asked = RefCell::new(Vec::new());
    let link = Link::new(scripted(&asked, &["1"]), true);
    let mut store = Store::new(Count(1));
    assert_eq!(store.set(&link, Count(3)), Err(GuestError::BadReply));
    assert_eq!(store.get().0, 3);
}

#[test]
fn session_runs_from_start_to_end() {
    let asked = RefCell::new(Vec::new());
    let replies = [r#"{"players":["red","blue"]}"#, "null", "null", "null"];
    let link = Link::new(scripted(&asked, &replies), true);
    let done = start_session(&link, |room: &RoomInfo, store: &mut Store<Count>| {
        assert_eq!(room.players, vec![PlayerId::Red, PlayerId::Blue]);
        assert_eq!(store.get().0, 2);
        store.set(&link, Count(7)).map_err(|e| format!("{:?}", e))
    });
    assert_eq!(done, Ok(()));
    assert_eq!(
        *asked.borrow(),
        vec![
            r#"{"type":"sessionStart"}"#,
            r#"{"type":"updateState","data":2}"#,
            r#"{"type":"updateState","data":7}"#,
            r#"{"type":"sessionEnd"}"#,
        ]
    );
}

#[test]
fn session_reports_a_game_that_fails() {
    let asked = RefCell::new(Vec::new());
    let link = Link::new(scripted(&asked, &[r#"{"players":[]}"#]), true);
    let done = start_session(&link, |_room: &RoomInfo, _store: &mut Store<Count>| {
        Err("no players".to_string())
    });
    assert_eq!(done, Err(GuestError::Game));
    assert_eq!(
        *asked.borrow(),
        vec![
            r#"{"type":"sessionStart"}"#,
            r#"{"type":"updateState","data":0}"#,
            r#"{"type":"error","data":"no players"}"#,
        ]
    );
}

#[test]
fn session_publishes_no_state_where_not_asked() {
    let asked = RefCell::new(Vec::new());
    let link = Link::new(scripted(&asked, &[r#"{"players":["red"]}"#, "null"]), false);
    let done = start_session(&link, |_room: &RoomInfo, store: &mut Store<Count>| {
        assert_eq!(store.get().0, 1);
        store.set(&link, Count(5)).map_err(|e| format!("{:?}", e))
    });
    assert_eq!(done, Ok(()));
    assert_eq!(
        *asked.borrow(),
        vec![r#"{"type":"sessionStart"}"#, r#"{"type":"sessionEnd"}"#]
    );
}

#[test]
fn session_fails_where_the_first_state_is_not_taken() {
    let asked = RefCell::new(Vec::new());
    let link = Link::new(scripted(&asked, &[r#"{"players":[]}"#, "1"]), true);
    let done = start_session(&link, |_room: &RoomInfo, _store: &mut Store<Count>| {
        panic!("the game was played")
    });
    assert_eq!(done, Err(GuestError::BadReply));
    assert_eq!(asked.borrow().len(), 3);
}

#[test]
fn session_fails_where_the_host_gives_no_room() {
    let asked = RefCell::new(Vec::new());
    let link = Link::new(scripted(&asked, &["null"]), false);
    let done = start_session(&link, |_room: &RoomInfo, _store: &mut Store<Count>| Ok(()));
    assert_eq!(done, Err(GuestError::BadReply));
    assert_eq!(asked.borrow().len(), 2);
}
