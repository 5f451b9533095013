//! The guest's side: what the rules of a game call to talk to their host.
//!
//! The rules are straight-line code. Each call here writes one request, hands it
//! to the host and reads the reply; to the rules the host is one function from the
//! text of a request to the text of the reply, which the `Link` holds.

use vstd::prelude::*;
use crate::player::{PlayerId, RoomInfo};
use crate::wire::{
    decode_i32, decode_room, decode_task_result, decode_unit, encode_output, encode_unit, i32_in,
    is_unit, output_text, room_of, task_result_of, Output, OutputView, TaskResult,
};

verus! {

/// Why a call of the guest library failed. After a failure the rules are not to go
/// on: the host has been told, or has failed itself.
#[derive(Debug, Clone, Copy, PartialEq, Eq, Hash, Structural)]
pub enum GuestError {
    /// The host's reply was not of the shape that the request asks for.
    BadReply,
    /// The host answered the opening of a scope with a value, which only players
    /// outside a scope are told.
    UnexpectedSync,
    /// The rules of the game failed.
    Game,
}

/// The state of a game: made from the room, and written as JSON text whenever it
/// is published.
pub trait State: Sized {
    /// The state that a game starts with in `room_info`.
    fn from_room_info(room_info: &RoomInfo) -> Self;

    /// The state as JSON text.
    fn to_json(&self) -> String;
}

/// The guest's link to its host.
pub struct Link<H> {
    host: H,
    print_state: bool,
}

impl<H: Fn(String) -> String> Link<H> {
    /// The host: the function that takes the text of a request to the text of the
    /// reply.
    pub closed spec fn host(&self) -> H {
        self.host
    }

    /// Whether the rules publish their state.
    pub closed spec fn publishes(&self) -> bool {
        self.print_state
    }

    /// The host takes every request.
    pub open spec fn ready(&self) -> bool {
        forall|request: String| call_requires(self.host(), (request,))
    }

    /// `reply` is a reply that the host may give to the request `out`.
    pub open spec fn answers(&self, out: OutputView<Seq<char>>, reply: Seq<char>) -> bool {
        exists|request: String, r: String|
            request@ == output_text(out) && r@ == reply && #[trigger] call_ensures(
                self.host(),
                (request,),
                r,
            )
    }

    /// The host took the report of a failure.
    pub open spec fn reported(&self) -> bool {
        exists|message: Seq<char>, reply: Seq<char>| #[trigger]
            self.answers(OutputView::Error(message), reply)
    }

    /// `done` is how a request comes out whose reply is the unit value: the host
    /// is handed the request, and `done` fails with `BadReply`, after a report to
    /// the host, exactly when the reply is not `null`.
    pub open spec fn settled(&self, out: OutputView<Seq<char>>, done: Result<(), GuestError>) -> bool {
        exists|reply: Seq<char>|
            #[trigger] self.answers(out, reply) && (match done {
                Ok(()) => is_unit(reply),
                Err(e) => e == GuestError::BadReply && !is_unit(reply) && self.reported(),
            })
    }

    /// `done` is how the publication of `state` comes out: nothing is asked of the
    /// host where the rules do not publish, and else the host is handed the text
    /// that `to_json` gives for the state, with a unit reply.
    pub open spec fn published<T: State>(&self, state: T, done: Result<(), GuestError>) -> bool {
        if self.publishes() {
            exists|json: String|
                #[trigger] call_ensures(T::to_json, (&state,), json) && self.settled(
                    OutputView::UpdateState(json@),
                    done,
                )
        } else {
            done is Ok
        }
    }

    /// A link to `host`.
    pub fn new(host: H, print_state: bool) -> (link: Link<H>)
        ensures
            link.host() == host,
            link.publishes() == print_state,
    {
        Link { host, print_state }
    }

    /// Whether the rules publish their state.
    pub fn print_state(&self) -> (flag: bool)
        ensures
            flag == self.publishes(),
    {
        self.print_state
    }

    /// Hands one request to the host and gives back the reply as it came.
    pub fn perform_io_raw(&self, out: &Output<String>) -> (reply: String)
        requires
            self.ready(),
        ensures
            self.answers(out@, reply@),
    {
        let request = encode_output(out);
        assert(call_requires(self.host(), (request,)));
        (self.host)(request)
    }

    /// Tells the host that the rules failed, with `message`. The host is not to
    /// give control back after that; if it does, its reply is dropped.
    pub fn report_error(&self, message: &str)
        requires
            self.ready(),
        ensures
            exists|reply: Seq<char>| #[trigger] self.answers(OutputView::Error(message@), reply),
    {
        let _ = self.perform_io_raw(&Output::Error(message.to_owned()));
    }

    /// Hands over a request whose reply is the unit value.
    ///
    /// Fails with `BadReply`, after telling the host, exactly when the reply is
    /// not `null`.
    pub fn perform_unit(&self, out: &Output<String>) -> (done: Result<(), GuestError>)
        requires
            self.ready(),
        ensures
            self.settled(out@, done),
    {
        let reply = self.perform_io_raw(out);
        if decode_unit(reply.as_str()) {
            Ok(())
        } else {
            self.report_error("the host's reply is not null");
            Err(GuestError::BadReply)
        }
    }
}

/// The state of a game in the hands of its rules. Every change of it is published
/// where the session asks for that.
pub struct Store<T> {
    state: T,
}

impl<T: State> Store<T> {
    /// The state.
    pub closed spec fn value(&self) -> T {
        self.state
    }

    /// A store that holds `state`.
    pub fn new(state: T) -> (store: Store<T>)
        ensures
            store.value() == state,
    {
        Store { state }
    }

    /// The state.
    pub fn get(&self) -> (state: &T)
        ensures
            *state == self.value(),
    {
        &self.state
    }

    /// Changes the state with `f` and, where the session publishes state, hands the
    /// new state to the host.
    ///
    /// Fails with `BadReply` when the host does not answer the publication with
    /// `null`; the state is changed all the same.
    pub fn mutate<H: Fn(String) -> String, F: FnOnce(&mut T)>(&mut self, link: &Link<H>, f: F) -> (done:
        Result<(), GuestError>)
        requires
            link.ready(),
            forall|state: &mut T| call_requires(f, (state,)),
        ensures
            exists|state: &mut T|
                *state == old(self).value() && *final(state) == final(self).value()
                    && #[trigger] call_ensures(f, (state,), ()),
            link.published(final(self).value(), done),
    {
        f(&mut self.state);
        self.publish(link)
    }

    /// Hands the state to the host where the session publishes state.
    fn publish<H: Fn(String) -> String>(&self, link: &Link<H>) -> (done: Result<(), GuestError>)
        requires
            link.ready(),
        ensures
            link.published(self.value(), done),
    {
        if link.print_state() {
            let json = self.state.to_json();
            let ghost written = json;
            let done = link.perform_unit(&Output::UpdateState(json));
            assert(call_ensures(T::to_json, (&self.state,), written));
            assert(link.settled(OutputView::UpdateState(written@), done));
            done
        } else {
            Ok(())
        }
    }

    /// Replaces the state by `new_state` and publishes it as `mutate` does.
    pub fn set<H: Fn(String) -> String>(&mut self, link: &Link<H>, new_state: T) -> (done: Result<
        (),
        GuestError,
    >)
        requires
            link.ready(),
        ensures
            final(self).value() == new_state,
            link.published(new_state, done),
    {
        self.state = new_state;
        self.publish(link)
    }
}

/// Asks the host for an integer between `start` and `end`, both included, with
/// `start` not above `end`. The result is the integer that the host's reply
/// denotes.
///
/// Fails with `BadReply`, after telling the host, exactly when the reply denotes
/// no integer.
pub fn random<H: Fn(String) -> String>(link: &Link<H>, start: i32, end: i32) -> (drawn: Result<
    i32,
    GuestError,
>)
    requires
        link.ready(),
        start <= end,
    ensures
        exists|reply: Seq<char>|
            #[trigger] link.answers(OutputView::Random { start, end }, reply) && (match drawn {
                Ok(value) => i32_in(Some(reply)) == Some(value),
                Err(e) => e == GuestError::BadReply && i32_in(Some(reply)) is None
                    && link.reported(),
            }),
{
    let reply = link.perform_io_raw(&Output::Random { start, end });
    match decode_i32(reply.as_str()) {
        Some(value) => Ok(value),
        None => {
            link.report_error("the host's reply is no integer");
            Err(GuestError::BadReply)
        },
    }
}

/// What the opening of a scope comes to, given the host's reply: whether the
/// caller is to do the task.
pub open spec fn admitted(reply: Seq<char>) -> Result<bool, GuestError> {
    match task_result_of(reply) {
        Ok(TaskResult::DoTask) => Ok(true),
        Ok(TaskResult::Restricted) => Ok(false),
        Ok(TaskResult::SyncResult(_)) => Err(GuestError::UnexpectedSync),
        Err(_) => Err(GuestError::BadReply),
    }
}

/// `done` is how a task comes out that is done in a scope for `allowed`: the host
/// is asked to open the scope; where it tells the caller to do the task, `f` is
/// done and the host is asked to close the scope, with no value for anybody; where
/// it says that the caller is outside, nothing is done.
pub open spec fn scoped<H: Fn(String) -> String, F: FnOnce() -> T, T>(
    link: Link<H>,
    allowed: Seq<PlayerId>,
    f: F,
    done: Result<Option<T>, GuestError>,
) -> bool {
    exists|reply: Seq<char>|
        #[trigger] link.answers(OutputView::DoTaskIf { allowed }, reply) && (match admitted(reply) {
            Ok(true) => exists|value: T, closed: Result<(), GuestError>|
                {
                    &&& #[trigger] call_ensures(f, (), value)
                    &&& #[trigger] link.settled(
                        OutputView::TaskDone { targets: Seq::empty(), value: "null"@ },
                        closed,
                    )
                    &&& done == (match closed {
                        Ok(()) => Ok::<Option<T>, GuestError>(Some(value)),
                        Err(e) => Err::<Option<T>, GuestError>(e),
                    })
                },
            Ok(false) => done matches Ok(None),
            Err(e) => done matches Err(err) && err == e && link.reported(),
        })
}

/// Does `f` in a scope that only `targets` see. The scope is opened before `f`
/// and closed after it, with no value for anybody.
///
/// The result is `None`, with `f` not done, where the host says that the caller
/// is outside the scope. It fails, after telling the host, where the host's
/// replies are not what the two requests ask for.
pub fn do_if<H: Fn(String) -> String, F: FnOnce() -> T, T>(
    link: &Link<H>,
    targets: Vec<PlayerId>,
    f: F,
) -> (done: Result<Option<T>, GuestError>)
    requires
        link.ready(),
        call_requires(f, ()),
    ensures
        scoped(*link, targets@, f, done),
{
    let reply = link.perform_io_raw(&Output::DoTaskIf { allowed: targets });
    match decode_task_result(reply.as_str()) {
        Ok(TaskResult::DoTask) => {},
        Ok(TaskResult::SyncResult(_)) => {
            link.report_error("unexpected syncResult response");
            return Err(GuestError::UnexpectedSync);
        },
        Ok(TaskResult::Restricted) => {
            return Ok(None);
        },
        Err(_) => {
            link.report_error("the host's reply is no task result");
            return Err(GuestError::BadReply);
        },
    }
    let value = f();
    let closed = link.perform_unit(&Output::TaskDone { targets: Vec::new(), value: encode_unit() });
    match closed {
        Ok(()) => Ok(Some(value)),
        Err(e) => Err(e),
    }
}

/// Does `f` in a scope that no player sees: on the host alone.
pub fn do_if_admin<H: Fn(String) -> String, F: FnOnce() -> T, T>(link: &Link<H>, f: F) -> (done:
    Result<Option<T>, GuestError>)
    requires
        link.ready(),
        call_requires(f, ()),
    ensures
        scoped(*link, Seq::empty(), f, done),
{
    do_if(link, Vec::new(), f)
}

/// `synced` is how a value comes out that is computed on the host alone and shown
/// to `targets`: the host is asked to open a scope for nobody; where it tells the
/// caller to do the task, `f` is done and the host is asked to close the scope
/// with the value of `f` for `targets`; where it sends a value, that is the
/// value; where it says that the caller is told nothing, there is none.
pub open spec fn shared<H: Fn(String) -> String, F: FnOnce() -> String>(
    link: Link<H>,
    targets: Seq<PlayerId>,
    f: F,
    synced: Result<Option<String>, GuestError>,
) -> bool {
    exists|reply: Seq<char>|
        #[trigger] link.answers(OutputView::DoTaskIf { allowed: Seq::empty() }, reply) && (
        match task_result_of(reply) {
            Ok(TaskResult::DoTask) => exists|value: String, closed: Result<(), GuestError>|
                {
                    &&& #[trigger] call_ensures(f, (), value)
                    &&& #[trigger] link.settled(
                        OutputView::TaskDone { targets, value: value@ },
                        closed,
                    )
                    &&& match closed {
                        Ok(()) => synced matches Ok(Some(v)) && v@ == value@,
                        Err(e) => synced matches Err(err) && err == e,
                    }
                },
            Ok(TaskResult::SyncResult(value)) => synced matches Ok(Some(v)) && v@ == value,
            Ok(TaskResult::Restricted) => synced matches Ok(None),
            Err(_) => synced matches Err(e) && e == GuestError::BadReply && link.reported(),
        })
}

/// Computes a value on the host alone and shows it to `targets`. `f` gives the
/// value as JSON text.
///
/// On the host the result is the value of `f`; for a player of `targets` it is
/// the value that the host sent; for the others it is `None`. Fails with
/// `BadReply`, after telling the host, where the host's replies are not what the
/// requests ask for.
pub fn sync_admin_if<H: Fn(String) -> String, F: FnOnce() -> String>(
    link: &Link<H>,
    targets: Vec<PlayerId>,
    f: F,
) -> (synced: Result<Option<String>, GuestError>)
    requires
        link.ready(),
        call_requires(f, ()),
    ensures
        shared(*link, targets@, f, synced),
{
    let reply = link.perform_io_raw(&Output::DoTaskIf { allowed: Vec::new() });
    match decode_task_result(reply.as_str()) {
        Ok(TaskResult::DoTask) => {},
        Ok(TaskResult::SyncResult(value)) => {
            return Ok(Some(value));
        },
        Ok(TaskResult::Restricted) => {
            return Ok(None);
        },
        Err(_) => {
            link.report_error("the host's reply is no task result");
            return Err(GuestError::BadReply);
        },
    }
    let value = f();
    let closed = link.perform_unit(&Output::TaskDone { targets, value: value.clone() });
    match closed {
        Ok(()) => Ok(Some(value)),
        Err(e) => Err(e),
    }
}

/// Asks for the move of `from`, with `param` as JSON text to show them. The
/// result is the host's reply as it came: the move as JSON text.
pub fn action<H: Fn(String) -> String>(link: &Link<H>, from: PlayerId, param: &str) -> (reply: String)
    requires
        link.ready(),
    ensures
        link.answers(OutputView::Action { from, param: param@ }, reply@),
{
    link.perform_io_raw(&Output::Action { from, param: param.to_owned() })
}

/// `game` was played in `room` on a store that held `first` when the game
/// began, and `outcome` is how it ended.
pub open spec fn played<S: State, F: FnOnce(&RoomInfo, &mut Store<S>) -> Result<(), String>>(
    game: F,
    room: &RoomInfo,
    first: S,
    outcome: Result<(), String>,
) -> bool {
    exists|store: &mut Store<S>|
        store.value() == first && #[trigger] call_ensures(game, (room, store), outcome)
}

/// `done` is how a session comes out in a room of `players`: the first state is
/// made from the room and published where the rules publish; if that goes well,
/// `game` is played on that state; where it ends well, the host is told that the
/// session is over, and where it fails, the host is told the failure, with what
/// `game` gave as its error for the message.
pub open spec fn run_in<H: Fn(String) -> String, S: State, F: FnOnce(
    &RoomInfo,
    &mut Store<S>,
) -> Result<(), String>>(
    link: Link<H>,
    game: F,
    players: Seq<PlayerId>,
    done: Result<(), GuestError>,
) -> bool {
    exists|room: &RoomInfo, first: S, shown: Result<(), GuestError>|
        {
            &&& room@ == players
            &&& #[trigger] call_ensures(S::from_room_info, (room,), first)
            &&& #[trigger] link.published(first, shown)
            &&& match shown {
                Err(e) => done == Err::<(), GuestError>(e),
                Ok(()) => exists|outcome: Result<(), String>|
                    #[trigger] played(game, room, first, outcome) && (match outcome {
                        Ok(()) => link.settled(OutputView::SessionEnd, done),
                        Err(message) => done == Err::<(), GuestError>(GuestError::Game) && exists|
                            reply: Seq<char>,
                        | #[trigger] link.answers(OutputView::Error(message@), reply),
                    }),
            }
        }
}

/// Runs one session of a game: asks the host for the room, makes the first state
/// and publishes it where the rules publish, plays `game`, and ends the session.
///
/// Fails with `BadReply` where a reply of the host is not what the request asks
/// for, and with `Game`, after telling the host, where `game` fails; what `game`
/// gives as its error is the message.
pub fn start_session<H: Fn(String) -> String, S: State, F: FnOnce(&RoomInfo, &mut Store<S>) -> Result<
    (),
    String,
>>(link: &Link<H>, game: F) -> (done: Result<(), GuestError>)
    requires
        link.ready(),
        forall|room: &RoomInfo, store: &mut Store<S>| call_requires(game, (room, store)),
    ensures
        exists|reply: Seq<char>|
            #[trigger] link.answers(OutputView::SessionStart, reply) && (match room_of(reply) {
                Err(_) => done == Err::<(), GuestError>(GuestError::BadReply) && link.reported(),
                Ok(players) => run_in(*link, game, players, done),
            }),
{
    let reply = link.perform_io_raw(&Output::SessionStart);
    let room = match decode_room(reply.as_str()) {
        Ok(room) => room,
        Err(_) => {
            link.report_error("the host's reply is no room");
            return Err(GuestError::BadReply);
        },
    };
    let mut store = Store { state: S::from_room_info(&room) };
    let ghost first = store.state;
    assert(call_ensures(S::from_room_info, (&room,), first));
    let shown = store.publish(link);
    match shown {
        Ok(()) => {},
        Err(e) => {
            assert(run_in(*link, game, room@, Err::<(), GuestError>(e)));
            return Err(e);
        },
    }
    let outcome = game(&room, &mut store);
    assert(played(game, &room, first, outcome));
    match outcome {
        Ok(()) => {},
        Err(message) => {
            link.report_error(message.as_str());
            assert(run_in(*link, game, room@, Err::<(), GuestError>(GuestError::Game)));
            return Err(GuestError::Game);
        },
    }
    let done = link.perform_unit(&Output::SessionEnd);
    assert(run_in(*link, game, room@, done));
    done
}

} // verus!
