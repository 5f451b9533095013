//! The session: what the host does with each request of the rules.
//!
//! A session takes the requests of one guest in turn. For each it says whom to
//! tell what and what to answer; the host carries that out. Where the rules ask
//! for a player's move, the session waits until the host hands the move in.

use vstd::prelude::*;
use crate::decimal::decimal;
use crate::player::{PlayerId, RoomInfo};
use crate::room::{
    int_plan, others, plan, scope_of, verdict, within, Delivery, Room, RoomError,
};
use crate::wire::{
    decode_output, encode_i32, encode_room, encode_task_result, encode_unit, output_of, room_text,
    task_result_text, DecodeError, Output, OutputView, TaskResult,
};

verus! {

/// What a host lets a session do beside the game itself.
#[derive(Debug, Clone, Copy, PartialEq, Eq, Hash, Structural)]
pub struct Config {
    /// Whether the state that the rules publish is shown.
    pub enable_state: bool,
    /// Whether the log lines of the rules are printed.
    pub enable_logging: bool,
}

impl Default for Config {
    /// Both switches off.
    fn default() -> (conf: Config)
        ensures
            !conf.enable_state,
            !conf.enable_logging,
    {
        Config { enable_state: false, enable_logging: false }
    }
}

/// How far a session has come.
#[derive(Debug, Clone, Copy, PartialEq, Eq, Hash, Structural)]
pub enum SessionPhase {
    /// The rules have not asked for the room yet.
    Starting,
    /// The game is on.
    Running,
    /// The rules ended the session.
    Ended,
    /// The session failed. Nothing more is taken.
    Failed,
}

/// Why a session failed, or why a step was refused.
#[derive(Debug, Clone, Copy, PartialEq, Eq, Hash, Structural)]
pub enum SessionError {
    /// The request was no request.
    Malformed(DecodeError),
    /// The rules broke the protocol.
    Room(RoomError),
    /// The session is over.
    NotRunning,
    /// The step does not fit: a request while a move is awaited, or a move that
    /// nobody awaits.
    OutOfTurn,
}

/// What the host is to do after a step.
#[derive(Debug, Clone, PartialEq, Eq, Hash)]
pub enum Step {
    /// Send each player of `told` their payload and wait until all have it, show
    /// `state` if there is one, then answer the rules with `reply`.
    Answer { told: Vec<Delivery<String>>, state: Option<String>, reply: String },
    /// Receive one message from `from` and hand it to `acted`.
    Await { from: PlayerId },
    /// The rules reported a failure, with this message. The session has failed
    /// and the rules are not to be answered.
    Aborted(String),
    /// The step failed.
    Failed(SessionError),
}

/// What a request comes to, before anything is done.
pub enum Reading {
    /// The session takes no request now.
    Refused(SessionError),
    /// The text is no request.
    Garbled(DecodeError),
    /// The request.
    Request(OutputView<Seq<char>>),
}

/// Writes what a closing scope tells each player.
pub fn encode_verdicts(deliveries: Vec<Delivery<TaskResult<String>>>) -> (told: Vec<Delivery<String>>)
    ensures
        plan(told@) == Seq::new(
            deliveries@.len(),
            |i: int| (deliveries@[i].to, task_result_text(deliveries@[i].payload@)),
        ),
{
    let mut told: Vec<Delivery<String>> = Vec::new();
    let mut i: usize = 0;
    while i < deliveries.len()
        invariant
            i <= deliveries.len(),
            told.len() == i,
            forall|k: int|
                0 <= k < i ==> (#[trigger] told@[k]).to == deliveries@[k].to && told@[k].payload@
                    == task_result_text(deliveries@[k].payload@),
        decreases deliveries.len() - i,
    {
        told.push(Delivery { to: deliveries[i].to, payload: encode_task_result(&deliveries[i].payload) });
        i += 1;
    }
    assert(plan(told@) =~= Seq::new(
        deliveries@.len(),
        |i: int| (deliveries@[i].to, task_result_text(deliveries@[i].payload@)),
    ));
    told
}

/// Writes the number that each player is told.
pub fn encode_numbers(deliveries: Vec<Delivery<i32>>) -> (told: Vec<Delivery<String>>)
    ensures
        plan(told@) == Seq::new(
            deliveries@.len(),
            |i: int| (deliveries@[i].to, decimal(deliveries@[i].payload as int)),
        ),
{
    let mut told: Vec<Delivery<String>> = Vec::new();
    let mut i: usize = 0;
    while i < deliveries.len()
        invariant
            i <= deliveries.len(),
            told.len() == i,
            forall|k: int|
                0 <= k < i ==> (#[trigger] told@[k]).to == deliveries@[k].to && told@[k].payload@
                    == decimal(deliveries@[k].payload as int),
        decreases deliveries.len() - i,
    {
        told.push(Delivery { to: deliveries[i].to, payload: encode_i32(deliveries[i].payload) });
        i += 1;
    }
    assert(plan(told@) =~= Seq::new(
        deliveries@.len(),
        |i: int| (deliveries@[i].to, decimal(deliveries@[i].payload as int)),
    ));
    told
}

/// The host's side of one session.
#[derive(Debug)]
pub struct Session {
    game_key: String,
    room: Room,
    conf: Config,
    phase: SessionPhase,
    awaiting: Option<PlayerId>,
}

impl Session {
    /// The key of the game that the session plays.
    pub closed spec fn key(&self) -> Seq<char> {
        self.game_key@
    }

    /// The seated players, in the order of the room.
    pub closed spec fn seats(&self) -> Seq<PlayerId> {
        self.room.seats()
    }

    /// The open scopes, the outermost first.
    pub closed spec fn stack(&self) -> Seq<Seq<PlayerId>> {
        self.room.stack()
    }

    /// Nothing has happened in the session yet: nobody is seated, no scope is
    /// open, the rules have not asked for anything.
    pub open spec fn is_fresh(&self) -> bool {
        &&& self.seats().len() == 0
        &&& self.stack().len() == 0
        &&& self.phase() == SessionPhase::Starting
        &&& self.awaiting() is None
    }

    /// The players that currently see the game: the innermost open scope, or
    /// everyone seated where none is open.
    pub open spec fn current_scope(&self) -> Seq<PlayerId> {
        scope_of(self.seats(), self.stack())
    }

    /// How far the session has come.
    pub closed spec fn phase(&self) -> SessionPhase {
        self.phase
    }

    /// The player whose move is awaited.
    pub closed spec fn awaiting(&self) -> Option<PlayerId> {
        self.awaiting
    }

    /// The two switches of the session: whether published state is shown, and
    /// whether the log lines of the rules are printed.
    pub closed spec fn settings(&self) -> Config {
        self.conf
    }

    /// Whether published state is shown.
    pub open spec fn shows_state(&self) -> bool {
        self.settings().enable_state
    }

    /// Whether the log lines of the rules are printed.
    pub open spec fn prints_log(&self) -> bool {
        self.settings().enable_logging
    }

    /// The room is well formed; a session that ended has no scope open; a move
    /// is awaited only while the session lives, and only from a seated player.
    pub closed spec fn wf(&self) -> bool {
        &&& self.room.wf()
        &&& self.phase == SessionPhase::Ended ==> self.room.stack().len() == 0
        &&& self.awaiting matches Some(from) ==> self.room.seats().contains(from) && (self.phase
            == SessionPhase::Starting || self.phase == SessionPhase::Running)
    }

    /// A session of the game `game_key` in which nothing has happened yet.
    pub fn new(game_key: String, conf: Config) -> (session: Session)
        ensures
            session.wf(),
            session.key() == game_key@,
            session.is_fresh(),
            session.settings() == conf,
    {
        Session { game_key, room: Room::empty(), conf, phase: SessionPhase::Starting, awaiting: None }
    }

    /// The key of the game that the session plays.
    pub fn game_key(&self) -> (key: &str)
        ensures
            key@ == self.key(),
    {
        self.game_key.as_str()
    }

    /// Seats the players of `room` in a fresh session. The result is what the
    /// guest's entry point is to be called with: the size of its input buffer,
    /// and 1 or 0 for whether it is to publish its state.
    ///
    /// Fails with `SeatTaken` when a player occurs twice, and with `OutOfTurn`
    /// when the players are distinct but the session is not fresh. The session
    /// stays as it is then.
    pub fn start(&mut self, input_caps: u32, print_state: bool, room: RoomInfo) -> (entry: Result<
        (u32, u32),
        SessionError,
    >)
        requires
            old(self).wf(),
        ensures
            final(self).wf(),
            final(self).key() == old(self).key(),
            final(self).settings() == old(self).settings(),
            final(self).phase() == old(self).phase(),
            final(self).stack() == old(self).stack(),
            final(self).awaiting() == old(self).awaiting(),
            match entry {
                Ok(args) => {
                    &&& room@.no_duplicates()
                    &&& old(self).is_fresh()
                    &&& final(self).seats() == room@
                    &&& args.0 == input_caps
                    &&& args.1 == (if print_state {
                        1u32
                    } else {
                        0u32
                    })
                },
                Err(e) => {
                    &&& final(self).seats() == old(self).seats()
                    &&& e == (if !room@.no_duplicates() {
                        SessionError::Room(RoomError::SeatTaken)
                    } else {
                        SessionError::OutOfTurn
                    })
                    &&& room@.no_duplicates() ==> !old(self).is_fresh()
                },
            },
    {
        let seated = match Room::new(room.players) {
            Err(e) => {
                return Err(SessionError::Room(e));
            },
            Ok(seated) => seated,
        };
        let fresh = self.room.depth() == 0 && self.room.is_vacant() && self.phase
            == SessionPhase::Starting && self.awaiting.is_none();
        if !fresh {
            return Err(SessionError::OutOfTurn);
        }
        self.room = seated;
        Ok((input_caps, if print_state {
            1
        } else {
            0
        }))
    }

    /// The two switches of the session.
    pub fn conf(&self) -> (conf: Config)
        ensures
            conf == self.settings(),
    {
        self.conf
    }

    /// How far the session has come.
    pub fn current_phase(&self) -> (phase: SessionPhase)
        ensures
            phase == self.phase(),
    {
        self.phase
    }

    /// The room of the session.
    pub fn room(&self) -> (room: &Room)
        ensures
            room.seats() == self.seats(),
            room.stack() == self.stack(),
            room.current_scope() == self.current_scope(),
            self.wf() ==> room.wf(),
    {
        &self.room
    }

    /// Marks the session as failed, for a failure that the host met itself: a
    /// channel that broke, a reply that did not fit.
    pub fn fail(&mut self)
        requires
            old(self).wf(),
        ensures
            final(self).wf(),
            final(self).phase() == SessionPhase::Failed,
            final(self).seats() == old(self).seats(),
            final(self).key() == old(self).key(),
            final(self).stack() == old(self).stack(),
            final(self).awaiting() is None,
            final(self).settings() == old(self).settings(),
    {
        self.phase = SessionPhase::Failed;
        self.awaiting = None;
    }

    /// What a request comes to in a session that is in `phase` and awaits
    /// `awaiting`.
    pub open spec fn reading(
        phase: SessionPhase,
        awaiting: Option<PlayerId>,
        request: Seq<char>,
    ) -> Reading {
        if phase == SessionPhase::Ended || phase == SessionPhase::Failed {
            Reading::Refused(SessionError::NotRunning)
        } else if awaiting is Some {
            Reading::Refused(SessionError::OutOfTurn)
        } else {
            match output_of(request) {
                Err(e) => Reading::Garbled(e),
                Ok(out) => Reading::Request(out),
            }
        }
    }

    /// Takes one request of the rules, as the JSON text that the guest wrote.
    ///
    /// A session that is over, or that awaits a move, refuses and stays as it is.
    /// A text that is no request, a failure that the rules report, and every
    /// breach of the protocol (a scope that widens, a scope closed or a session
    /// ended at the wrong time, an unseated player, an empty range) fail the
    /// session. Otherwise the step says whom to tell what and what to answer.
    pub fn handle(&mut self, request: &str) -> (step: Step)
        requires
            old(self).wf(),
        ensures
            final(self).wf(),
            final(self).seats() == old(self).seats(),
            final(self).key() == old(self).key(),
            final(self).settings() == old(self).settings(),
            match Self::reading(old(self).phase(), old(self).awaiting(), request@) {
                Reading::Refused(e) => {
                    &&& step == Step::Failed(e)
                    &&& final(self).phase() == old(self).phase()
                    &&& final(self).stack() == old(self).stack()
                    &&& final(self).awaiting() == old(self).awaiting()
                },
                Reading::Garbled(e) => {
                    &&& step == Step::Failed(SessionError::Malformed(e))
                    &&& final(self).phase() == SessionPhase::Failed
                    &&& final(self).stack() == old(self).stack()
                    &&& final(self).awaiting() is None
                },
                Reading::Request(out) => old(self).handled(out, step, *final(self)),
            },
    {
        if self.phase == SessionPhase::Ended || self.phase == SessionPhase::Failed {
            return Step::Failed(SessionError::NotRunning);
        }
        if self.awaiting.is_some() {
            return Step::Failed(SessionError::OutOfTurn);
        }
        let out = match decode_output(request) {
            Err(e) => {
                self.phase = SessionPhase::Failed;
                return Step::Failed(SessionError::Malformed(e));
            },
            Ok(out) => out,
        };
        match out {
            Output::Error(message) => {
                self.phase = SessionPhase::Failed;
                Step::Aborted(message)
            },
            Output::SessionStart => {
                self.phase = SessionPhase::Running;
                Step::Answer { told: Vec::new(), state: None, reply: encode_room(&self.room.info()) }
            },
            Output::SessionEnd => match self.room.finish() {
                Ok(()) => {
                    self.phase = SessionPhase::Ended;
                    Step::Answer { told: Vec::new(), state: None, reply: encode_unit() }
                },
                Err(e) => {
                    self.phase = SessionPhase::Failed;
                    Step::Failed(SessionError::Room(e))
                },
            },
            Output::UpdateState(value) => {
                let state = if self.conf.enable_state {
                    Some(value)
                } else {
                    None
                };
                Step::Answer { told: Vec::new(), state, reply: encode_unit() }
            },
            Output::DoTaskIf { allowed } => match self.room.do_task_if(allowed) {
                Ok(result) => Step::Answer {
                    told: Vec::new(),
                    state: None,
                    reply: encode_task_result(&result),
                },
                Err(e) => {
                    self.phase = SessionPhase::Failed;
                    Step::Failed(SessionError::Room(e))
                },
            },
            Output::TaskDone { targets, value } => match self.room.task_done(&targets, value.as_str()) {
                Ok(deliveries) => {
                    let ghost planned = plan(deliveries@);
                    let told = encode_verdicts(deliveries);
                    assert(planned.len() == self.current_scope().len());
                    assert forall|i: int| 0 <= i < planned.len() implies #[trigger] plan(told@)[i] == (
                        self.current_scope()[i],
                        task_result_text(
                            verdict(
                                old(self).stack().last(),
                                targets@,
                                value@,
                                self.current_scope()[i],
                            ),
                        ),
                    ) by {
                        assert(planned[i] == (
                            self.current_scope()[i],
                            verdict(
                                old(self).stack().last(),
                                targets@,
                                value@,
                                self.current_scope()[i],
                            ),
                        ));
                    }
                    assert(plan(told@) =~= Seq::new(
                        self.current_scope().len(),
                        |i: int|
                            (
                                self.current_scope()[i],
                                task_result_text(
                                    verdict(
                                        old(self).stack().last(),
                                        targets@,
                                        value@,
                                        self.current_scope()[i],
                                    ),
                                ),
                            ),
                    ));
                    Step::Answer { told, state: None, reply: encode_unit() }
                },
                Err(e) => {
                    self.phase = SessionPhase::Failed;
                    Step::Failed(SessionError::Room(e))
                },
            },
            Output::Random { start, end } => match self.room.random(start, end) {
                Ok((value, deliveries)) => {
                    let ghost planned = int_plan(deliveries@);
                    let told = encode_numbers(deliveries);
                    assert(planned.len() == self.current_scope().len());
                    assert forall|i: int| 0 <= i < planned.len() implies #[trigger] plan(told@)[i]
                        == (self.current_scope()[i], decimal(value as int)) by {
                        assert(planned[i] == (self.current_scope()[i], value));
                    }
                    assert(plan(told@) =~= Seq::new(
                        self.current_scope().len(),
                        |i: int| (self.current_scope()[i], decimal(value as int)),
                    ));
                    Step::Answer { told, state: None, reply: encode_i32(value) }
                },
                Err(e) => {
                    self.phase = SessionPhase::Failed;
                    Step::Failed(SessionError::Room(e))
                },
            },
            Output::Action { from, param: _ } => {
                if self.room.is_seated(from) {
                    self.awaiting = Some(from);
                    Step::Await { from }
                } else {
                    self.phase = SessionPhase::Failed;
                    Step::Failed(SessionError::Room(RoomError::UnknownPlayer))
                }
            },
        }
    }

    /// Whether `step` and the session `after` are what the request `out` comes to
    /// in this session.
    pub open spec fn handled(self, out: OutputView<Seq<char>>, step: Step, after: Session) -> bool {
        match out {
            OutputView::Error(message) => {
                &&& step matches Step::Aborted(m)
                &&& m@ == message
                &&& after.phase() == SessionPhase::Failed
                &&& after.stack() == self.stack()
                &&& after.awaiting() is None
            },
            OutputView::SessionStart => {
                &&& step matches Step::Answer { told, state, reply }
                &&& told@.len() == 0
                &&& state is None
                &&& reply@ == room_text(self.seats())
                &&& after.phase() == SessionPhase::Running
                &&& after.stack() == self.stack()
                &&& after.awaiting() is None
            },
            OutputView::SessionEnd => if self.stack().len() == 0 {
                &&& step matches Step::Answer { told, state, reply }
                &&& told@.len() == 0
                &&& state is None
                &&& reply@ == "null"@
                &&& after.phase() == SessionPhase::Ended
                &&& after.stack() == self.stack()
                &&& after.awaiting() is None
            } else {
                &&& step == Step::Failed(SessionError::Room(RoomError::ScopeStillOpen))
                &&& after.phase() == SessionPhase::Failed
                &&& after.stack() == self.stack()
                &&& after.awaiting() is None
            },
            OutputView::UpdateState(value) => {
                &&& step matches Step::Answer { told, state, reply }
                &&& told@.len() == 0
                &&& state.deep_view() == (if self.shows_state() {
                    Some(value)
                } else {
                    None
                })
                &&& reply@ == "null"@
                &&& after.phase() == self.phase()
                &&& after.stack() == self.stack()
                &&& after.awaiting() is None
            },
            OutputView::DoTaskIf { allowed } => if within(allowed, self.current_scope()) {
                &&& step matches Step::Answer { told, state, reply }
                &&& told@.len() == 0
                &&& state is None
                &&& reply@ == task_result_text(TaskResult::DoTask)
                &&& after.phase() == self.phase()
                &&& after.stack() == self.stack().push(allowed)
                &&& after.awaiting() is None
            } else {
                &&& step == Step::Failed(SessionError::Room(RoomError::ScopeViolation))
                &&& after.phase() == SessionPhase::Failed
                &&& after.stack() == self.stack()
                &&& after.awaiting() is None
            },
            OutputView::TaskDone { targets, value } => if self.stack().len() > 0 {
                &&& step matches Step::Answer { told, state, reply }
                &&& plan(told@) == Seq::new(
                    after.current_scope().len(),
                    |i: int|
                        (
                            after.current_scope()[i],
                            task_result_text(
                                verdict(self.stack().last(), targets, value, after.current_scope()[i]),
                            ),
                        ),
                )
                &&& state is None
                &&& reply@ == "null"@
                &&& after.phase() == self.phase()
                &&& after.stack() == self.stack().drop_last()
                &&& after.awaiting() is None
            } else {
                &&& step == Step::Failed(SessionError::Room(RoomError::NoOpenScope))
                &&& after.phase() == SessionPhase::Failed
                &&& after.stack() == self.stack()
                &&& after.awaiting() is None
            },
            OutputView::Random { start, end } => if start <= end {
                &&& step matches Step::Answer { told, state, reply }
                &&& exists|value: i32|
                    {
                        &&& start <= value <= end
                        &&& reply@ == decimal(value as int)
                        &&& #[trigger] plan(told@) == Seq::new(
                            self.current_scope().len(),
                            |i: int| (self.current_scope()[i], decimal(value as int)),
                        )
                    }
                &&& state is None
                &&& after.phase() == self.phase()
                &&& after.stack() == self.stack()
                &&& after.awaiting() is None
            } else {
                &&& step == Step::Failed(SessionError::Room(RoomError::EmptyRange))
                &&& after.phase() == SessionPhase::Failed
                &&& after.stack() == self.stack()
                &&& after.awaiting() is None
            },
            OutputView::Action { from, param } => if self.seats().contains(from) {
                &&& step == Step::Await { from }
                &&& after.phase() == self.phase()
                &&& after.stack() == self.stack()
                &&& after.awaiting() == Some(from)
            } else {
                &&& step == Step::Failed(SessionError::Room(RoomError::UnknownPlayer))
                &&& after.phase() == SessionPhase::Failed
                &&& after.stack() == self.stack()
                &&& after.awaiting() is None
            },
        }
    }

    /// Takes the move that was awaited, as the JSON text that the player sent. It
    /// is passed on unchanged to every other player of the current scope, and it
    /// is the answer to the rules.
    ///
    /// Refused with `OutOfTurn`, the session staying as it is, exactly when no
    /// move is awaited.
    pub fn acted(&mut self, value: &str) -> (step: Step)
        requires
            old(self).wf(),
        ensures
            final(self).wf(),
            final(self).seats() == old(self).seats(),
            final(self).stack() == old(self).stack(),
            final(self).phase() == old(self).phase(),
            final(self).key() == old(self).key(),
            final(self).settings() == old(self).settings(),
            match old(self).awaiting() {
                None => step == Step::Failed(SessionError::OutOfTurn) && final(self).awaiting() is None,
                Some(from) => {
                    &&& step matches Step::Answer { told, state, reply }
                    &&& plan(told@) == Seq::new(
                        others(old(self).current_scope(), from).len(),
                        |i: int| (others(old(self).current_scope(), from)[i], value@),
                    )
                    &&& state is None
                    &&& reply@ == value@
                    &&& final(self).awaiting() is None
                },
            },
    {
        let from = match self.awaiting {
            None => {
                return Step::Failed(SessionError::OutOfTurn);
            },
            Some(from) => from,
        };
        match self.room.action(from, value) {
            Ok(told) => {
                self.awaiting = None;
                Step::Answer { told, state: None, reply: value.to_owned() }
            },
            Err(e) => {
                self.awaiting = None;
                Step::Failed(SessionError::Room(e))
            },
        }
    }
}

/// A session that has ended has no scope open.
pub proof fn lemma_ended_without_scope(session: Session)
    requires
        session.wf(),
        session.phase() == SessionPhase::Ended,
    ensures
        session.stack().len() == 0,
{
}

/// A request to open a scope either names only players of the current scope, and
/// then that scope is opened, or fails the session.
pub proof fn lemma_scope_opens_within(
    session: Session,
    allowed: Seq<PlayerId>,
    step: Step,
    after: Session,
)
    requires
        session.handled(OutputView::DoTaskIf { allowed }, step, after),
    ensures
        within(allowed, session.current_scope()) || after.phase()
            == SessionPhase::Failed,
        within(allowed, session.current_scope()) ==> after.stack()
            == session.stack().push(allowed) && after.phase() == session.phase(),
        !within(allowed, session.current_scope()) ==> after.stack() == session.stack(),
{
}

/// Whoever sees the game in a session has a seat in its room, and every open
/// scope lies within the one below it.
pub proof fn lemma_session_scopes_narrow(session: Session, k: int)
    requires
        session.wf(),
        0 <= k < session.stack().len(),
    ensures
        within(session.stack()[k], session.seats()),
        k > 0 ==> within(session.stack()[k], session.stack()[k - 1]),
{
    crate::room::lemma_scopes_narrow(session.room, k);
}

} // verus!
