//! The player's side of a session: what a client does with each request of the
//! rules, which it runs for itself beside the host.
//!
//! Where the host decides, the client waits for what the host sends; where its
//! own player is to move, it asks the player and sends the move to the host.

use vstd::prelude::*;
use crate::decimal::decimal;
use crate::json::{json_value, read_value};
use crate::player::{has_seat, PlayerId, RoomInfo, SessionInfo};
use crate::session::{Config, SessionPhase};
use crate::wire::{
    decode_i32, decode_output, decode_task_result, encode_i32, encode_room, encode_task_result,
    encode_unit, i32_in, output_of, room_text, task_result_of, task_result_text, DecodeError,
    Output, OutputView, TaskResult,
};

verus! {

/// Why a client failed, or why a step was refused.
#[derive(Debug, Clone, Copy, PartialEq, Eq, Hash, Structural)]
pub enum AgentError {
    /// The request was no request.
    Malformed(DecodeError),
    /// The session is over.
    NotRunning,
    /// The step does not fit what the client waits for.
    OutOfTurn,
    /// What the host sent is not of the shape that the client waits for.
    BadMessage,
    /// The host told a player outside a scope to do the task.
    UnexpectedDoTask,
    /// The host told a player inside a scope something else than to go on.
    ExpectedDoTask,
    /// What the player typed is no JSON value.
    BadInput,
}

/// What a client waits for.
#[derive(Debug, Clone, Copy, PartialEq, Eq, Hash, Structural)]
pub enum Pending {
    /// Nothing: the next request of the rules.
    Request,
    /// What the others produced in a scope that the player is outside of.
    Sync,
    /// The word to go on after a scope that the player was inside of.
    GoOn,
    /// A number that the host drew.
    Number,
    /// The move of another player.
    Move,
    /// The move of the client's own player.
    Input,
}

/// What the client is to do after a step.
#[derive(Debug, Clone, PartialEq, Eq, Hash)]
pub enum AgentStep {
    /// Show `state` if there is one, then answer the rules with `reply`.
    Answer { state: Option<String>, reply: String },
    /// Receive one message from the host and hand it to `received`.
    Receive,
    /// Show `param` to the player, read their move and hand it to `typed`.
    Prompt { param: String },
    /// Send `payload` to the host, then answer the rules with `reply`.
    Send { payload: String, reply: String },
    /// The rules reported a failure, with this message.
    Aborted(String),
    /// The step failed.
    Failed(AgentError),
}

/// One player's client.
#[derive(Debug)]
pub struct Agent {
    player_id: PlayerId,
    room: RoomInfo,
    conf: Config,
    phase: SessionPhase,
    pending: Pending,
}

impl Agent {
    /// The seat of the client's player.
    pub closed spec fn player(&self) -> PlayerId {
        self.player_id
    }

    /// The seated players.
    pub closed spec fn seats(&self) -> Seq<PlayerId> {
        self.room.players@
    }

    /// How far the session has come.
    pub closed spec fn phase(&self) -> SessionPhase {
        self.phase
    }

    /// What the client waits for.
    pub closed spec fn pending(&self) -> Pending {
        self.pending
    }

    /// The two switches of the session: whether published state is shown, and
    /// whether the log lines of the rules are printed.
    pub closed spec fn settings(&self) -> Config {
        self.conf
    }

    /// Whether published state is shown.
    pub open spec fn shows_state(&self) -> bool {
        self.settings().enable_state
    }

    /// Whether the log lines of the rules are printed.
    pub open spec fn prints_log(&self) -> bool {
        self.settings().enable_logging
    }

    /// A client waits for the host or the player only while the session lives.
    pub closed spec fn wf(&self) -> bool {
        self.pending != Pending::Request ==> self.phase == SessionPhase::Starting || self.phase
            == SessionPhase::Running
    }

    /// The client of the player whom the host greeted with `info`.
    pub fn new(info: SessionInfo, conf: Config) -> (agent: Agent)
        ensures
            agent.wf(),
            agent.player() == info.player,
            agent.seats() == info.room.players@,
            agent.phase() == SessionPhase::Starting,
            agent.pending() == Pending::Request,
            agent.settings() == conf,
    {
        Agent {
            player_id: info.player,
            room: info.room,
            conf,
            phase: SessionPhase::Starting,
            pending: Pending::Request,
        }
    }

    /// The two switches of the client.
    pub fn conf(&self) -> (conf: Config)
        ensures
            conf == self.settings(),
    {
        self.conf
    }

    /// How far the session has come.
    pub fn current_phase(&self) -> (phase: SessionPhase)
        ensures
            phase == self.phase(),
    {
        self.phase
    }

    /// Takes one request of the rules, as the JSON text that the guest wrote.
    ///
    /// A session that is over, or a client that waits for something, refuses and
    /// stays as it is. A text that is no request and a failure that the rules
    /// report fail the session.
    pub fn handle(&mut self, request: &str) -> (step: AgentStep)
        requires
            old(self).wf(),
        ensures
            final(self).wf(),
            final(self).player() == old(self).player(),
            final(self).seats() == old(self).seats(),
            final(self).settings() == old(self).settings(),
            if old(self).phase() == SessionPhase::Ended || old(self).phase()
                == SessionPhase::Failed {
                &&& step == AgentStep::Failed(AgentError::NotRunning)
                &&& final(self).phase() == old(self).phase()
                &&& final(self).pending() == old(self).pending()
            } else if old(self).pending() != Pending::Request {
                &&& step == AgentStep::Failed(AgentError::OutOfTurn)
                &&& final(self).phase() == old(self).phase()
                &&& final(self).pending() == old(self).pending()
            } else {
                match output_of(request@) {
                    Err(e) => {
                        &&& step == AgentStep::Failed(AgentError::Malformed(e))
                        &&& final(self).phase() == SessionPhase::Failed
                        &&& final(self).pending() == Pending::Request
                    },
                    Ok(out) => old(self).handled(out, step, *final(self)),
                }
            },
    {
        if self.phase == SessionPhase::Ended || self.phase == SessionPhase::Failed {
            return AgentStep::Failed(AgentError::NotRunning);
        }
        if self.pending != Pending::Request {
            return AgentStep::Failed(AgentError::OutOfTurn);
        }
        let out = match decode_output(request) {
            Err(e) => {
                self.phase = SessionPhase::Failed;
                return AgentStep::Failed(AgentError::Malformed(e));
            },
            Ok(out) => out,
        };
        match out {
            Output::Error(message) => {
                self.phase = SessionPhase::Failed;
                AgentStep::Aborted(message)
            },
            Output::SessionStart => {
                self.phase = SessionPhase::Running;
                AgentStep::Answer { state: None, reply: encode_room(&self.room) }
            },
            Output::SessionEnd => {
                self.phase = SessionPhase::Ended;
                AgentStep::Answer { state: None, reply: encode_unit() }
            },
            Output::UpdateState(value) => {
                let state = if self.conf.enable_state {
                    Some(value)
                } else {
                    None
                };
                AgentStep::Answer { state, reply: encode_unit() }
            },
            Output::DoTaskIf { allowed } => {
                if has_seat(&allowed, self.player_id) {
                    AgentStep::Answer { state: None, reply: encode_task_result(&TaskResult::DoTask) }
                } else {
                    self.pending = Pending::Sync;
                    AgentStep::Receive
                }
            },
            Output::TaskDone { targets: _, value: _ } => {
                self.pending = Pending::GoOn;
                AgentStep::Receive
            },
            Output::Random { start: _, end: _ } => {
                self.pending = Pending::Number;
                AgentStep::Receive
            },
            Output::Action { from, param } => {
                if from == self.player_id {
                    self.pending = Pending::Input;
                    AgentStep::Prompt { param }
                } else {
                    self.pending = Pending::Move;
                    AgentStep::Receive
                }
            },
        }
    }

    /// Whether `step` and the client `after` are what the request `out` comes to
    /// for this client.
    pub open spec fn handled(self, out: OutputView<Seq<char>>, step: AgentStep, after: Agent) -> bool {
        match out {
            OutputView::Error(message) => {
                &&& step matches AgentStep::Aborted(m)
                &&& m@ == message
                &&& after.phase() == SessionPhase::Failed
                &&& after.pending() == Pending::Request
            },
            OutputView::SessionStart => {
                &&& step matches AgentStep::Answer { state, reply }
                &&& state is None
                &&& reply@ == room_text(self.seats())
                &&& after.phase() == SessionPhase::Running
                &&& after.pending() == Pending::Request
            },
            OutputView::SessionEnd => {
                &&& step matches AgentStep::Answer { state, reply }
                &&& state is None
                &&& reply@ == "null"@
                &&& after.phase() == SessionPhase::Ended
                &&& after.pending() == Pending::Request
            },
            OutputView::UpdateState(value) => {
                &&& step matches AgentStep::Answer { state, reply }
                &&& state.deep_view() == (if self.shows_state() {
                    Some(value)
                } else {
                    None
                })
                &&& reply@ == "null"@
                &&& after.phase() == self.phase()
                &&& after.pending() == Pending::Request
            },
            OutputView::DoTaskIf { allowed } => if allowed.contains(self.player()) {
                &&& step matches AgentStep::Answer { state, reply }
                &&& state is None
                &&& reply@ == task_result_text(TaskResult::DoTask)
                &&& after.phase() == self.phase()
                &&& after.pending() == Pending::Request
            } else {
                &&& step == AgentStep::Receive
                &&& after.phase() == self.phase()
                &&& after.pending() == Pending::Sync
            },
            OutputView::TaskDone { .. } => {
                &&& step == AgentStep::Receive
                &&& after.phase() == self.phase()
                &&& after.pending() == Pending::GoOn
            },
            OutputView::Random { .. } => {
                &&& step == AgentStep::Receive
                &&& after.phase() == self.phase()
                &&& after.pending() == Pending::Number
            },
            OutputView::Action { from, param } => if from == self.player() {
                &&& step matches AgentStep::Prompt { param: shown }
                &&& shown@ == param
                &&& after.phase() == self.phase()
                &&& after.pending() == Pending::Input
            } else {
                &&& step == AgentStep::Receive
                &&& after.phase() == self.phase()
                &&& after.pending() == Pending::Move
            },
        }
    }

    /// Takes the message of the host that the client waited for, as the JSON text
    /// of its payload, and says what to answer the rules.
    ///
    /// Refused with `OutOfTurn`, the client staying as it is, when the client does
    /// not wait for the host. A message that is not what the client waits for
    /// fails the session.
    pub fn received(&mut self, payload: &str) -> (step: AgentStep)
        requires
            old(self).wf(),
        ensures
            final(self).wf(),
            final(self).player() == old(self).player(),
            final(self).seats() == old(self).seats(),
            final(self).settings() == old(self).settings(),
            match Self::reception(old(self).pending(), payload@) {
                None => {
                    &&& step == AgentStep::Failed(AgentError::OutOfTurn)
                    &&& final(self).phase() == old(self).phase()
                    &&& final(self).pending() == old(self).pending()
                },
                Some(Err(e)) => {
                    &&& step == AgentStep::Failed(e)
                    &&& final(self).phase() == SessionPhase::Failed
                    &&& final(self).pending() == Pending::Request
                },
                Some(Ok(reply)) => {
                    &&& step matches AgentStep::Answer { state, reply: r }
                    &&& state is None
                    &&& r@ == reply
                    &&& final(self).phase() == old(self).phase()
                    &&& final(self).pending() == Pending::Request
                },
            },
    {
        let outcome: Result<String, AgentError> = match self.pending {
            Pending::Request | Pending::Input => {
                return AgentStep::Failed(AgentError::OutOfTurn);
            },
            Pending::Sync => match decode_task_result(payload) {
                Err(_) => Err(AgentError::BadMessage),
                Ok(TaskResult::DoTask) => Err(AgentError::UnexpectedDoTask),
                Ok(result) => Ok(encode_task_result(&result)),
            },
            Pending::GoOn => match decode_task_result(payload) {
                Err(_) => Err(AgentError::BadMessage),
                Ok(TaskResult::DoTask) => Ok(encode_unit()),
                Ok(_) => Err(AgentError::ExpectedDoTask),
            },
            Pending::Number => match decode_i32(payload) {
                None => Err(AgentError::BadMessage),
                Some(value) => Ok(encode_i32(value)),
            },
            Pending::Move => Ok(payload.to_owned()),
        };
        self.pending = Pending::Request;
        match outcome {
            Ok(reply) => AgentStep::Answer { state: None, reply },
            Err(e) => {
                self.phase = SessionPhase::Failed;
                AgentStep::Failed(e)
            },
        }
    }

    /// What a message of the host comes to for a client that waits for `pending`:
    /// `None` where the client does not wait for the host, else the answer to the
    /// rules or the failure.
    pub open spec fn reception(pending: Pending, payload: Seq<char>) -> Option<
        Result<Seq<char>, AgentError>,
    > {
        match pending {
            Pending::Request | Pending::Input => None,
            Pending::Sync => Some(
                match task_result_of(payload) {
                    Err(_) => Err(AgentError::BadMessage),
                    Ok(TaskResult::DoTask) => Err(AgentError::UnexpectedDoTask),
                    Ok(result) => Ok(task_result_text(result)),
                },
            ),
            Pending::GoOn => Some(
                match task_result_of(payload) {
                    Err(_) => Err(AgentError::BadMessage),
                    Ok(TaskResult::DoTask) => Ok("null"@),
                    Ok(_) => Err(AgentError::ExpectedDoTask),
                },
            ),
            Pending::Number => Some(
                match i32_in(Some(payload)) {
                    None => Err(AgentError::BadMessage),
                    Some(value) => Ok(decimal(value as int)),
                },
            ),
            Pending::Move => Some(Ok(payload)),
        }
    }

    /// Takes what the player typed as their move. Where it is one JSON value, it
    /// is sent to the host and is the answer to the rules, without the white space
    /// around it.
    ///
    /// Refused with `OutOfTurn`, the client staying as it is, when no move of the
    /// player is awaited. What is no JSON value fails the session with
    /// `BadInput`.
    pub fn typed(&mut self, input: String) -> (step: AgentStep)
        requires
            old(self).wf(),
        ensures
            final(self).wf(),
            final(self).player() == old(self).player(),
            final(self).seats() == old(self).seats(),
            final(self).settings() == old(self).settings(),
            if old(self).pending() != Pending::Input {
                &&& step == AgentStep::Failed(AgentError::OutOfTurn)
                &&& final(self).phase() == old(self).phase()
                &&& final(self).pending() == old(self).pending()
            } else {
                match json_value(input@) {
                    Some(value) => {
                        &&& step matches AgentStep::Send { payload, reply }
                        &&& payload@ == value
                        &&& reply@ == value
                        &&& final(self).phase() == old(self).phase()
                        &&& final(self).pending() == Pending::Request
                    },
                    None => {
                        &&& step == AgentStep::Failed(AgentError::BadInput)
                        &&& final(self).phase() == SessionPhase::Failed
                        &&& final(self).pending() == Pending::Request
                    },
                }
            },
    {
        if self.pending != Pending::Input {
            return AgentStep::Failed(AgentError::OutOfTurn);
        }
        self.pending = Pending::Request;
        match read_value(input) {
            Some(value) => AgentStep::Send { payload: value.clone(), reply: value },
            None => {
                self.phase = SessionPhase::Failed;
                AgentStep::Failed(AgentError::BadInput)
            },
        }
    }

    /// Marks the session as failed, for a failure that the client met itself: a
    /// channel that broke, a reply that did not fit.
    pub fn fail(&mut self)
        requires
            old(self).wf(),
        ensures
            final(self).wf(),
            final(self).phase() == SessionPhase::Failed,
            final(self).pending() == Pending::Request,
            final(self).player() == old(self).player(),
            final(self).seats() == old(self).seats(),
            final(self).settings() == old(self).settings(),
    {
        self.phase = SessionPhase::Failed;
        self.pending = Pending::Request;
    }
}

} // verus!
