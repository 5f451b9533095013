//! The reliable channel: one numbered message at a time, each acknowledged.
//!
//! The channel owns no connection. It says what to put on the wire and what to
//! make of each frame that comes in; whoever holds the connection carries that
//! out, one step at a time.

use vstd::prelude::*;
use crate::frame::{
    ack_text, decode_frame, encode_ack, encode_msg, frame_of, lemma_ack_comes_back,
    lemma_msg_comes_back, msg_text, Frame,
};
use crate::json::{json_value, read_value};
use crate::text::same_text;
use crate::wire::DecodeError;

verus! {

/// Why a channel failed, or why a step was refused. Every failure closes the
/// channel for good; a refusal (`BadPayload`, `OutOfTurn`, `Closed`) leaves it as
/// it is.
#[derive(Debug, Clone, Copy, PartialEq, Eq, Hash, Structural)]
pub enum ChannelError {
    /// The payload to send is not one JSON value, written without white space
    /// around it.
    BadPayload,
    /// No message id is left to give.
    IdOverflow,
    /// The stream ended before the acknowledgement of a message came.
    ClosedMidSend,
    /// The stream ended before a message came.
    ClosedMidReceive,
    /// What came in was no frame.
    InvalidFrame(DecodeError),
    /// A second message came in while the first was still waiting to be received.
    SecondMessage,
    /// The step does not fit what the channel is doing.
    OutOfTurn,
    /// Something came in that is no text.
    NonText,
    /// The channel had failed before.
    Closed,
}

/// What a channel is doing.
#[derive(Debug, Clone, Copy, PartialEq, Eq, Hash, Structural)]
pub enum Phase {
    /// Nothing is under way.
    Idle,
    /// The message with this id is out and not yet acknowledged.
    Sending(u32),
    /// The channel failed.
    Closed,
}

/// How far a send has come after a step.
#[derive(Debug, Clone, Copy, PartialEq, Eq, Hash, Structural)]
pub enum SendStep {
    /// The acknowledgement came: the send is complete.
    Done,
    /// Read the next frame and step again.
    Waiting,
    /// The send failed.
    Failed(ChannelError),
}

/// How far a receive has come after a step.
#[derive(Debug, Clone, PartialEq, Eq, Hash)]
pub enum ReceiveStep {
    /// A message came: put `ack` on the wire, then hand `payload` on.
    Delivered { payload: String, ack: String },
    /// Read the next frame and step again.
    Waiting,
    /// The receive failed.
    Failed(ChannelError),
}

/// One end of a connection.
pub struct Channel {
    next_id: u32,
    received: Option<(u32, String)>,
    phase: Phase,
    emitted: Ghost<Seq<u32>>,
    acked: Ghost<Seq<u32>>,
}

impl Channel {
    /// The id that the next message gets.
    pub closed spec fn next_id(&self) -> u32 {
        self.next_id
    }

    /// The message that came in during a send and waits to be received: its id
    /// and its payload.
    pub closed spec fn stashed(&self) -> Option<(u32, Seq<char>)> {
        match self.received {
            Some((id, payload)) => Some((id, payload@)),
            None => None,
        }
    }

    /// What the channel is doing.
    pub closed spec fn phase(&self) -> Phase {
        self.phase
    }

    /// The ids of the messages put on the wire so far, oldest first.
    pub closed spec fn emitted(&self) -> Seq<u32> {
        self.emitted@
    }

    /// The ids of the messages whose acknowledgement came in, oldest first.
    pub closed spec fn acknowledged(&self) -> Seq<u32> {
        self.acked@
    }

    /// The ids given so far are 0, 1, 2, and so on up to the next id, each once;
    /// a send under way is the send of the newest of them; and every message but
    /// the newest has been acknowledged, the newest too unless its send is under
    /// way or the channel failed.
    pub closed spec fn wf(&self) -> bool {
        &&& self.emitted@.len() == self.next_id
        &&& forall|i: int| 0 <= i < self.emitted@.len() ==> self.emitted@[i] == i
        &&& self.phase matches Phase::Sending(id) ==> id + 1 == self.next_id
        &&& self.acked@.len() <= self.emitted@.len()
        &&& self.acked@ == self.emitted@.take(self.acked@.len() as int)
        &&& self.phase == Phase::Idle ==> self.acked@.len() == self.emitted@.len()
        &&& self.phase is Sending ==> self.acked@.len() + 1 == self.emitted@.len()
        &&& self.phase == Phase::Closed ==> self.acked@.len() + 1 >= self.emitted@.len()
    }

    /// A fresh channel: nothing sent, nothing waiting.
    pub fn new() -> (channel: Channel)
        ensures
            channel.wf(),
            channel.next_id() == 0,
            channel.stashed() is None,
            channel.phase() == Phase::Idle,
            channel.emitted() == Seq::<u32>::empty(),
            channel.acknowledged() == Seq::<u32>::empty(),
    {
        assert(Seq::<u32>::empty().take(0) =~= Seq::<u32>::empty());
        Channel {
            next_id: 0,
            received: None,
            phase: Phase::Idle,
            emitted: Ghost(Seq::empty()),
            acked: Ghost(Seq::empty()),
        }
    }

    /// A channel on which every id below `next_id` has been given already.
    pub fn with_next_id(next_id: u32) -> (channel: Channel)
        ensures
            channel.wf(),
            channel.next_id() == next_id,
            channel.stashed() is None,
            channel.phase() == Phase::Idle,
            channel.emitted() == Seq::new(next_id as nat, |i: int| i as u32),
            channel.acknowledged() == channel.emitted(),
    {
        let ghost given = Seq::new(next_id as nat, |i: int| i as u32);
        assert(given.take(given.len() as int) =~= given);
        Channel {
            next_id,
            received: None,
            phase: Phase::Idle,
            emitted: Ghost(given),
            acked: Ghost(given),
        }
    }

    /// What the channel is doing.
    pub fn current_phase(&self) -> (phase: Phase)
        ensures
            phase == self.phase(),
    {
        self.phase
    }

    /// Why a send cannot start on a channel that is in `phase` and is to give
    /// `next_id`, for the payload `val`; `None` where it can.
    pub open spec fn send_refusal(phase: Phase, next_id: u32, val: Seq<char>) -> Option<
        ChannelError,
    > {
        match phase {
            Phase::Closed => Some(ChannelError::Closed),
            Phase::Sending(_) => Some(ChannelError::OutOfTurn),
            Phase::Idle => if next_id == u32::MAX {
                Some(ChannelError::IdOverflow)
            } else if json_value(val) != Some(val) {
                Some(ChannelError::BadPayload)
            } else {
                None
            },
        }
    }

    /// Starts to send `val`, a payload that is one JSON value. The result is the
    /// frame to put on the wire: the message with the next id, which reads back as
    /// that message. After that, feed `send_step` with what comes in until it says
    /// that the send is done.
    ///
    /// Refused, the channel staying as it is, on a closed channel, while another
    /// send is under way, and where the payload is not one JSON value or has
    /// white space around it. Where no id is left, the send fails and the channel
    /// is closed.
    pub fn send(&mut self, val: &str) -> (frame: Result<String, ChannelError>)
        requires
            old(self).wf(),
        ensures
            final(self).wf(),
            final(self).stashed() == old(self).stashed(),
            final(self).acknowledged() == old(self).acknowledged(),
            match frame {
                Ok(text) => {
                    &&& Self::send_refusal(old(self).phase(), old(self).next_id(), val@) is None
                    &&& text@ == msg_text(old(self).next_id(), val@)
                    &&& frame_of(text@) == Ok::<Frame<Seq<char>>, DecodeError>(
                        Frame::Msg { id: old(self).next_id(), val: val@ },
                    )
                    &&& final(self).phase() == Phase::Sending(old(self).next_id())
                    &&& final(self).next_id() == old(self).next_id() + 1
                    &&& final(self).emitted() == old(self).emitted().push(old(self).next_id())
                },
                Err(e) => {
                    &&& Self::send_refusal(old(self).phase(), old(self).next_id(), val@) == Some(e)
                    &&& final(self).phase() == (if e == ChannelError::IdOverflow {
                        Phase::Closed
                    } else {
                        old(self).phase()
                    })
                    &&& final(self).next_id() == old(self).next_id()
                    &&& final(self).emitted() == old(self).emitted()
                },
            },
    {
        match self.phase {
            Phase::Closed => Err(ChannelError::Closed),
            Phase::Sending(_) => Err(ChannelError::OutOfTurn),
            Phase::Idle => {
                let current_id = self.next_id;
                if current_id == u32::MAX {
                    self.phase = Phase::Closed;
                    return Err(ChannelError::IdOverflow);
                }
                let plain = match read_value(val.to_owned()) {
                    None => false,
                    Some(value) => same_text(value.as_str(), val),
                };
                if !plain {
                    return Err(ChannelError::BadPayload);
                }
                let ghost before = self.emitted@;
                self.next_id = current_id + 1;
                self.phase = Phase::Sending(current_id);
                self.emitted = Ghost(before.push(current_id));
                proof {
                    lemma_msg_comes_back(current_id, val@);
                    assert(before.push(current_id).take(before.len() as int) =~= before);
                    assert(before.take(before.len() as int) =~= before);
                }
                Ok(encode_msg(current_id, val))
            },
        }
    }

    /// Takes the next event of a send under way: a frame that came in, or `None`
    /// where the stream ended.
    ///
    /// The send is done exactly when the frame acknowledges the message that is
    /// out. Another acknowledgement is passed over. A message is put aside for the
    /// next receive, unless one is put aside already: then the step fails, as it
    /// does on the end of the stream and on what is no frame. A failure closes the
    /// channel.
    pub fn send_step(&mut self, incoming: Option<&str>) -> (step: SendStep)
        requires
            old(self).wf(),
        ensures
            final(self).wf(),
            final(self).next_id() == old(self).next_id(),
            final(self).emitted() == old(self).emitted(),
            final(self).acknowledged() == (if step == SendStep::Done {
                old(self).emitted()
            } else {
                old(self).acknowledged()
            }),
            step == Self::send_outcome(old(self).phase(), old(self).stashed(), incoming.deep_view()),
            final(self).phase() == (match step {
                SendStep::Done => Phase::Idle,
                SendStep::Waiting => old(self).phase(),
                SendStep::Failed(ChannelError::OutOfTurn) => old(self).phase(),
                SendStep::Failed(_) => Phase::Closed,
            }),
            final(self).stashed() == (if step == SendStep::Waiting {
                stash_after(old(self).stashed(), incoming.deep_view())
            } else {
                old(self).stashed()
            }),
    {
        let current_id = match self.phase {
            Phase::Closed => {
                return SendStep::Failed(ChannelError::Closed);
            },
            Phase::Idle => {
                return SendStep::Failed(ChannelError::OutOfTurn);
            },
            Phase::Sending(id) => id,
        };
        let text = match incoming {
            None => {
                self.phase = Phase::Closed;
                return SendStep::Failed(ChannelError::ClosedMidSend);
            },
            Some(text) => text,
        };
        match decode_frame(text) {
            Err(e) => {
                self.phase = Phase::Closed;
                SendStep::Failed(ChannelError::InvalidFrame(e))
            },
            Ok(Frame::Ack(id)) => {
                if id == current_id {
                    self.phase = Phase::Idle;
                    self.acked = Ghost(self.emitted@);
                    assert(self.emitted@.take(self.emitted@.len() as int) =~= self.emitted@);
                    SendStep::Done
                } else {
                    SendStep::Waiting
                }
            },
            Ok(Frame::Msg { id, val }) => {
                if self.received.is_some() {
                    self.phase = Phase::Closed;
                    SendStep::Failed(ChannelError::SecondMessage)
                } else {
                    self.received = Some((id, val));
                    SendStep::Waiting
                }
            },
        }
    }

    /// What a step of a send comes to, given what the channel is doing, whether a
    /// message is put aside, and the event.
    pub open spec fn send_outcome(
        phase: Phase,
        stashed: Option<(u32, Seq<char>)>,
        incoming: Option<Seq<char>>,
    ) -> SendStep {
        match phase {
            Phase::Closed => SendStep::Failed(ChannelError::Closed),
            Phase::Idle => SendStep::Failed(ChannelError::OutOfTurn),
            Phase::Sending(current) => match incoming {
                None => SendStep::Failed(ChannelError::ClosedMidSend),
                Some(text) => match frame_of(text) {
                    Err(e) => SendStep::Failed(ChannelError::InvalidFrame(e)),
                    Ok(Frame::Ack(id)) => if id == current {
                        SendStep::Done
                    } else {
                        SendStep::Waiting
                    },
                    Ok(Frame::Msg { .. }) => if stashed is Some {
                        SendStep::Failed(ChannelError::SecondMessage)
                    } else {
                        SendStep::Waiting
                    },
                },
            },
        }
    }

    /// Takes note that something came in that is no text, or that the connection
    /// broke in another way. That closes the channel, whatever it was doing.
    pub fn non_text(&mut self) -> (error: ChannelError)
        requires
            old(self).wf(),
        ensures
            final(self).wf(),
            final(self).next_id() == old(self).next_id(),
            final(self).emitted() == old(self).emitted(),
            final(self).acknowledged() == old(self).acknowledged(),
            final(self).stashed() == old(self).stashed(),
            final(self).phase() == Phase::Closed,
            error == (if old(self).phase() == Phase::Closed {
                ChannelError::Closed
            } else {
                ChannelError::NonText
            }),
    {
        let error = match self.phase {
            Phase::Closed => ChannelError::Closed,
            _ => ChannelError::NonText,
        };
        self.phase = Phase::Closed;
        error
    }

    /// What the channel is doing after a step of a receive: as before, unless the
    /// step failed on the end of the stream or on what is no frame.
    pub open spec fn phase_after_receive(phase: Phase, incoming: Option<Seq<char>>) -> Phase {
        match phase {
            Phase::Idle => match incoming {
                None => Phase::Closed,
                Some(text) => if frame_of(text) is Err {
                    Phase::Closed
                } else {
                    Phase::Idle
                },
            },
            _ => phase,
        }
    }

    /// Starts to receive. Where a message was put aside during a send, it is
    /// delivered at once, with the acknowledgement to put on the wire. Otherwise
    /// the result is `Waiting`: feed `receive_step` with what comes in.
    pub fn receive(&mut self) -> (step: ReceiveStep)
        requires
            old(self).wf(),
        ensures
            final(self).wf(),
            final(self).next_id() == old(self).next_id(),
            final(self).emitted() == old(self).emitted(),
            final(self).acknowledged() == old(self).acknowledged(),
            final(self).phase() == old(self).phase(),
            match old(self).phase() {
                Phase::Closed => step == ReceiveStep::Failed(ChannelError::Closed)
                    && final(self).stashed() == old(self).stashed(),
                Phase::Sending(_) => step == ReceiveStep::Failed(ChannelError::OutOfTurn)
                    && final(self).stashed() == old(self).stashed(),
                Phase::Idle => match old(self).stashed() {
                    Some((id, val)) => {
                        &&& step matches ReceiveStep::Delivered { payload, ack }
                        &&& payload@ == val
                        &&& ack@ == ack_text(id)
                        &&& frame_of(ack@) == Ok::<Frame<Seq<char>>, DecodeError>(Frame::Ack(id))
                        &&& final(self).stashed() is None
                    },
                    None => step == ReceiveStep::Waiting && final(self).stashed() is None,
                },
            },
    {
        match self.phase {
            Phase::Closed => ReceiveStep::Failed(ChannelError::Closed),
            Phase::Sending(_) => ReceiveStep::Failed(ChannelError::OutOfTurn),
            Phase::Idle => match self.received.take() {
                Some((id, payload)) => {
                    proof {
                        lemma_ack_comes_back(id);
                    }
                    ReceiveStep::Delivered { payload, ack: encode_ack(id) }
                },
                None => ReceiveStep::Waiting,
            },
        }
    }

    /// Takes the next event of a receive under way: a frame that came in, or
    /// `None` where the stream ended.
    ///
    /// A message is delivered with its acknowledgement. An acknowledgement is
    /// stale and passed over. The end of the stream and what is no frame fail the
    /// receive and close the channel.
    pub fn receive_step(&mut self, incoming: Option<&str>) -> (step: ReceiveStep)
        requires
            old(self).wf(),
        ensures
            final(self).wf(),
            final(self).next_id() == old(self).next_id(),
            final(self).emitted() == old(self).emitted(),
            final(self).acknowledged() == old(self).acknowledged(),
            final(self).stashed() == old(self).stashed(),
            final(self).phase() == Self::phase_after_receive(old(self).phase(), incoming.deep_view()),
            match old(self).phase() {
                Phase::Closed => step == ReceiveStep::Failed(ChannelError::Closed),
                Phase::Sending(_) => step == ReceiveStep::Failed(ChannelError::OutOfTurn),
                Phase::Idle => match incoming {
                    None => step == ReceiveStep::Failed(ChannelError::ClosedMidReceive),
                    Some(text) => match frame_of(text@) {
                        Err(e) => step == ReceiveStep::Failed(ChannelError::InvalidFrame(e)),
                        Ok(Frame::Ack(_)) => step == ReceiveStep::Waiting,
                        Ok(Frame::Msg { id, val }) => {
                            &&& step matches ReceiveStep::Delivered { payload, ack }
                            &&& payload@ == val
                            &&& ack@ == ack_text(id)
                            &&& frame_of(ack@) == Ok::<Frame<Seq<char>>, DecodeError>(
                                Frame::Ack(id),
                            )
                        },
                    },
                },
            },
    {
        match self.phase {
            Phase::Closed => {
                return ReceiveStep::Failed(ChannelError::Closed);
            },
            Phase::Sending(_) => {
                return ReceiveStep::Failed(ChannelError::OutOfTurn);
            },
            Phase::Idle => {},
        }
        let text = match incoming {
            None => {
                self.phase = Phase::Closed;
                return ReceiveStep::Failed(ChannelError::ClosedMidReceive);
            },
            Some(text) => text,
        };
        match decode_frame(text) {
            Err(e) => {
                self.phase = Phase::Closed;
                ReceiveStep::Failed(ChannelError::InvalidFrame(e))
            },
            Ok(Frame::Ack(_)) => ReceiveStep::Waiting,
            Ok(Frame::Msg { id, val }) => {
                proof {
                    lemma_ack_comes_back(id);
                }
                ReceiveStep::Delivered { payload: val, ack: encode_ack(id) }
            },
        }
    }
}

/// On every channel the message ids put on the wire are 0, 1, 2, and so on, in
/// this order, without a gap and none twice.
pub proof fn lemma_ids_count_up(channel: Channel)
    requires
        channel.wf(),
    ensures
        channel.emitted().len() == channel.next_id(),
        forall|i: int| 0 <= i < channel.emitted().len() ==> channel.emitted()[i] == i,
        channel.emitted().no_duplicates(),
{
}

/// Whether `incoming` is the acknowledgement of the message `id`.
pub open spec fn acknowledges(incoming: Option<Seq<char>>, id: u32) -> bool {
    match incoming {
        Some(text) => frame_of(text) == Ok::<Frame<Seq<char>>, DecodeError>(Frame::Ack(id)),
        None => false,
    }
}

/// Every message that was put on the wire has been acknowledged, but for the
/// newest while its send is under way or after the channel failed.
pub proof fn lemma_sent_is_acknowledged(channel: Channel, k: int)
    requires
        channel.wf(),
        0 <= k < channel.emitted().len(),
    ensures
        channel.acknowledged().contains(channel.emitted()[k]) || (k == channel.emitted().len() - 1
            && channel.phase() != Phase::Idle),
{
    if k < channel.acknowledged().len() {
        assert(channel.acknowledged()[k] == channel.emitted()[k]);
    }
}

/// A step of a send that is under way ends the send in one of two ways only: with
/// the acknowledgement of the very message that is out, or in failure; and the
/// end of the stream always is such a failure.
pub proof fn lemma_send_ends_on_its_ack(
    current: u32,
    stashed: Option<(u32, Seq<char>)>,
    incoming: Option<Seq<char>>,
)
    ensures
        Channel::send_outcome(Phase::Sending(current), stashed, incoming) == SendStep::Done
            <==> acknowledges(incoming, current),
        incoming is None ==> Channel::send_outcome(Phase::Sending(current), stashed, incoming)
            == SendStep::Failed(ChannelError::ClosedMidSend),
{
}

/// What is put aside after a step of a send that goes on waiting: the message
/// that came in, where one came in.
pub open spec fn stash_after(stashed: Option<(u32, Seq<char>)>, incoming: Option<Seq<char>>) -> Option<
    (u32, Seq<char>),
> {
    match incoming {
        Some(text) => match frame_of(text) {
            Ok(Frame::Msg { id, val }) => Some((id, val)),
            _ => stashed,
        },
        None => stashed,
    }
}

/// How the send of the message `current` comes out when it is fed `events` in
/// turn, up to the first step that does not go on waiting.
pub open spec fn send_run(
    current: u32,
    stashed: Option<(u32, Seq<char>)>,
    events: Seq<Option<Seq<char>>>,
) -> SendStep
    decreases events.len(),
{
    if events.len() == 0 {
        SendStep::Waiting
    } else {
        match Channel::send_outcome(Phase::Sending(current), stashed, events[0]) {
            SendStep::Waiting => send_run(
                current,
                stash_after(stashed, events[0]),
                events.drop_first(),
            ),
            settled => settled,
        }
    }
}

/// Every message that is sent is acknowledged or the send is reported as failed:
/// on a stream that ends, a send does not stay waiting, and it is done only
/// where the acknowledgement of the very message came in.
pub proof fn lemma_send_settles(
    current: u32,
    stashed: Option<(u32, Seq<char>)>,
    events: Seq<Option<Seq<char>>>,
)
    requires
        events.len() > 0,
        events.last() is None,
    ensures
        send_run(current, stashed, events) != SendStep::Waiting,
        send_run(current, stashed, events) == SendStep::Done ==> exists|k: int|
            0 <= k < events.len() && acknowledges(#[trigger] events[k], current),
    decreases events.len(),
{
    let first = Channel::send_outcome(Phase::Sending(current), stashed, events[0]);
    if first == SendStep::Waiting {
        let rest = events.drop_first();
        lemma_send_settles(current, stash_after(stashed, events[0]), rest);
        if send_run(current, stashed, events) == SendStep::Done {
            let k = choose|k: int| 0 <= k < rest.len() && acknowledges(#[trigger] rest[k], current);
            assert(events[k + 1] == rest[k]);
        }
    } else if first == SendStep::Done {
        assert(acknowledges(events[0], current));
    }
}

} // verus!
