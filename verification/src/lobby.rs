//! The lobby: who may take a seat before a session starts.

use vstd::prelude::*;
use crate::player::{copy_seats, has_seat, PlayerId, RoomInfo};

verus! {

/// Why a player was not admitted.
#[derive(Debug, Clone, Copy, PartialEq, Eq, Hash, Structural)]
pub enum AdmissionError {
    /// The session of the room has started or the room never was.
    RoomNotFound,
    /// All eight seats are taken.
    RoomFull,
    /// The seat is taken.
    ColorTaken,
}

/// A room that waits for its players.
#[derive(Debug)]
pub struct Lobby {
    open: bool,
    connections: Vec<PlayerId>,
}

impl Lobby {
    /// Whether players are still admitted.
    pub closed spec fn is_open(&self) -> bool {
        self.open
    }

    /// The players admitted so far, in the order in which they came.
    pub closed spec fn seated(&self) -> Seq<PlayerId> {
        self.connections@
    }

    /// Nobody sits twice, and there are no more players than seats.
    pub open spec fn wf(&self) -> bool {
        &&& self.seated().no_duplicates()
        &&& self.seated().len() <= 8
    }

    /// An open lobby with nobody in it.
    pub fn new() -> (lobby: Lobby)
        ensures
            lobby.wf(),
            lobby.is_open(),
            lobby.seated().len() == 0,
    {
        Lobby { open: true, connections: Vec::new() }
    }

    /// Admits a player to the seat `color`.
    ///
    /// Fails, and admits nobody, with `RoomNotFound` once the session has
    /// started, else with `RoomFull` when eight players are in, else with
    /// `ColorTaken` when the seat is taken.
    pub fn connect(&mut self, color: PlayerId) -> (admitted: Result<(), AdmissionError>)
        requires
            old(self).wf(),
        ensures
            final(self).wf(),
            final(self).is_open() == old(self).is_open(),
            admitted == Self::admission(old(self).is_open(), old(self).seated(), color),
            final(self).seated() == (if admitted is Ok {
                old(self).seated().push(color)
            } else {
                old(self).seated()
            }),
    {
        if !self.open {
            return Err(AdmissionError::RoomNotFound);
        }
        if self.connections.len() == 8 {
            return Err(AdmissionError::RoomFull);
        }
        if has_seat(&self.connections, color) {
            return Err(AdmissionError::ColorTaken);
        }
        self.connections.push(color);
        Ok(())
    }

    /// Whether a player comes in who asks for `color`.
    pub open spec fn admission(open: bool, seated: Seq<PlayerId>, color: PlayerId) -> Result<
        (),
        AdmissionError,
    > {
        if !open {
            Err(AdmissionError::RoomNotFound)
        } else if seated.len() == 8 {
            Err(AdmissionError::RoomFull)
        } else if seated.contains(color) {
            Err(AdmissionError::ColorTaken)
        } else {
            Ok(())
        }
    }

    /// Closes the lobby for the start of the session. The result is the room:
    /// the players in the order in which they came.
    ///
    /// Fails with `RoomNotFound` exactly when the lobby was closed before.
    pub fn start(&mut self) -> (room: Result<RoomInfo, AdmissionError>)
        requires
            old(self).wf(),
        ensures
            final(self).wf(),
            !final(self).is_open(),
            final(self).seated() == old(self).seated(),
            match room {
                Ok(r) => old(self).is_open() && r.players@ == old(self).seated()
                    && r.players@.no_duplicates(),
                Err(e) => e == AdmissionError::RoomNotFound && !old(self).is_open(),
            },
    {
        if !self.open {
            return Err(AdmissionError::RoomNotFound);
        }
        self.open = false;
        Ok(RoomInfo { players: copy_seats(&self.connections) })
    }
}

} // verus!
