//! Player identities and the rooms they sit in.

use vstd::prelude::*;
use crate::text::same_text;

verus! {

/// One of the eight seats of a room, named by colour.
///
/// The seats are ordered as listed; on the wire a seat is its lower camel case name.
#[derive(Debug, Clone, Copy, PartialEq, Eq, PartialOrd, Ord, Hash, Structural)]
pub enum PlayerId {
    Red,
    Fuchsia,
    Green,
    Lime,
    Yellow,
    Blue,
    Aqua,
    Orange,
}

impl PlayerId {
    /// Position of the seat in the fixed order of seats.
    pub open spec fn rank(self) -> nat {
        match self {
            PlayerId::Red => 0,
            PlayerId::Fuchsia => 1,
            PlayerId::Green => 2,
            PlayerId::Lime => 3,
            PlayerId::Yellow => 4,
            PlayerId::Blue => 5,
            PlayerId::Aqua => 6,
            PlayerId::Orange => 7,
        }
    }

    /// Every seat, in order.
    pub open spec fn all() -> Seq<PlayerId> {
        seq![
            PlayerId::Red,
            PlayerId::Fuchsia,
            PlayerId::Green,
            PlayerId::Lime,
            PlayerId::Yellow,
            PlayerId::Blue,
            PlayerId::Aqua,
            PlayerId::Orange,
        ]
    }

    /// The wire name of a seat.
    pub open spec fn spec_name(self) -> Seq<char> {
        match self {
            PlayerId::Red => "red"@,
            PlayerId::Fuchsia => "fuchsia"@,
            PlayerId::Green => "green"@,
            PlayerId::Lime => "lime"@,
            PlayerId::Yellow => "yellow"@,
            PlayerId::Blue => "blue"@,
            PlayerId::Aqua => "aqua"@,
            PlayerId::Orange => "orange"@,
        }
    }

    /// The seat that a wire name stands for, if any. Names are case sensitive.
    pub open spec fn spec_from_name(name: Seq<char>) -> Option<PlayerId> {
        if name == "red"@ {
            Some(PlayerId::Red)
        } else if name == "fuchsia"@ {
            Some(PlayerId::Fuchsia)
        } else if name == "green"@ {
            Some(PlayerId::Green)
        } else if name == "lime"@ {
            Some(PlayerId::Lime)
        } else if name == "yellow"@ {
            Some(PlayerId::Yellow)
        } else if name == "blue"@ {
            Some(PlayerId::Blue)
        } else if name == "aqua"@ {
            Some(PlayerId::Aqua)
        } else if name == "orange"@ {
            Some(PlayerId::Orange)
        } else {
            None
        }
    }

    /// All eight seats in their order.
    pub fn candidates() -> (seats: Vec<PlayerId>)
        ensures
            seats@ == Self::all(),
    {
        let mut seats: Vec<PlayerId> = Vec::new();
        seats.push(PlayerId::Red);
        seats.push(PlayerId::Fuchsia);
        seats.push(PlayerId::Green);
        seats.push(PlayerId::Lime);
        seats.push(PlayerId::Yellow);
        seats.push(PlayerId::Blue);
        seats.push(PlayerId::Aqua);
        seats.push(PlayerId::Orange);
        seats
    }

    /// Position of the seat in the order of seats, from 0.
    pub fn index(self) -> (i: usize)
        ensures
            i == self.rank(),
            i < 8,
            Self::all()[i as int] == self,
    {
        match self {
            PlayerId::Red => 0,
            PlayerId::Fuchsia => 1,
            PlayerId::Green => 2,
            PlayerId::Lime => 3,
            PlayerId::Yellow => 4,
            PlayerId::Blue => 5,
            PlayerId::Aqua => 6,
            PlayerId::Orange => 7,
        }
    }

    /// The wire name of the seat.
    pub fn name(self) -> (name: &'static str)
        ensures
            name@ == self.spec_name(),
    {
        match self {
            PlayerId::Red => "red",
            PlayerId::Fuchsia => "fuchsia",
            PlayerId::Green => "green",
            PlayerId::Lime => "lime",
            PlayerId::Yellow => "yellow",
            PlayerId::Blue => "blue",
            PlayerId::Aqua => "aqua",
            PlayerId::Orange => "orange",
        }
    }

    /// Reads a wire name. Anything but one of the eight names, spelled exactly, is `None`.
    pub fn from_name(name: &str) -> (seat: Option<PlayerId>)
        ensures
            seat == Self::spec_from_name(name@),
    {
        if same_text(name, "red") {
            Some(PlayerId::Red)
        } else if same_text(name, "fuchsia") {
            Some(PlayerId::Fuchsia)
        } else if same_text(name, "green") {
            Some(PlayerId::Green)
        } else if same_text(name, "lime") {
            Some(PlayerId::Lime)
        } else if same_text(name, "yellow") {
            Some(PlayerId::Yellow)
        } else if same_text(name, "blue") {
            Some(PlayerId::Blue)
        } else if same_text(name, "aqua") {
            Some(PlayerId::Aqua)
        } else if same_text(name, "orange") {
            Some(PlayerId::Orange)
        } else {
            None
        }
    }
}

impl DeepView for PlayerId {
    type V = PlayerId;

    open spec fn deep_view(&self) -> PlayerId {
        *self
    }
}

/// Reveals what the eight wire names hold.
pub proof fn reveal_names()
    ensures
        "red"@ == seq!['r', 'e', 'd'],
        "fuchsia"@ == seq!['f', 'u', 'c', 'h', 's', 'i', 'a'],
        "green"@ == seq!['g', 'r', 'e', 'e', 'n'],
        "lime"@ == seq!['l', 'i', 'm', 'e'],
        "yellow"@ == seq!['y', 'e', 'l', 'l', 'o', 'w'],
        "blue"@ == seq!['b', 'l', 'u', 'e'],
        "aqua"@ == seq!['a', 'q', 'u', 'a'],
        "orange"@ == seq!['o', 'r', 'a', 'n', 'g', 'e'],
{
    reveal_strlit("red");
    reveal_strlit("fuchsia");
    reveal_strlit("green");
    reveal_strlit("lime");
    reveal_strlit("yellow");
    reveal_strlit("blue");
    reveal_strlit("aqua");
    reveal_strlit("orange");
}

/// Writing a seat's name and reading it back gives the seat.
pub proof fn lemma_name_round_trip(seat: PlayerId)
    ensures
        PlayerId::spec_from_name(seat.spec_name()) == Some(seat),
{
    reveal_names();
    assert("red"@[0] == 'r' && "fuchsia"@[0] == 'f' && "green"@[0] == 'g' && "lime"@[0] == 'l'
        && "yellow"@[0] == 'y' && "blue"@[0] == 'b' && "aqua"@[0] == 'a' && "orange"@[0] == 'o');
}

/// A text that reads as a seat is that seat's name, letter for letter: reading
/// neither folds case nor trims.
pub proof fn lemma_name_is_exact(name: Seq<char>)
    ensures
        PlayerId::spec_from_name(name) matches Some(seat) ==> seat.spec_name() == name,
        PlayerId::spec_from_name(name) is None ==> forall|seat: PlayerId| seat.spec_name() != name,
{
    reveal_names();
    if PlayerId::spec_from_name(name) is None {
        assert forall|seat: PlayerId| seat.spec_name() != name by {
            lemma_name_round_trip(seat);
        }
    }
}

/// The seats of a room. The order is the order of play that the rules see.
#[derive(Debug, Default, Clone, PartialEq, Eq, Hash)]
pub struct RoomInfo {
    pub players: Vec<PlayerId>,
}

/// What a player learns when the session opens: the room, and which seat is theirs.
#[derive(Debug, Clone, PartialEq, Eq, Hash)]
pub struct SessionInfo {
    pub room: RoomInfo,
    pub player: PlayerId,
}

/// Copies a list of seats.
pub fn copy_seats(seats: &Vec<PlayerId>) -> (copy: Vec<PlayerId>)
    ensures
        copy@ == seats@,
{
    let mut copy: Vec<PlayerId> = Vec::new();
    let mut i: usize = 0;
    while i < seats.len()
        invariant
            i <= seats.len(),
            copy@ == seats@.take(i as int),
        decreases seats.len() - i,
    {
        copy.push(seats[i]);
        i += 1;
    }
    copy
}

/// Whether `seat` occurs in `seats`.
pub fn has_seat(seats: &Vec<PlayerId>, seat: PlayerId) -> (found: bool)
    ensures
        found == seats@.contains(seat),
{
    let mut i: usize = 0;
    while i < seats.len()
        invariant
            i <= seats.len(),
            !seats@.take(i as int).contains(seat),
        decreases seats.len() - i,
    {
        if seats[i] == seat {
            return true;
        }
        i += 1;
    }
    assert(seats@.take(seats.len() as int) =~= seats@);
    false
}

} // verus!
