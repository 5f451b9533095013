//! The room: who is seated, who currently sees the game, and who is to be told
//! what.
//!
//! A scope is the list of players that see what the rules do. The room keeps the
//! open scopes as a stack; with no scope open, every seated player sees. A scope
//! can only narrow the one it was opened in.

use vstd::prelude::*;
use crate::player::{copy_seats, has_seat, PlayerId, RoomInfo, SessionInfo};
use crate::rng::draw;
use crate::wire::TaskResult;

verus! {

/// Why the room refused a request of the rules.
#[derive(Debug, Clone, Copy, PartialEq, Eq, Hash, Structural)]
pub enum RoomError {
    /// Two players asked for the same seat.
    SeatTaken,
    /// A scope was to be opened for a player who is outside the current scope.
    ScopeViolation,
    /// A scope was to be closed while none was open.
    NoOpenScope,
    /// The session was to end while a scope was open.
    ScopeStillOpen,
    /// A player was named who has no seat in the room.
    UnknownPlayer,
    /// A random number was asked for between `start` and `end` with `start` above `end`.
    EmptyRange,
}

/// Something to send to one player.
#[derive(Debug, Clone, PartialEq, Eq, Hash)]
pub struct Delivery<T> {
    pub to: PlayerId,
    pub payload: T,
}

/// Who gets what, as mathematical values.
pub open spec fn plan<T: View>(deliveries: Seq<Delivery<T>>) -> Seq<(PlayerId, T::V)> {
    Seq::new(deliveries.len(), |i: int| (deliveries[i].to, deliveries[i].payload@))
}

/// Who gets which integer.
pub open spec fn int_plan(deliveries: Seq<Delivery<i32>>) -> Seq<(PlayerId, i32)> {
    Seq::new(deliveries.len(), |i: int| (deliveries[i].to, deliveries[i].payload))
}

/// Whether every player of `inner` is among `outer`.
pub open spec fn within(inner: Seq<PlayerId>, outer: Seq<PlayerId>) -> bool {
    forall|i: int| 0 <= i < inner.len() ==> outer.contains(#[trigger] inner[i])
}

/// The players that see the game: the innermost open scope, or everyone seated
/// where none is open.
pub open spec fn scope_of(seats: Seq<PlayerId>, stack: Seq<Seq<PlayerId>>) -> Seq<PlayerId> {
    if stack.len() == 0 {
        seats
    } else {
        stack.last()
    }
}

/// Whether each scope of `stack` lies within the scope it was opened in.
pub open spec fn nested(seats: Seq<PlayerId>, stack: Seq<Seq<PlayerId>>) -> bool {
    forall|k: int| 0 <= k < stack.len() ==> within(#[trigger] stack[k], scope_of(seats, stack.take(k)))
}

/// What a player of the scope below is told when a scope closes.
pub open spec fn verdict(
    closed: Seq<PlayerId>,
    targets: Seq<PlayerId>,
    value: Seq<char>,
    player: PlayerId,
) -> TaskResult<Seq<char>> {
    if closed.contains(player) {
        TaskResult::DoTask
    } else if targets.contains(player) {
        TaskResult::SyncResult(value)
    } else {
        TaskResult::Restricted
    }
}

/// The players of `scope` but `from`, in their order.
pub open spec fn others(scope: Seq<PlayerId>, from: PlayerId) -> Seq<PlayerId> {
    scope.filter(|p: PlayerId| p != from)
}

/// The state of one room while its session runs.
#[derive(Debug)]
pub struct Room {
    seats: Vec<PlayerId>,
    visibility: Vec<Vec<PlayerId>>,
}

impl Room {
    /// The seated players, in the order of the room.
    pub closed spec fn seats(&self) -> Seq<PlayerId> {
        self.seats@
    }

    /// The open scopes, the outermost first.
    pub closed spec fn stack(&self) -> Seq<Seq<PlayerId>> {
        Seq::new(self.visibility@.len(), |k: int| self.visibility@[k]@)
    }

    /// The players that currently see the game.
    pub open spec fn current_scope(&self) -> Seq<PlayerId> {
        scope_of(self.seats(), self.stack())
    }

    /// No seat is taken twice, and each open scope lies within the one below it.
    pub open spec fn wf(&self) -> bool {
        &&& self.seats().no_duplicates()
        &&& nested(self.seats(), self.stack())
    }

    /// Seats the players. Fails with `SeatTaken` exactly when a player occurs twice.
    pub fn new(players: Vec<PlayerId>) -> (room: Result<Room, RoomError>)
        ensures
            match room {
                Ok(r) => r.wf() && r.seats() == players@ && r.stack().len() == 0
                    && players@.no_duplicates(),
                Err(e) => e == RoomError::SeatTaken && !players@.no_duplicates(),
            },
    {
        let mut i: usize = 0;
        while i < players.len()
            invariant
                i <= players.len(),
                players@.take(i as int).no_duplicates(),
            decreases players.len() - i,
        {
            let mut j: usize = 0;
            while j < i
                invariant
                    j <= i,
                    i < players.len(),
                    forall|k: int| 0 <= k < j ==> players@[k] != players@[i as int],
                decreases i - j,
            {
                if players[j] == players[i] {
                    return Err(RoomError::SeatTaken);
                }
                j += 1;
            }
            i += 1;
        }
        assert(players@.take(players.len() as int) =~= players@);
        let room = Room { seats: players, visibility: Vec::new() };
        assert(room.stack() =~= Seq::<Seq<PlayerId>>::empty());
        Ok(room)
    }

    /// A room in which nobody is seated.
    pub fn empty() -> (room: Room)
        ensures
            room.wf(),
            room.seats().len() == 0,
            room.stack().len() == 0,
    {
        let room = Room { seats: Vec::new(), visibility: Vec::new() };
        assert(room.stack() =~= Seq::<Seq<PlayerId>>::empty());
        room
    }

    /// Whether nobody is seated.
    pub fn is_vacant(&self) -> (vacant: bool)
        ensures
            vacant == (self.seats().len() == 0),
    {
        self.seats.len() == 0
    }

    /// What each player is told when the session opens: the room, and their seat.
    pub fn handshake(&self) -> (greetings: Vec<Delivery<SessionInfo>>)
        ensures
            plan(greetings@) == Seq::new(
                self.seats().len(),
                |i: int| (self.seats()[i], (self.seats(), self.seats()[i])),
            ),
    {
        let mut greetings: Vec<Delivery<SessionInfo>> = Vec::new();
        let mut i: usize = 0;
        while i < self.seats.len()
            invariant
                i <= self.seats.len(),
                greetings.len() == i,
                forall|k: int|
                    0 <= k < i ==> (#[trigger] greetings@[k]).to == self.seats@[k]
                        && greetings@[k].payload@ == (self.seats@, self.seats@[k]),
            decreases self.seats.len() - i,
        {
            let info = SessionInfo {
                room: RoomInfo { players: copy_seats(&self.seats) },
                player: self.seats[i],
            };
            greetings.push(Delivery { to: self.seats[i], payload: info });
            i += 1;
        }
        assert(plan(greetings@) =~= Seq::new(
            self.seats().len(),
            |i: int| (self.seats()[i], (self.seats(), self.seats()[i])),
        ));
        greetings
    }

    /// The room as the rules see it.
    pub fn info(&self) -> (room: RoomInfo)
        ensures
            room@ == self.seats(),
    {
        RoomInfo { players: copy_seats(&self.seats) }
    }

    /// Whether `player` has a seat.
    pub fn is_seated(&self, player: PlayerId) -> (seated: bool)
        ensures
            seated == self.seats().contains(player),
    {
        has_seat(&self.seats, player)
    }

    /// How many scopes are open.
    pub fn depth(&self) -> (depth: usize)
        ensures
            depth == self.stack().len(),
    {
        self.visibility.len()
    }

    /// The players that currently see the game.
    pub fn scope(&self) -> (scope: Vec<PlayerId>)
        ensures
            scope@ == self.current_scope(),
    {
        let n = self.visibility.len();
        if n == 0 {
            copy_seats(&self.seats)
        } else {
            assert(self.stack().last() == self.visibility@[n - 1]@);
            copy_seats(&self.visibility[n - 1])
        }
    }

    /// Opens a scope for `allowed`. The answer to the rules is always `DoTask`.
    ///
    /// Fails with `ScopeViolation`, and opens nothing, exactly when `allowed`
    /// names a player outside the current scope.
    pub fn do_task_if(&mut self, allowed: Vec<PlayerId>) -> (answer: Result<
        TaskResult<String>,
        RoomError,
    >)
        requires
            old(self).wf(),
        ensures
            final(self).wf(),
            final(self).seats() == old(self).seats(),
            match answer {
                Ok(result) => {
                    &&& result == TaskResult::<String>::DoTask
                    &&& within(allowed@, old(self).current_scope())
                    &&& final(self).stack() == old(self).stack().push(allowed@)
                    &&& final(self).current_scope() == allowed@
                },
                Err(e) => {
                    &&& e == RoomError::ScopeViolation
                    &&& !within(allowed@, old(self).current_scope())
                    &&& final(self).stack() == old(self).stack()
                },
            },
    {
        let scope = self.scope();
        let mut i: usize = 0;
        while i < allowed.len()
            invariant
                i <= allowed.len(),
                within(allowed@.take(i as int), scope@),
                scope@ == old(self).current_scope(),
                self.wf(),
                self.seats() == old(self).seats(),
                self.stack() == old(self).stack(),
            decreases allowed.len() - i,
        {
            if !has_seat(&scope, allowed[i]) {
                assert(!scope@.contains(allowed@[i as int]));
                return Err(RoomError::ScopeViolation);
            }
            i += 1;
        }
        assert(allowed@.take(allowed.len() as int) =~= allowed@);
        let ghost before = self.stack();
        let ghost opened = allowed@;
        self.visibility.push(allowed);
        proof {
            assert(self.stack() =~= before.push(opened));
            assert forall|k: int| 0 <= k < self.stack().len() implies within(
                #[trigger] self.stack()[k],
                scope_of(self.seats(), self.stack().take(k)),
            ) by {
                if k < before.len() {
                    assert(self.stack().take(k) =~= before.take(k));
                    assert(self.stack()[k] == before[k]);
                } else {
                    assert(self.stack().take(k) =~= before);
                }
            }
        }
        Ok(TaskResult::DoTask)
    }

    /// Closes the innermost scope and says what to tell each player of the scope
    /// below: `DoTask` to those who were inside, the value to those of `targets`,
    /// `Restricted` to the rest.
    ///
    /// Fails with `NoOpenScope`, and changes nothing, exactly when no scope is open.
    pub fn task_done(&mut self, targets: &Vec<PlayerId>, value: &str) -> (told: Result<
        Vec<Delivery<TaskResult<String>>>,
        RoomError,
    >)
        requires
            old(self).wf(),
        ensures
            final(self).wf(),
            final(self).seats() == old(self).seats(),
            match told {
                Ok(deliveries) => {
                    &&& old(self).stack().len() > 0
                    &&& final(self).stack() == old(self).stack().drop_last()
                    &&& plan(deliveries@) == Seq::new(
                        final(self).current_scope().len(),
                        |i: int|
                            (
                                final(self).current_scope()[i],
                                verdict(
                                    old(self).stack().last(),
                                    targets@,
                                    value@,
                                    final(self).current_scope()[i],
                                ),
                            ),
                    )
                },
                Err(e) => {
                    &&& e == RoomError::NoOpenScope
                    &&& old(self).stack().len() == 0
                    &&& final(self).stack() == old(self).stack()
                },
            },
    {
        let ghost before = self.stack();
        let last = match self.visibility.pop() {
            None => {
                assert(self.stack() =~= before);
                return Err(RoomError::NoOpenScope);
            },
            Some(last) => last,
        };
        proof {
            assert(self.stack() =~= before.drop_last());
            assert(last@ == before.last());
            assert forall|k: int| 0 <= k < self.stack().len() implies within(
                #[trigger] self.stack()[k],
                scope_of(self.seats(), self.stack().take(k)),
            ) by {
                assert(self.stack().take(k) =~= before.take(k));
                assert(self.stack()[k] == before[k]);
            }
        }
        let scope = self.scope();
        let mut deliveries: Vec<Delivery<TaskResult<String>>> = Vec::new();
        let mut i: usize = 0;
        while i < scope.len()
            invariant
                i <= scope.len(),
                deliveries.len() == i,
                forall|k: int|
                    0 <= k < i ==> (#[trigger] deliveries@[k]).to == scope@[k]
                        && deliveries@[k].payload@ == verdict(last@, targets@, value@, scope@[k]),
            decreases scope.len() - i,
        {
            let player = scope[i];
            let payload = if has_seat(&last, player) {
                TaskResult::DoTask
            } else if has_seat(targets, player) {
                TaskResult::SyncResult(value.to_owned())
            } else {
                TaskResult::Restricted
            };
            deliveries.push(Delivery { to: player, payload });
            i += 1;
        }
        assert(plan(deliveries@) =~= Seq::new(
            self.current_scope().len(),
            |i: int|
                (
                    self.current_scope()[i],
                    verdict(before.last(), targets@, value@, self.current_scope()[i]),
                ),
        ));
        Ok(deliveries)
    }

    /// Says whom to tell a number that was drawn: every player of the current
    /// scope, each once for each time the scope lists them, all the same number.
    pub fn spread(&self, value: i32) -> (told: Vec<Delivery<i32>>)
        ensures
            int_plan(told@) == Seq::new(
                self.current_scope().len(),
                |i: int| (self.current_scope()[i], value),
            ),
    {
        let scope = self.scope();
        let mut told: Vec<Delivery<i32>> = Vec::new();
        let mut i: usize = 0;
        while i < scope.len()
            invariant
                i <= scope.len(),
                told.len() == i,
                forall|k: int|
                    0 <= k < i ==> (#[trigger] told@[k]).to == scope@[k] && told@[k].payload
                        == value,
            decreases scope.len() - i,
        {
            told.push(Delivery { to: scope[i], payload: value });
            i += 1;
        }
        assert(int_plan(told@) =~= Seq::new(
            self.current_scope().len(),
            |i: int| (self.current_scope()[i], value),
        ));
        told
    }

    /// Draws an integer between `start` and `end`, both included, and says whom to
    /// tell it: every player of the current scope. The number is also the answer
    /// to the rules.
    ///
    /// Fails with `EmptyRange` exactly when `start` is above `end`.
    pub fn random(&self, start: i32, end: i32) -> (drawn: Result<(i32, Vec<Delivery<i32>>), RoomError>)
        ensures
            match drawn {
                Ok((value, told)) => {
                    &&& start <= value <= end
                    &&& int_plan(told@) == Seq::new(
                        self.current_scope().len(),
                        |i: int| (self.current_scope()[i], value),
                    )
                },
                Err(e) => e == RoomError::EmptyRange && start > end,
            },
    {
        if start > end {
            return Err(RoomError::EmptyRange);
        }
        let value = draw(start, end);
        Ok((value, self.spread(value)))
    }

    /// Says whom to pass the move of `from` on to: every other player of the
    /// current scope, each the move as it came. The move is also the answer to the
    /// rules. `from` need not be in the scope, but must be seated.
    ///
    /// Fails with `UnknownPlayer` exactly when `from` has no seat.
    pub fn action(&self, from: PlayerId, value: &str) -> (told: Result<
        Vec<Delivery<String>>,
        RoomError,
    >)
        ensures
            match told {
                Ok(deliveries) => {
                    &&& self.seats().contains(from)
                    &&& plan(deliveries@) == Seq::new(
                        others(self.current_scope(), from).len(),
                        |i: int| (others(self.current_scope(), from)[i], value@),
                    )
                },
                Err(e) => e == RoomError::UnknownPlayer && !self.seats().contains(from),
            },
    {
        if !has_seat(&self.seats, from) {
            return Err(RoomError::UnknownPlayer);
        }
        let scope = self.scope();
        let mut deliveries: Vec<Delivery<String>> = Vec::new();
        let ghost mut kept: Seq<PlayerId> = Seq::empty();
        let mut i: usize = 0;
        proof {
            assert(scope@.take(0) =~= Seq::<PlayerId>::empty());
            assert(others(scope@.take(0), from) =~= Seq::<PlayerId>::empty()) by {
                reveal(Seq::filter);
            }
        }
        while i < scope.len()
            invariant
                i <= scope.len(),
                kept == others(scope@.take(i as int), from),
                deliveries.len() == kept.len(),
                forall|k: int|
                    0 <= k < kept.len() ==> (#[trigger] deliveries@[k]).to == kept[k]
                        && deliveries@[k].payload@ == value@,
            decreases scope.len() - i,
        {
            let player = scope[i];
            proof {
                let next = scope@.take(i + 1);
                assert(next.drop_last() =~= scope@.take(i as int));
                assert(next.last() == player);
                reveal(Seq::filter);
                assert(others(next, from) == if player != from {
                    others(scope@.take(i as int), from).push(player)
                } else {
                    others(scope@.take(i as int), from)
                });
            }
            if player != from {
                deliveries.push(Delivery { to: player, payload: value.to_owned() });
                proof {
                    kept = kept.push(player);
                }
            }
            i += 1;
        }
        assert(scope@.take(scope.len() as int) =~= scope@);
        assert(plan(deliveries@) =~= Seq::new(
            others(self.current_scope(), from).len(),
            |i: int| (others(self.current_scope(), from)[i], value@),
        ));
        Ok(deliveries)
    }

    /// Checks that the session may end: no scope is open.
    ///
    /// Fails with `ScopeStillOpen` exactly when one is.
    pub fn finish(&self) -> (done: Result<(), RoomError>)
        ensures
            match done {
                Ok(()) => self.stack().len() == 0,
                Err(e) => e == RoomError::ScopeStillOpen && self.stack().len() > 0,
            },
    {
        if self.visibility.len() == 0 {
            Ok(())
        } else {
            Err(RoomError::ScopeStillOpen)
        }
    }
}

/// A scope never widens: every open scope lies within the one it was opened in,
/// and so within the seated players.
pub proof fn lemma_scopes_narrow(room: Room, k: int)
    requires
        room.wf(),
        0 <= k < room.stack().len(),
    ensures
        within(room.stack()[k], room.seats()),
        k > 0 ==> within(room.stack()[k], room.stack()[k - 1]),
    decreases k,
{
    let stack = room.stack();
    assert(within(stack[k], scope_of(room.seats(), stack.take(k))));
    if k > 0 {
        assert(stack.take(k).last() == stack[k - 1]);
        lemma_scopes_narrow(room, k - 1);
        assert forall|i: int| 0 <= i < stack[k].len() implies room.seats().contains(
            #[trigger] stack[k][i],
        ) by {
            let p = stack[k][i];
            let below = stack[k - 1];
            assert(below.contains(p));
            let j = choose|j: int| 0 <= j < below.len() && below[j] == p;
            assert(room.seats().contains(below[j]));
        }
    }
}

/// Whoever currently sees the game has a seat.
pub proof fn lemma_scope_is_seated(room: Room)
    requires
        room.wf(),
    ensures
        within(room.current_scope(), room.seats()),
{
    if room.stack().len() > 0 {
        lemma_scopes_narrow(room, room.stack().len() - 1);
    }
}

/// The move of a player is passed on to the others of the scope and to nobody
/// else: never to the player who made it, and to each other player of the scope.
/// Where the scope lists nobody twice and the player is in it, that is one player
/// less than the scope has.
pub proof fn lemma_move_reaches_the_others(scope: Seq<PlayerId>, from: PlayerId)
    ensures
        !others(scope, from).contains(from),
        forall|p: PlayerId| p != from && scope.contains(p) ==> others(scope, from).contains(p),
        forall|p: PlayerId| others(scope, from).contains(p) ==> scope.contains(p),
        scope.no_duplicates() ==> others(scope, from).no_duplicates(),
        scope.no_duplicates() && scope.contains(from) ==> others(scope, from).len() == scope.len() - 1,
        !scope.contains(from) ==> others(scope, from) == scope,
    decreases scope.len(),
{
    reveal(Seq::filter);
    if scope.len() == 0 {
        assert(others(scope, from) =~= scope);
    } else {
        let rest = scope.drop_last();
        let last = scope.last();
        lemma_move_reaches_the_others(rest, from);
        let kept = others(rest, from);
        let all = others(scope, from);
        assert(all == if last != from {
            kept.push(last)
        } else {
            kept
        });
        assert(scope =~= rest.push(last));
        assert forall|p: PlayerId| scope.contains(p) <==> (rest.contains(p) || p == last) by {
            if scope.contains(p) {
                let i = choose|i: int| 0 <= i < scope.len() && scope[i] == p;
                if i < rest.len() {
                    assert(rest[i] == p);
                }
            }
            if rest.contains(p) {
                let i = choose|i: int| 0 <= i < rest.len() && rest[i] == p;
                assert(scope[i] == p);
            }
            if p == last {
                assert(scope[scope.len() - 1] == p);
            }
        }
        assert forall|p: PlayerId| all.contains(p) <==> (kept.contains(p) || (p == last && last
            != from)) by {
            if all.contains(p) {
                let i = choose|i: int| 0 <= i < all.len() && all[i] == p;
                if i < kept.len() {
                    assert(kept[i] == p);
                }
            }
            if kept.contains(p) {
                let i = choose|i: int| 0 <= i < kept.len() && kept[i] == p;
                assert(all[i] == p);
            }
            if p == last && last != from {
                assert(all[all.len() - 1] == p);
            }
        }
        if scope.no_duplicates() {
            assert(rest.no_duplicates());
            assert(!rest.contains(last)) by {
                if rest.contains(last) {
                    let i = choose|i: int| 0 <= i < rest.len() && rest[i] == last;
                    assert(scope[i] == scope[scope.len() - 1]);
                }
            }
            assert(!kept.contains(last));
            assert(all.no_duplicates());
        }
        if !scope.contains(from) {
            assert(all =~= scope);
        }
    }
}

/// What is told to the players of a scope, one entry for each, reaches each
/// player of the scope once where the scope lists nobody twice, and everybody is
/// told the same.
pub proof fn lemma_each_is_told_once<V>(scope: Seq<PlayerId>, value: V, told: Seq<(PlayerId, V)>)
    requires
        told == Seq::new(scope.len(), |i: int| (scope[i], value)),
        scope.no_duplicates(),
    ensures
        told.len() == scope.len(),
        forall|i: int| 0 <= i < told.len() ==> (#[trigger] told[i]).1 == value,
        forall|p: PlayerId|
            scope.contains(p) ==> exists|i: int| 0 <= i < told.len() && (#[trigger] told[i]).0 == p,
        forall|i: int, j: int|
            0 <= i < told.len() && 0 <= j < told.len() && i != j ==> (#[trigger] told[i]).0 != (
            #[trigger] told[j]).0,
{
    assert forall|p: PlayerId| scope.contains(p) implies exists|i: int|
        0 <= i < told.len() && (#[trigger] told[i]).0 == p by {
        let i = choose|i: int| 0 <= i < scope.len() && scope[i] == p;
        assert(told[i].0 == p);
    }
}

} // verus!
