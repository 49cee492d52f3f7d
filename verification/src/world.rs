//! The world state: one position per known player.
//!
//! Positions are whole numbers of position units. A player is created at
//! the origin by the first event that names it and is then moved by a fixed
//! displacement per event. A coordinate that would leave the range of `i64`
//! stays at the bound.

use crate::codec::{Direction, InputEvent, PlayerRecord, Snapshot};
use std::collections::HashMap;
use vstd::prelude::*;

verus! {

/// Where one player stands.
#[derive(Clone, Copy, Debug, PartialEq, Eq, Structural)]
pub struct PlayerState {
    pub x: i64,
    pub y: i64,
}

/// Where every player starts.
pub open spec fn origin() -> PlayerState {
    PlayerState { x: 0, y: 0 }
}

/// The coordinate nearest to `v` that an `i64` can hold.
pub open spec fn clamp(v: int) -> i64 {
    if v > i64::MAX {
        i64::MAX
    } else if v < i64::MIN {
        i64::MIN
    } else {
        v as i64
    }
}

/// The state `p` moved by `step` units in direction `d`.
pub open spec fn displaced(p: PlayerState, d: Direction, step: u32) -> PlayerState {
    match d {
        Direction::Left => PlayerState { x: clamp(p.x - step), y: p.y },
        Direction::Right => PlayerState { x: clamp(p.x + step), y: p.y },
        Direction::Down => PlayerState { x: p.x, y: clamp(p.y - step) },
        Direction::Up => PlayerState { x: p.x, y: clamp(p.y + step) },
    }
}

/// The state of player `id`, or the origin for a player not yet seen.
pub open spec fn state_or_origin(players: Map<u16, PlayerState>, id: u16) -> PlayerState {
    if players.contains_key(id) {
        players[id]
    } else {
        origin()
    }
}

/// The players after one event: the event's player, created at the origin
/// if it was unknown, is moved once; nobody else changes.
pub open spec fn apply_event(
    players: Map<u16, PlayerState>,
    event: InputEvent,
    step: u32,
) -> Map<u16, PlayerState> {
    players.insert(
        event.player_id,
        displaced(state_or_origin(players, event.player_id), event.direction, step),
    )
}

/// The players after a run of events, applied first to last.
pub open spec fn apply_events(
    players: Map<u16, PlayerState>,
    events: Seq<InputEvent>,
    step: u32,
) -> Map<u16, PlayerState>
    decreases events.len(),
{
    if events.len() == 0 {
        players
    } else {
        apply_event(apply_events(players, events.drop_last(), step), events.last(), step)
    }
}

/// The order of first appearance after one more event of player `id`.
pub open spec fn roster_with(roster: Seq<u16>, id: u16) -> Seq<u16> {
    if roster.contains(id) {
        roster
    } else {
        roster.push(id)
    }
}

/// The order of first appearance after a run of events.
pub open spec fn roster_after(roster: Seq<u16>, events: Seq<InputEvent>) -> Seq<u16>
    decreases events.len(),
{
    if events.len() == 0 {
        roster
    } else {
        roster_with(roster_after(roster, events.drop_last()), events.last().player_id)
    }
}

/// The snapshot line of player `id`.
pub open spec fn record_of(players: Map<u16, PlayerState>, id: u16) -> PlayerRecord {
    PlayerRecord { id, x: players[id].x, y: players[id].y }
}

/// The snapshot lines of a world, in roster order.
pub open spec fn records_of(players: Map<u16, PlayerState>, roster: Seq<u16>) -> Seq<
    PlayerRecord,
> {
    Seq::new(roster.len(), |i: int| record_of(players, roster[i]))
}

/// One coordinate moved by `step`, forward or backward, and held in range.
fn shift(v: i64, step: u32, forward: bool) -> (result: i64)
    ensures
        forward ==> result == clamp(v + step),
        !forward ==> result == clamp(v - step),
{
    let by: i64 = step as i64;
    if forward {
        if v > i64::MAX - by {
            i64::MAX
        } else {
            v + by
        }
    } else {
        if v < i64::MIN + by {
            i64::MIN
        } else {
            v - by
        }
    }
}

/// Moves `p` by `step` units in direction `d`.
pub fn displace(p: PlayerState, d: Direction, step: u32) -> (result: PlayerState)
    ensures
        result == displaced(p, d, step),
{
    match d {
        Direction::Left => PlayerState { x: shift(p.x, step, false), y: p.y },
        Direction::Right => PlayerState { x: shift(p.x, step, true), y: p.y },
        Direction::Down => PlayerState { x: p.x, y: shift(p.y, step, false) },
        Direction::Up => PlayerState { x: p.x, y: shift(p.y, step, true) },
    }
}

/// The mapping from player id to player state, with the order in which the
/// players were first seen.
pub struct WorldState {
    players: HashMap<u16, PlayerState>,
    roster: Vec<u16>,
}

impl View for WorldState {
    type V = Map<u16, PlayerState>;

    closed spec fn view(&self) -> Map<u16, PlayerState> {
        self.players@
    }
}

impl WorldState {
    /// The known players in order of first appearance.
    pub closed spec fn roster(&self) -> Seq<u16> {
        self.roster@
    }

    /// The roster names every known player exactly once and nobody else.
    pub open spec fn wf(&self) -> bool {
        &&& self.roster().no_duplicates()
        &&& forall|id: u16| self.roster().contains(id) <==> self@.contains_key(id)
    }

    /// The world without players.
    pub fn new() -> (world: WorldState)
        ensures
            world.wf(),
            world@ == Map::<u16, PlayerState>::empty(),
            world.roster() == Seq::<u16>::empty(),
    {
        WorldState { players: HashMap::new(), roster: Vec::new() }
    }

    /// Number of known players.
    pub fn len(&self) -> (n: usize)
        requires
            self.wf(),
        ensures
            n == self.roster().len(),
            n == self@.len(),
    {
        proof {
            self.lemma_roster_counts();
        }
        self.roster.len()
    }

    /// The state of player `id`, if the player is known.
    pub fn get(&self, id: u16) -> (result: Option<PlayerState>)
        ensures
            result == (if self@.contains_key(id) {
                Some(self@[id])
            } else {
                None::<PlayerState>
            }),
    {
        match self.players.get(&id) {
            Some(state) => Some(*state),
            None => None,
        }
    }

    /// Applies one event: creates the player at the origin if it is new,
    /// then moves it by `step` in the event's direction.
    pub fn apply(&mut self, event: InputEvent, step: u32)
        requires
            old(self).wf(),
        ensures
            final(self).wf(),
            final(self)@ == apply_event(old(self)@, event, step),
            final(self).roster() == roster_with(old(self).roster(), event.player_id),
    {
        let known = self.players.get(&event.player_id);
        let before: PlayerState = match known {
            Some(state) => *state,
            None => PlayerState { x: 0, y: 0 },
        };
        let is_new: bool = known.is_none();
        let after: PlayerState = displace(before, event.direction, step);
        self.players.insert(event.player_id, after);
        if is_new {
            self.roster.push(event.player_id);
        }
        proof {
            let id0 = event.player_id;
            let old_roster = old(self).roster();
            let new_roster = self.roster();
            assert(old_roster.contains(id0) <==> old(self)@.contains_key(id0));
            if is_new {
                assert(new_roster =~= old_roster.push(id0));
                assert forall|i: int, j: int|
                    0 <= i < new_roster.len() && 0 <= j < new_roster.len() && i != j implies new_roster[i]
                    != new_roster[j] by {
                    if i < old_roster.len() {
                        assert(old_roster.contains(old_roster[i]));
                    }
                    if j < old_roster.len() {
                        assert(old_roster.contains(old_roster[j]));
                    }
                }
            } else {
                assert(new_roster == old_roster);
            }
            assert forall|id: u16| new_roster.contains(id) <==> self@.contains_key(id) by {
                assert(old_roster.contains(id) <==> old(self)@.contains_key(id));
                if is_new {
                    if new_roster.contains(id) {
                        let i = choose|i: int| 0 <= i < new_roster.len() && new_roster[i] == id;
                        if i < old_roster.len() {
                            assert(old_roster[i] == id);
                            assert(old_roster.contains(id));
                        }
                    }
                    if self@.contains_key(id) {
                        if id == id0 {
                            assert(new_roster[old_roster.len() as int] == id);
                        } else {
                            let i = choose|i: int| 0 <= i < old_roster.len() && old_roster[i] == id;
                            assert(new_roster[i] == id);
                        }
                    }
                }
            }
        }
    }

    /// Applies a run of events, first to last.
    pub fn apply_all(&mut self, events: &Vec<InputEvent>, step: u32)
        requires
            old(self).wf(),
        ensures
            final(self).wf(),
            final(self)@ == apply_events(old(self)@, events@, step),
            final(self).roster() == roster_after(old(self).roster(), events@),
    {
        let n: usize = events.len();
        let mut i: usize = 0;
        while i < n
            invariant
                i <= n,
                n == events@.len(),
                self.wf(),
                self@ == apply_events(old(self)@, events@.subrange(0, i as int), step),
                self.roster() == roster_after(old(self).roster(), events@.subrange(0, i as int)),
            decreases n - i,
        {
            let event: InputEvent = events[i];
            proof {
                let upto = events@.subrange(0, i + 1);
                assert(upto.drop_last() =~= events@.subrange(0, i as int));
                assert(upto.last() == event);
            }
            self.apply(event, step);
            i = i + 1;
        }
        proof {
            assert(events@.subrange(0, n as int) =~= events@);
        }
    }

    /// The snapshot of this world with sequence number `tick`.
    pub fn snapshot(&self, tick: u64) -> (result: Snapshot)
        requires
            self.wf(),
        ensures
            result.tick == tick,
            result.players@ == records_of(self@, self.roster()),
    {
        let n: usize = self.roster.len();
        let mut players: Vec<PlayerRecord> = Vec::new();
        let mut i: usize = 0;
        while i < n
            invariant
                i <= n,
                n == self.roster().len(),
                self.wf(),
                players@ == records_of(self@, self.roster().subrange(0, i as int)),
            decreases n - i,
        {
            let id: u16 = self.roster[i];
            assert(self.roster().contains(id));
            let state = self.players.get(&id);
            match state {
                Some(s) => {
                    players.push(PlayerRecord { id, x: s.x, y: s.y });
                },
                None => {
                    assert(false);
                },
            }
            proof {
                assert(players@ =~= records_of(self@, self.roster().subrange(0, i + 1)));
            }
            i = i + 1;
        }
        proof {
            assert(self.roster().subrange(0, n as int) =~= self.roster());
        }
        Snapshot { tick, players }
    }

    /// The roster is as long as the map is large.
    proof fn lemma_roster_counts(&self)
        requires
            self.wf(),
        ensures
            self.roster().len() == self@.len(),
    {
        let roster = self.roster();
        roster.unique_seq_to_set();
        assert(roster.to_set() =~= self@.dom()) by {
            assert forall|id: u16| roster.to_set().contains(id) <==> self@.dom().contains(
                id,
            ) by {
                assert(roster.to_set().contains(id) <==> roster.contains(id));
            }
        }
    }
}

/// The events of player `id` among `events`, in their order.
pub open spec fn events_of(events: Seq<InputEvent>, id: u16) -> Seq<InputEvent> {
    events.filter(|e: InputEvent| e.player_id == id)
}

/// The state of one player after its own events, applied first to last.
pub open spec fn replay(start: PlayerState, events: Seq<InputEvent>, step: u32) -> PlayerState
    decreases events.len(),
{
    if events.len() == 0 {
        start
    } else {
        displaced(replay(start, events.drop_last(), step), events.last().direction, step)
    }
}

/// After any run of events a player is known exactly if it was known before
/// or one of the events is its own, and its state is the one that its own
/// events alone, in their order, lead to: events of other players neither
/// move it nor are any of its own events lost or applied twice.
pub proof fn lemma_player_follows_own_events(
    players: Map<u16, PlayerState>,
    events: Seq<InputEvent>,
    step: u32,
    id: u16,
)
    ensures
        apply_events(players, events, step).contains_key(id) <==> (players.contains_key(id)
            || events_of(events, id).len() > 0),
        state_or_origin(apply_events(players, events, step), id) == replay(
            state_or_origin(players, id),
            events_of(events, id),
            step,
        ),
    decreases events.len(),
{
    reveal(Seq::filter);
    if events.len() > 0 {
        let earlier = events.drop_last();
        let last = events.last();
        lemma_player_follows_own_events(players, earlier, step, id);
        if last.player_id == id {
            let own = events_of(events, id);
            assert(own == events_of(earlier, id).push(last));
            assert(own.drop_last() =~= events_of(earlier, id));
            assert(own.last() == last);
        } else {
            assert(events_of(events, id) == events_of(earlier, id));
        }
    }
}

/// Single writer: two runs of events in which every player's own events
/// are the same and in the same order lead from the same world to the same
/// world, however the players' events are interleaved.
pub proof fn lemma_interleaving_is_irrelevant(
    players: Map<u16, PlayerState>,
    first: Seq<InputEvent>,
    second: Seq<InputEvent>,
    step: u32,
)
    requires
        forall|id: u16| events_of(first, id) == events_of(second, id),
    ensures
        apply_events(players, first, step) == apply_events(players, second, step),
{
    let a = apply_events(players, first, step);
    let b = apply_events(players, second, step);
    assert forall|id: u16| #[trigger] a.dom().contains(id) == b.dom().contains(id) by {
        lemma_player_follows_own_events(players, first, step, id);
        lemma_player_follows_own_events(players, second, step, id);
        assert(events_of(first, id) == events_of(second, id));
    }
    assert(a.dom() =~= b.dom());
    assert forall|id: u16| a.dom().contains(id) implies #[trigger] a[id] == b[id] by {
        lemma_player_follows_own_events(players, first, step, id);
        lemma_player_follows_own_events(players, second, step, id);
        assert(events_of(first, id) == events_of(second, id));
        assert(b.dom().contains(id));
    }
    assert(a =~= b);
}

/// Lazy creation: the first event of an unknown player puts that player
/// into the world one step from the origin in the event's direction, adds
/// it to the end of the roster, and so gives it a line in every snapshot
/// taken from then on.
pub proof fn lemma_lazy_creation(
    players: Map<u16, PlayerState>,
    roster: Seq<u16>,
    event: InputEvent,
    step: u32,
)
    requires
        !players.contains_key(event.player_id),
        !roster.contains(event.player_id),
    ensures
        apply_event(players, event, step).contains_key(event.player_id),
        apply_event(players, event, step)[event.player_id] == displaced(
            origin(),
            event.direction,
            step,
        ),
        displaced(origin(), event.direction, step) == (match event.direction {
            Direction::Left => PlayerState { x: (-step) as i64, y: 0 },
            Direction::Right => PlayerState { x: step as i64, y: 0 },
            Direction::Down => PlayerState { x: 0, y: (-step) as i64 },
            Direction::Up => PlayerState { x: 0, y: step as i64 },
        }),
        roster_with(roster, event.player_id) == roster.push(event.player_id),
        records_of(
            apply_event(players, event, step),
            roster_with(roster, event.player_id),
        ).last() == (PlayerRecord {
            id: event.player_id,
            x: displaced(origin(), event.direction, step).x,
            y: displaced(origin(), event.direction, step).y,
        }),
{
}

/// Deferring events changes nothing: events applied in two batches, one
/// after the other, lead to the world and the roster that the two batches
/// lead to as one.
pub proof fn lemma_batches_compose(
    players: Map<u16, PlayerState>,
    roster: Seq<u16>,
    earlier: Seq<InputEvent>,
    later: Seq<InputEvent>,
    step: u32,
)
    ensures
        apply_events(apply_events(players, earlier, step), later, step) == apply_events(
            players,
            earlier + later,
            step,
        ),
        roster_after(roster_after(roster, earlier), later) == roster_after(roster, earlier + later),
    decreases later.len(),
{
    if later.len() == 0 {
        assert(earlier + later =~= earlier);
    } else {
        lemma_batches_compose(players, roster, earlier, later.drop_last(), step);
        assert((earlier + later).drop_last() =~= earlier + later.drop_last());
        assert((earlier + later).last() == later.last());
    }
}

} // verus!
