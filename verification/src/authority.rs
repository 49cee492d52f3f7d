//! The authoritative loop: the one owner and only writer of the world.
//!
//! Once per tick the loop takes the input events that are queued, applies
//! them in queue order, and publishes a numbered snapshot of the world. The
//! program that embeds the library sleeps between ticks; everything a tick
//! decides is decided here.

use crate::channel::{poll_event, send_snapshot, Polled};
use crate::codec::{encode_snapshot, Direction, InputEvent, PlayerRecord, Snapshot};
use crate::world::{
    apply_events, displaced, events_of, lemma_interleaving_is_irrelevant,
    lemma_player_follows_own_events, origin, records_of, roster_after, PlayerState, WorldState,
};
use tokio::sync::broadcast;
use tokio::sync::mpsc;
use vstd::prelude::*;

verus! {

/// Where the loop stands in its life.
#[derive(Clone, Copy, Debug, PartialEq, Eq, Structural)]
pub enum Phase {
    /// Made, but no tick has run.
    Idle,
    /// At least one tick has run and more may follow.
    Running,
    /// Stopped for good: no further tick changes or publishes anything.
    ShuttingDown,
}

/// The loop as the contracts see it.
pub struct LoopView {
    pub phase: Phase,
    /// The state of every known player.
    pub players: Map<u16, PlayerState>,
    /// The known players in order of first appearance.
    pub roster: Seq<u16>,
    /// Sequence number of the next snapshot.
    pub next_tick: u64,
    /// Position units by which one event moves a player.
    pub step: u32,
}

/// Whether the roster of `v` names every known player exactly once and
/// nobody else.
pub open spec fn roster_fits(v: LoopView) -> bool {
    &&& v.roster.no_duplicates()
    &&& forall|id: u16| v.roster.contains(id) <==> v.players.contains_key(id)
}

/// Whether a tick of a loop in state `v` does any work. A loop that is
/// shutting down does none, and neither does one that has used up its
/// sequence numbers.
pub open spec fn ticks(v: LoopView) -> bool {
    v.phase != Phase::ShuttingDown && v.next_tick < u64::MAX
}

/// The loop after a tick that found `events` in the queue. A working tick
/// applies the events in order and takes the next sequence number; any other
/// tick leaves the world alone and shuts the loop down.
pub open spec fn after_tick(v: LoopView, events: Seq<InputEvent>) -> LoopView {
    if ticks(v) {
        LoopView {
            phase: Phase::Running,
            players: apply_events(v.players, events, v.step),
            roster: roster_after(v.roster, events),
            next_tick: (v.next_tick + 1) as u64,
            step: v.step,
        }
    } else {
        LoopView { phase: Phase::ShuttingDown, ..v }
    }
}

/// What one run of `Authority::run_tick` did.
#[derive(Clone, Copy, Debug, PartialEq, Eq, Structural)]
pub struct TickReport {
    /// Number of events taken from the queue and applied.
    pub applied: usize,
    /// Sequence number of the snapshot that was published, if one was.
    pub sequence: Option<u64>,
    /// Subscribers the snapshot was handed to; zero where nobody listens.
    pub subscribers: usize,
    /// Whether the queue reported that every sender is gone.
    pub queue_disconnected: bool,
}

/// The authoritative loop's state.
pub struct Authority {
    phase: Phase,
    world: WorldState,
    next_tick: u64,
    step: u32,
}

impl View for Authority {
    type V = LoopView;

    closed spec fn view(&self) -> LoopView {
        LoopView {
            phase: self.phase,
            players: self.world@,
            roster: self.world.roster(),
            next_tick: self.next_tick,
            step: self.step,
        }
    }
}

impl Authority {
    /// The roster names every known player exactly once and nobody else.
    pub open spec fn wf(&self) -> bool {
        roster_fits(self@)
    }

    /// An idle loop over an empty world, which moves players by `step`
    /// position units per event and numbers its snapshots from zero.
    pub fn new(step: u32) -> (authority: Authority)
        ensures
            authority.wf(),
            authority@ == (LoopView {
                phase: Phase::Idle,
                players: Map::<u16, PlayerState>::empty(),
                roster: Seq::<u16>::empty(),
                next_tick: 0,
                step,
            }),
    {
        Authority { phase: Phase::Idle, world: WorldState::new(), next_tick: 0, step }
    }

    /// Where the loop stands in its life.
    pub fn phase(&self) -> (phase: Phase)
        ensures
            phase == self@.phase,
    {
        self.phase
    }

    /// Sequence number of the next snapshot.
    pub fn next_tick(&self) -> (next: u64)
        ensures
            next == self@.next_tick,
    {
        self.next_tick
    }

    /// Position units by which one event moves a player.
    pub fn displacement(&self) -> (step: u32)
        ensures
            step == self@.step,
    {
        self.step
    }

    /// The state of player `id`, if the player is known.
    pub fn player(&self, id: u16) -> (result: Option<PlayerState>)
        ensures
            result == (if self@.players.contains_key(id) {
                Some(self@.players[id])
            } else {
                None::<PlayerState>
            }),
    {
        self.world.get(id)
    }

    /// Number of known players.
    pub fn player_count(&self) -> (n: usize)
        requires
            self.wf(),
        ensures
            n == self@.roster.len(),
            n == self@.players.len(),
    {
        self.world.len()
    }

    /// Stops the loop for good. The world and the sequence number stay as
    /// they are.
    pub fn shut_down(&mut self)
        requires
            old(self).wf(),
        ensures
            final(self).wf(),
            final(self)@ == (LoopView { phase: Phase::ShuttingDown, ..old(self)@ }),
    {
        self.phase = Phase::ShuttingDown;
    }

    /// Runs the state change of one tick on the events that the tick found
    /// in the queue, and returns the snapshot to publish.
    ///
    /// A working tick applies the events first to last, returns the
    /// snapshot of the world it arrives at under the current sequence
    /// number, and moves on to the next number. A loop that is shutting
    /// down, or whose sequence numbers are used up, changes nothing, shuts
    /// down and returns `None`.
    pub fn tick(&mut self, events: &Vec<InputEvent>) -> (result: Option<Snapshot>)
        requires
            old(self).wf(),
        ensures
            final(self).wf(),
            final(self)@ == after_tick(old(self)@, events@),
            result is Some <==> ticks(old(self)@),
            result matches Some(snapshot) ==> {
                &&& snapshot.tick == old(self)@.next_tick
                &&& snapshot.players@ == records_of(final(self)@.players, final(self)@.roster)
            },
    {
        match self.phase {
            Phase::ShuttingDown => {
                return None;
            },
            _ => {},
        }
        if self.next_tick == u64::MAX {
            self.phase = Phase::ShuttingDown;
            return None;
        }
        self.world.apply_all(events, self.step);
        let snapshot: Snapshot = self.world.snapshot(self.next_tick);
        self.next_tick = self.next_tick + 1;
        self.phase = Phase::Running;
        Some(snapshot)
    }

    /// Runs one whole tick: takes at most `limit` events from the queue
    /// without waiting, applies them, and publishes the encoded snapshot on
    /// the stream. A stream without subscribers takes nothing, which is no
    /// failure.
    ///
    /// Which events the queue held is for the other tasks to decide; the
    /// loop ends up as `tick` leaves it on the events that were taken. A
    /// loop that does no work takes nothing from the queue.
    pub fn run_tick(
        &mut self,
        queue: &mut mpsc::Receiver<InputEvent>,
        limit: usize,
        stream: &broadcast::Sender<Vec<u8>>,
    ) -> (report: TickReport)
        requires
            old(self).wf(),
        ensures
            final(self).wf(),
            report.applied <= limit,
            !ticks(old(self)@) ==> report.applied == 0,
            report.sequence == (if ticks(old(self)@) {
                Some(old(self)@.next_tick)
            } else {
                None::<u64>
            }),
            report.sequence is None ==> report.subscribers == 0,
            exists|events: Seq<InputEvent>|
                events.len() == report.applied && final(self)@ == #[trigger] after_tick(
                    old(self)@,
                    events,
                ),
    {
        let idle: Vec<InputEvent> = Vec::new();
        let working: bool = match self.phase {
            Phase::ShuttingDown => false,
            _ => self.next_tick < u64::MAX,
        };
        if !working {
            let nothing = self.tick(&idle);
            return TickReport {
                applied: 0,
                sequence: None,
                subscribers: 0,
                queue_disconnected: false,
            };
        }
        let (events, queue_disconnected) = drain(queue, limit);
        let published = self.tick(&events);
        match published {
            Some(snapshot) => {
                let sequence: u64 = snapshot.tick;
                let bytes: Vec<u8> = encode_snapshot(&snapshot);
                let subscribers: usize = match send_snapshot(stream, bytes) {
                    Some(n) => n,
                    None => 0,
                };
                TickReport {
                    applied: events.len(),
                    sequence: Some(sequence),
                    subscribers,
                    queue_disconnected,
                }
            },
            None => TickReport {
                applied: events.len(),
                sequence: None,
                subscribers: 0,
                queue_disconnected,
            },
        }
    }
}

/// Asks the queue for its next event, without waiting for one to arrive,
/// until it has none, is disconnected, or `limit` events are taken. What it
/// answers later stays queued for the next tick. The flag tells whether it
/// answered that every sender is gone.
pub fn drain(queue: &mut mpsc::Receiver<InputEvent>, limit: usize) -> (result: (
    Vec<InputEvent>,
    bool,
))
    ensures
        result.0@.len() <= limit,
        limit == 0 ==> result.0@ == Seq::<InputEvent>::empty() && !result.1,
        result.1 ==> result.0@.len() < limit,
        exists|answers: Seq<Polled>|
            answers.len() <= limit && (result.0@, result.1) == #[trigger] gathered(
                answers,
                limit as nat,
            ),
{
    let mut events: Vec<InputEvent> = Vec::new();
    let mut taken: usize = 0;
    while taken < limit
        invariant
            taken <= limit,
            events@.len() == taken,
        decreases limit - taken,
    {
        let polled: Polled = poll_event(queue);
        let ghost before = events@;
        match absorb(&mut events, polled) {
            DrainStep::Taken => {},
            DrainStep::Dry => {
                proof {
                    lemma_gathered_events(before, seq![Polled::Empty], limit as nat);
                    assert(before + Seq::<InputEvent>::empty() =~= before);
                    assert((events@, false) == gathered(
                        as_answers(before) + seq![Polled::Empty],
                        limit as nat,
                    ));
                }
                return (events, false);
            },
            DrainStep::Abandoned => {
                proof {
                    lemma_gathered_events(before, seq![Polled::Disconnected], limit as nat);
                    assert(before + Seq::<InputEvent>::empty() =~= before);
                    assert((events@, true) == gathered(
                        as_answers(before) + seq![Polled::Disconnected],
                        limit as nat,
                    ));
                }
                return (events, true);
            },
        }
        taken = taken + 1;
    }
    proof {
        lemma_gathered_events(events@, Seq::<Polled>::empty(), limit as nat);
        assert(events@ + Seq::<InputEvent>::empty() =~= events@);
        assert(as_answers(events@) + Seq::<Polled>::empty() =~= as_answers(events@));
        assert((events@, false) == gathered(as_answers(events@), limit as nat));
    }
    (events, false)
}

/// How a drain goes on after one answer of the queue.
#[derive(Clone, Copy, Debug, PartialEq, Eq, Structural)]
pub enum DrainStep {
    /// The answer was an event, which is now the last of the batch. Ask
    /// again.
    Taken,
    /// Nothing is queued. The batch is complete.
    Dry,
    /// Nothing is queued and every sender is gone. The batch is complete.
    Abandoned,
}

/// The batch and the flag that a drain arrives at on a run of answers, with
/// room for `limit` events: the events of the answers up to the first that
/// is none, in the order of the answers, and at most `limit` of them; the
/// flag is raised exactly if the answer that ended the batch was
/// `Disconnected`.
pub open spec fn gathered(answers: Seq<Polled>, limit: nat) -> (Seq<InputEvent>, bool)
    decreases answers.len(),
{
    if limit == 0 || answers.len() == 0 {
        (Seq::<InputEvent>::empty(), false)
    } else {
        match answers.first() {
            Polled::Event(event) => {
                let rest = gathered(answers.drop_first(), (limit - 1) as nat);
                (seq![event] + rest.0, rest.1)
            },
            Polled::Empty => (Seq::<InputEvent>::empty(), false),
            Polled::Disconnected => (Seq::<InputEvent>::empty(), true),
        }
    }
}

/// The answers that hand over `events`, one event each.
pub open spec fn as_answers(events: Seq<InputEvent>) -> Seq<Polled> {
    Seq::new(events.len(), |i: int| Polled::Event(events[i]))
}

/// Takes one answer of the queue into the batch: an event becomes the last
/// of the batch, and any other answer leaves the batch as it is and ends
/// the drain.
pub fn absorb(batch: &mut Vec<InputEvent>, polled: Polled) -> (step: DrainStep)
    ensures
        match polled {
            Polled::Event(event) => step == DrainStep::Taken && final(batch)@ == old(
                batch,
            )@.push(event),
            Polled::Empty => step == DrainStep::Dry && final(batch)@ == old(batch)@,
            Polled::Disconnected => step == DrainStep::Abandoned && final(batch)@ == old(
                batch,
            )@,
        },
{
    match polled {
        Polled::Event(event) => {
            batch.push(event);
            DrainStep::Taken
        },
        Polled::Empty => DrainStep::Dry,
        Polled::Disconnected => DrainStep::Abandoned,
    }
}

/// A drain that is answered with events first takes them all, as long as
/// they fit, and goes on with the answers that follow and the room that is
/// left.
pub proof fn lemma_gathered_events(events: Seq<InputEvent>, then: Seq<Polled>, limit: nat)
    requires
        events.len() <= limit,
    ensures
        gathered(as_answers(events) + then, limit) == (
            events + gathered(then, (limit - events.len()) as nat).0,
            gathered(then, (limit - events.len()) as nat).1,
        ),
    decreases events.len(),
{
    let answers = as_answers(events) + then;
    let room = (limit - events.len()) as nat;
    if events.len() == 0 {
        assert(answers =~= then);
        assert(events + gathered(then, room).0 =~= gathered(then, room).0);
    } else {
        let rest = events.drop_first();
        lemma_gathered_events(rest, then, (limit - 1) as nat);
        assert(answers.first() == Polled::Event(events[0]));
        assert(answers.drop_first() =~= as_answers(rest) + then);
        assert(seq![events[0]] + (rest + gathered(then, room).0) =~= events + gathered(
            then,
            room,
        ).0);
    }
}

/// The sequence number under which a working tick publishes.
pub open spec fn published_sequence(v: LoopView) -> u64
    recommends
        ticks(v),
{
    v.next_tick
}

/// Snapshots are numbered in publishing order: of two working ticks in a
/// row, the second publishes under the number that follows the first's.
pub proof fn lemma_snapshots_are_numbered_in_order(
    v: LoopView,
    first: Seq<InputEvent>,
    second: Seq<InputEvent>,
)
    requires
        ticks(v),
        ticks(after_tick(v, first)),
    ensures
        published_sequence(after_tick(v, first)) == published_sequence(v) + 1,
        after_tick(after_tick(v, first), second).next_tick == v.next_tick + 2,
{
}

/// Shutting down is final: whatever a loop that is shutting down finds in
/// the queue, it stays as it is.
pub proof fn lemma_shutdown_is_final(v: LoopView, events: Seq<InputEvent>)
    requires
        v.phase == Phase::ShuttingDown,
    ensures
        after_tick(v, events) == v,
{
}

/// A run of events leaves every player of the run on the roster.
proof fn lemma_roster_keeps_up(roster: Seq<u16>, events: Seq<InputEvent>, id: u16)
    ensures
        roster_after(roster, events).contains(id) <==> (roster.contains(id) || events_of(
            events,
            id,
        ).len() > 0),
    decreases events.len(),
{
    reveal(Seq::filter);
    if events.len() > 0 {
        let earlier = events.drop_last();
        let before = roster_after(roster, earlier);
        let last = events.last().player_id;
        lemma_roster_keeps_up(roster, earlier, id);
        if !before.contains(last) {
            let after = before.push(last);
            assert(after[before.len() as int] == last);
            if before.contains(id) {
                let i = choose|i: int| 0 <= i < before.len() && before[i] == id;
                assert(after[i] == id);
            }
            if after.contains(id) && id != last {
                let i = choose|i: int| 0 <= i < after.len() && after[i] == id;
                assert(before[i] == id);
            }
        }
        if last == id {
            assert(events_of(events, id) == events_of(earlier, id).push(events.last()));
        } else {
            assert(events_of(events, id) == events_of(earlier, id));
        }
    }
}

/// Single writer, tick by tick: a working tick arrives at the same players
/// in the same places on any two queue contents in which every player's own
/// events are the same and in the same order.
pub proof fn lemma_tick_ignores_interleaving(
    v: LoopView,
    first: Seq<InputEvent>,
    second: Seq<InputEvent>,
)
    requires
        forall|id: u16| events_of(first, id) == events_of(second, id),
    ensures
        after_tick(v, first).players == after_tick(v, second).players,
        after_tick(v, first).next_tick == after_tick(v, second).next_tick,
        after_tick(v, first).phase == after_tick(v, second).phase,
{
    if ticks(v) {
        lemma_interleaving_is_irrelevant(v.players, first, second, v.step);
    }
}

/// Lazy creation, tick by tick: where a working tick finds exactly one
/// event of a player that was unknown, the snapshot it publishes holds a
/// line for that player, one step from the origin in the event's direction.
pub proof fn lemma_new_player_shows_in_next_snapshot(
    v: LoopView,
    events: Seq<InputEvent>,
    event: InputEvent,
)
    requires
        roster_fits(v),
        ticks(v),
        !v.players.contains_key(event.player_id),
        events_of(events, event.player_id) == seq![event],
    ensures
        after_tick(v, events).players.contains_key(event.player_id),
        after_tick(v, events).players[event.player_id] == displaced(
            origin(),
            event.direction,
            v.step,
        ),
        displaced(origin(), event.direction, v.step) == (match event.direction {
            Direction::Left => PlayerState { x: (-v.step) as i64, y: 0 },
            Direction::Right => PlayerState { x: v.step as i64, y: 0 },
            Direction::Down => PlayerState { x: 0, y: (-v.step) as i64 },
            Direction::Up => PlayerState { x: 0, y: v.step as i64 },
        }),
        records_of(after_tick(v, events).players, after_tick(v, events).roster).contains(
            PlayerRecord {
                id: event.player_id,
                x: displaced(origin(), event.direction, v.step).x,
                y: displaced(origin(), event.direction, v.step).y,
            },
        ),
{
    let id = event.player_id;
    let after = after_tick(v, events);
    lemma_player_follows_own_events(v.players, events, v.step, id);
    lemma_roster_keeps_up(v.roster, events, id);
    assert(seq![event].drop_last() =~= Seq::<InputEvent>::empty());
    assert(seq![event].last() == event);
    reveal_with_fuel(crate::world::replay, 3);
    assert(after.roster.contains(id));
    let i = choose|i: int| 0 <= i < after.roster.len() && after.roster[i] == id;
    assert(records_of(after.players, after.roster)[i] == (PlayerRecord {
        id,
        x: after.players[id].x,
        y: after.players[id].y,
    }));
}

} // verus!
