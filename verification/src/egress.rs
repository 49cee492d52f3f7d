//! The write side of one connection.
//!
//! The task that owns a connection's write half subscribes to the snapshot
//! stream when it starts, so it sees only snapshots published from then on.
//! It hands everything the subscription delivers to `on_delivery` and does
//! what the answer says. A subscriber that has fallen behind is told how
//! many snapshots it missed and goes on with the oldest one still kept: it
//! is not disconnected for being slow.

use vstd::prelude::*;

verus! {

/// What the subscription handed over.
#[derive(Clone, Debug, PartialEq, Eq)]
pub enum Delivery {
    /// The next snapshot, encoded.
    Snapshot(Vec<u8>),
    /// The subscriber fell behind and this many snapshots were skipped.
    Lagged(u64),
    /// The stream is closed: the loop is gone.
    StreamClosed,
}

/// What the egress task is to do with a delivery.
#[derive(Clone, Debug, PartialEq, Eq)]
pub enum EgressAction {
    /// Write these bytes to the connection, then wait for the next delivery
    /// if the write succeeded.
    Write(Vec<u8>),
    /// Record that this many snapshots were skipped, then wait for the next
    /// delivery.
    ReportLag(u64),
    /// End the task.
    Stop,
}

/// A delivery as the contracts see it.
pub enum DeliveryView {
    Snapshot(Seq<u8>),
    Lagged(u64),
    StreamClosed,
}

/// An action as the contracts see it.
pub enum ActionView {
    Write(Seq<u8>),
    ReportLag(u64),
    Stop,
}

impl View for Delivery {
    type V = DeliveryView;

    open spec fn view(&self) -> DeliveryView {
        match *self {
            Delivery::Snapshot(bytes) => DeliveryView::Snapshot(bytes@),
            Delivery::Lagged(missed) => DeliveryView::Lagged(missed),
            Delivery::StreamClosed => DeliveryView::StreamClosed,
        }
    }
}

impl View for EgressAction {
    type V = ActionView;

    open spec fn view(&self) -> ActionView {
        match *self {
            EgressAction::Write(bytes) => ActionView::Write(bytes@),
            EgressAction::ReportLag(missed) => ActionView::ReportLag(missed),
            EgressAction::Stop => ActionView::Stop,
        }
    }
}

/// The action that answers a delivery: a snapshot is written as it is, a
/// lag is reported, a closed stream ends the task.
pub open spec fn spec_on_delivery(delivery: DeliveryView) -> ActionView {
    match delivery {
        DeliveryView::Snapshot(bytes) => ActionView::Write(bytes),
        DeliveryView::Lagged(missed) => ActionView::ReportLag(missed),
        DeliveryView::StreamClosed => ActionView::Stop,
    }
}

/// Whether the egress task goes on after a write: it does exactly if the
/// write reached the peer.
pub open spec fn spec_goes_on_after_write(written: bool) -> bool {
    written
}

/// What a task writes over a run of deliveries whose writes all succeed:
/// nothing for a lag, and nothing more once the stream has closed.
pub open spec fn written_over(deliveries: Seq<DeliveryView>) -> Seq<Seq<u8>>
    decreases deliveries.len(),
{
    if deliveries.len() == 0 {
        Seq::<Seq<u8>>::empty()
    } else {
        match spec_on_delivery(deliveries.first()) {
            ActionView::Write(bytes) => seq![bytes] + written_over(deliveries.drop_first()),
            ActionView::ReportLag(_) => written_over(deliveries.drop_first()),
            ActionView::Stop => Seq::<Seq<u8>>::empty(),
        }
    }
}

/// Whether `delivery` carries a snapshot.
pub open spec fn carries_snapshot(delivery: DeliveryView) -> bool {
    delivery is Snapshot
}

/// The snapshots among `deliveries`, in their order.
pub open spec fn snapshots_among(deliveries: Seq<DeliveryView>) -> Seq<Seq<u8>> {
    deliveries.filter(|d: DeliveryView| carries_snapshot(d)).map_values(
        |d: DeliveryView| d->Snapshot_0,
    )
}

/// Decides what to do with a delivery.
pub fn on_delivery(delivery: Delivery) -> (action: EgressAction)
    ensures
        action@ == spec_on_delivery(delivery@),
{
    match delivery {
        Delivery::Snapshot(bytes) => EgressAction::Write(bytes),
        Delivery::Lagged(missed) => EgressAction::ReportLag(missed),
        Delivery::StreamClosed => EgressAction::Stop,
    }
}

/// Whether the egress task goes on after a write. A failed write means the
/// peer is gone, which ends the task and nothing else.
pub fn goes_on_after_write(written: bool) -> (result: bool)
    ensures
        result == spec_goes_on_after_write(written),
{
    written
}

/// While the stream stays open, a subscriber writes every snapshot it is
/// handed, each once and in the order of delivery, whatever lags lie
/// between them. Two subscribers that are handed the same snapshots in the
/// same order therefore write the same bytes in the same order.
pub proof fn lemma_egress_keeps_order(deliveries: Seq<DeliveryView>)
    requires
        forall|i: int| 0 <= i < deliveries.len() ==> !(#[trigger] deliveries[i] is StreamClosed),
    ensures
        written_over(deliveries) == snapshots_among(deliveries),
    decreases deliveries.len(),
{
    reveal(Seq::filter);
    let pred = |d: DeliveryView| carries_snapshot(d);
    let payload = |d: DeliveryView| d->Snapshot_0;
    if deliveries.len() == 0 {
        assert(deliveries.filter(pred) =~= Seq::<DeliveryView>::empty());
        assert(snapshots_among(deliveries) =~= Seq::<Seq<u8>>::empty());
    } else {
        let head = deliveries.first();
        let tail = deliveries.drop_first();
        assert(!(deliveries[0] is StreamClosed));
        assert forall|i: int| 0 <= i < tail.len() implies !(#[trigger] tail[i] is StreamClosed) by {
            assert(tail[i] == deliveries[i + 1]);
        }
        lemma_egress_keeps_order(tail);
        assert(deliveries =~= seq![head] + tail);
        Seq::filter_distributes_over_add(seq![head], tail, pred);
        assert(seq![head].filter(pred) =~= (if pred(head) {
            seq![head]
        } else {
            Seq::<DeliveryView>::empty()
        })) by {
            assert(seq![head].drop_last() =~= Seq::<DeliveryView>::empty());
            assert(Seq::<DeliveryView>::empty().filter(pred) =~= Seq::<DeliveryView>::empty());
        }
        if pred(head) {
            assert((seq![head] + tail.filter(pred)).map_values(payload) =~= seq![payload(head)]
                + tail.filter(pred).map_values(payload));
        } else {
            assert(Seq::<DeliveryView>::empty() + tail.filter(pred) =~= tail.filter(pred));
        }
    }
}

/// After the stream has closed the task writes nothing more, whatever would
/// still be delivered.
pub proof fn lemma_closed_stream_ends_egress(
    before: Seq<DeliveryView>,
    after: Seq<DeliveryView>,
)
    requires
        forall|i: int| 0 <= i < before.len() ==> !(#[trigger] before[i] is StreamClosed),
    ensures
        written_over(before + seq![DeliveryView::StreamClosed] + after) == written_over(before),
    decreases before.len(),
{
    let whole = before + seq![DeliveryView::StreamClosed] + after;
    if before.len() == 0 {
        assert(whole.first() == DeliveryView::StreamClosed);
    } else {
        let tail = before.drop_first();
        assert forall|i: int| 0 <= i < tail.len() implies !(#[trigger] tail[i] is StreamClosed) by {
            assert(tail[i] == before[i + 1]);
        }
        lemma_closed_stream_ends_egress(tail, after);
        assert(whole.first() == before.first());
        assert(!(before[0] is StreamClosed));
        assert(whole.drop_first() =~= tail + seq![DeliveryView::StreamClosed] + after);
    }
}

} // verus!
