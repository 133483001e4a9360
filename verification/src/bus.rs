//! The progress bus: a lossy multi-subscriber broadcast of progress events.
//!
//! Publishing appends to a shared event history and never blocks on a
//! subscriber.  Each subscriber owns a cursor into that history and a buffer
//! capacity; when more events than its capacity are pending, the oldest are
//! dropped for that subscriber alone, and its next delivery is a single
//! `Lagged(n)` marker counting the dropped events, after which normal
//! delivery resumes from the oldest retained event.  A new subscriber starts
//! at the current tip: history is not replayed.

use vstd::prelude::*;
use crate::status::JobStatus;

verus! {

/// One progress notification, as published to subscribers.
pub struct ProgressEvent {
    pub job_id: u64,
    pub status: JobStatus,
    pub progress_percent: u32,
    pub message: String,
    pub emitted_at: u64,
}

/// The mathematical value of a progress event.
pub ghost struct ProgressEventView {
    pub job_id: u64,
    pub status: JobStatus,
    pub progress_percent: u32,
    pub message: Seq<char>,
    pub emitted_at: u64,
}

impl View for ProgressEvent {
    type V = ProgressEventView;

    open spec fn view(&self) -> ProgressEventView {
        ProgressEventView {
            job_id: self.job_id,
            status: self.status,
            progress_percent: self.progress_percent,
            message: self.message@,
            emitted_at: self.emitted_at,
        }
    }
}

impl ProgressEvent {
    /// An independent copy of this event.
    pub fn duplicate(&self) -> (r: ProgressEvent)
        ensures
            r@ == self@,
    {
        ProgressEvent {
            job_id: self.job_id,
            status: self.status,
            progress_percent: self.progress_percent,
            message: self.message.clone(),
            emitted_at: self.emitted_at,
        }
    }
}

/// What a subscriber receives: an event, or a marker that `n` events were
/// dropped for it.
pub enum Delivery {
    Event(ProgressEvent),
    Lagged(u64),
}

/// One subscriber's state: its cursor into the shared history and its buffer
/// capacity.
struct Subscriber {
    pos: usize,
    capacity: usize,
}

/// The mathematical value of a subscriber.
pub ghost struct SubscriberView {
    pub pos: int,
    pub capacity: int,
}

/// The mathematical value of the bus.
pub ghost struct BusView {
    pub history: Seq<ProgressEventView>,
    pub subs: Seq<SubscriberView>,
}

/// The progress bus.
pub struct ProgressBus {
    history: Vec<ProgressEvent>,
    subs: Vec<Subscriber>,
}

impl View for ProgressBus {
    type V = BusView;

    closed spec fn view(&self) -> BusView {
        BusView {
            history: Seq::new(self.history@.len(), |i: int| self.history@[i]@),
            subs: Seq::new(
                self.subs@.len(),
                |i: int|
                    SubscriberView {
                        pos: self.subs@[i].pos as int,
                        capacity: self.subs@[i].capacity as int,
                    },
            ),
        }
    }
}

/// Well-formedness of a bus value: every cursor is within the history and
/// every capacity is positive.
pub open spec fn bus_wf(b: BusView) -> bool {
    forall|i: int|
        0 <= i < b.subs.len() ==> 0 <= #[trigger] b.subs[i].pos <= b.history.len() && b.subs[
            i
        ].capacity >= 1
}

/// How many events are pending for subscriber `s`.
pub open spec fn spec_pending(b: BusView, s: int) -> int {
    b.history.len() - b.subs[s].pos
}

/// The bus after one event is published: the event joins the history; no
/// subscriber state changes, so publishing never blocks on a subscriber.
pub open spec fn spec_publish(b: BusView, e: ProgressEventView) -> BusView {
    BusView { history: b.history.push(e), subs: b.subs }
}

/// The bus after a whole sequence of events is published.
pub open spec fn spec_publish_all(b: BusView, evs: Seq<ProgressEventView>) -> BusView
    decreases evs.len(),
{
    if evs.len() == 0 {
        b
    } else {
        spec_publish_all(spec_publish(b, evs[0]), evs.drop_first())
    }
}

/// The bus after subscriber `s` takes one delivery: on a lag its cursor
/// jumps to the oldest retained event; otherwise it advances by one event,
/// or stays put when nothing is pending.
pub open spec fn spec_next_bus(b: BusView, s: int) -> BusView {
    let pos = b.subs[s].pos;
    let cap = b.subs[s].capacity;
    let pending = spec_pending(b, s);
    let newpos = if pending > cap {
        b.history.len() - cap
    } else if pending > 0 {
        pos + 1
    } else {
        pos
    };
    BusView {
        history: b.history,
        subs: b.subs.update(s, SubscriberView { pos: newpos, capacity: cap }),
    }
}

impl ProgressBus {
    /// An empty bus with no history and no subscribers.
    pub fn new() -> (r: ProgressBus)
        ensures
            bus_wf(r@),
            r@.history.len() == 0,
            r@.subs.len() == 0,
    {
        let r = ProgressBus { history: Vec::new(), subs: Vec::new() };
        proof {
            assert(r@.history =~= Seq::<ProgressEventView>::empty());
            assert(r@.subs =~= Seq::<SubscriberView>::empty());
        }
        r
    }

    /// Add a subscriber with the given buffer capacity; it starts at the
    /// current tip of the history, so it sees no past events.
    pub fn subscribe(&mut self, capacity: usize) -> (r: usize)
        requires
            bus_wf(old(self)@),
            capacity >= 1,
        ensures
            bus_wf(final(self)@),
            r == old(self)@.subs.len(),
            final(self)@.history == old(self)@.history,
            final(self)@.subs == old(self)@.subs.push(
                SubscriberView {
                    pos: old(self)@.history.len() as int,
                    capacity: capacity as int,
                },
            ),
    {
        let r = self.subs.len();
        let pos = self.history.len();
        self.subs.push(Subscriber { pos, capacity });
        proof {
            assert(self@.history =~= old(self)@.history);
            assert(self@.subs =~= old(self)@.subs.push(
                SubscriberView {
                    pos: old(self)@.history.len() as int,
                    capacity: capacity as int,
                },
            ));
        }
        r
    }

    /// How many subscribers the bus has.
    pub fn subscriber_count(&self) -> (r: usize)
        ensures
            r == self@.subs.len(),
    {
        self.subs.len()
    }

    /// Publish one event: append it to the history.  No subscriber state is
    /// touched, so a slow subscriber never delays a publisher.
    pub fn publish(&mut self, ev: ProgressEvent)
        requires
            bus_wf(old(self)@),
        ensures
            bus_wf(final(self)@),
            final(self)@ == spec_publish(old(self)@, ev@),
    {
        self.history.push(ev);
        proof {
            assert(self@.history =~= old(self)@.history.push(ev@));
            assert(self@.subs =~= old(self)@.subs);
            assert(self@ == spec_publish(old(self)@, ev@));
        }
    }

    /// Take the next delivery for subscriber `sub`: a `Lagged` marker with
    /// the exact count of dropped events when it fell more than its capacity
    /// behind, the oldest pending event otherwise, or nothing when it is
    /// caught up.
    pub fn next_delivery(&mut self, sub: usize) -> (r: Option<Delivery>)
        requires
            bus_wf(old(self)@),
            sub < old(self)@.subs.len(),
        ensures
            bus_wf(final(self)@),
            final(self)@ == spec_next_bus(old(self)@, sub as int),
            ({
                let pos = old(self)@.subs[sub as int].pos;
                let cap = old(self)@.subs[sub as int].capacity;
                let pending = spec_pending(old(self)@, sub as int);
                if pending > cap {
                    r matches Some(d) && d matches Delivery::Lagged(n) && n == pending - cap
                } else if pending > 0 {
                    r matches Some(d) && d matches Delivery::Event(e) && e@ == old(
                        self,
                    )@.history[pos]
                } else {
                    r is None
                }
            }),
    {
        let pos = self.subs[sub].pos;
        let cap = self.subs[sub].capacity;
        let len = self.history.len();
        proof {
            assert(self@.subs[sub as int].pos <= self@.history.len());
        }
        let pending = len - pos;
        if pending > cap {
            let dropped = pending - cap;
            self.subs[sub].pos = len - cap;
            proof {
                assert(self@.history =~= old(self)@.history);
                assert(self@.subs =~= spec_next_bus(old(self)@, sub as int).subs);
            }
            Some(Delivery::Lagged(dropped as u64))
        } else if pending > 0 {
            let ev = self.history[pos].duplicate();
            self.subs[sub].pos = pos + 1;
            proof {
                assert(self@.history =~= old(self)@.history);
                assert(self@.subs =~= spec_next_bus(old(self)@, sub as int).subs);
            }
            Some(Delivery::Event(ev))
        } else {
            proof {
                assert(self@.history =~= old(self)@.history);
                assert(self@.subs =~= spec_next_bus(old(self)@, sub as int).subs);
            }
            None
        }
    }
}

/// Publishing leaves every subscriber's cursor and capacity alone and only
/// appends to the history.
pub proof fn lemma_publish_all_shape(b: BusView, evs: Seq<ProgressEventView>)
    ensures
        spec_publish_all(b, evs).subs == b.subs,
        spec_publish_all(b, evs).history == b.history + evs,
    decreases evs.len(),
{
    if evs.len() == 0 {
        assert(b.history + evs =~= b.history);
    } else {
        lemma_publish_all_shape(spec_publish(b, evs[0]), evs.drop_first());
        assert(b.history.push(evs[0]) + evs.drop_first() =~= b.history + evs);
    }
}

/// A subscriber that stops reading while more than its buffer capacity of
/// events are published receives exactly one `Lagged` marker counting the
/// dropped events, and the deliveries that follow are exactly the newest
/// `capacity` of those events, oldest first, with nothing else lost.
pub proof fn lemma_slow_subscriber_lags_once(
    b: BusView,
    s: int,
    evs: Seq<ProgressEventView>,
)
    requires
        bus_wf(b),
        0 <= s < b.subs.len(),
        b.subs[s].pos == b.history.len(),
        evs.len() > b.subs[s].capacity,
    ensures
        ({
            let cap = b.subs[s].capacity;
            let b1 = spec_publish_all(b, evs);
            let b2 = spec_next_bus(b1, s);
            // the pending overflow is reported once, with the exact drop count
            spec_pending(b1, s) == evs.len() && spec_pending(b1, s) - cap == evs.len() - cap
            // afterwards the cursor stands on the oldest retained event
             && b2.subs[s].pos == b1.history.len() - cap
            // and the retained events are the newest `cap` published ones, in order
             && forall|j: int|
                0 <= j < cap ==> #[trigger] b1.history[b2.subs[s].pos + j] == evs[evs.len() - cap
                    + j]
        }),
{
    let cap = b.subs[s].capacity;
    let b1 = spec_publish_all(b, evs);
    lemma_publish_all_shape(b, evs);
    let b2 = spec_next_bus(b1, s);
    assert forall|j: int| 0 <= j < cap implies #[trigger] b1.history[b2.subs[s].pos + j]
        == evs[evs.len() - cap + j] by {
        assert(b1.history[b.history.len() + (evs.len() - cap + j)] == evs[evs.len() - cap + j]);
    }
}

/// A subscriber that reads after every publish receives every event: from a
/// caught-up cursor, one publish makes exactly that event pending, the next
/// delivery hands it over, and the cursor is caught up again.
pub proof fn lemma_active_subscriber_sees_all(b: BusView, s: int, e: ProgressEventView)
    requires
        bus_wf(b),
        0 <= s < b.subs.len(),
        b.subs[s].pos == b.history.len(),
    ensures
        ({
            let b1 = spec_publish(b, e);
            let b2 = spec_next_bus(b1, s);
            spec_pending(b1, s) == 1 && b1.history[b.subs[s].pos] == e && b2.subs[s].pos
                == b1.history.len() && spec_pending(b2, s) == 0
        }),
{
}

} // verus!
