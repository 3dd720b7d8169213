//! The registry of connected listeners and the fan-out of an update to them.

use std::collections::HashMap;
use vstd::prelude::*;
use vstd::std_specs::hash::*;
use vstd::std_specs::iter::IteratorSpec;
use futures::sync::mpsc::UnboundedSender;

verus! {

broadcast use vstd::std_specs::hash::group_hash_axioms;

/// What a registry holds, as contracts see it.
pub struct ListenersView<S> {
    /// The id that the next listener will get.
    pub next_id: nat,
    /// The sink of each registered listener, by its id.
    pub sinks: Map<usize, S>,
}

impl<S> ListenersView<S> {
    /// The registry before any listener has come.
    pub open spec fn initial() -> Self {
        ListenersView { next_id: 1, sinks: Map::empty() }
    }

    /// Every id that was handed out is positive and below the next id.
    pub open spec fn wf(self) -> bool {
        &&& 1 <= self.next_id
        &&& self.sinks.dom().finite()
        &&& forall|id: usize| #[trigger] self.sinks.contains_key(id) ==> 1 <= id < self.next_id
    }

    /// The id that a listener gets who registers now.
    pub open spec fn fresh_id(self) -> nat {
        self.next_id
    }

    /// The registry after a listener with the given sink has registered.
    pub open spec fn registered(self, sink: S) -> Self {
        ListenersView { next_id: self.next_id + 1, sinks: self.sinks.insert(self.next_id as usize, sink) }
    }

    /// The registry after the listener with the given id has left.
    pub open spec fn unregistered(self, id: usize) -> Self {
        ListenersView { next_id: self.next_id, sinks: self.sinks.remove(id) }
    }
}

/// Whether a report names each of the given ids exactly once, and no other.
pub open spec fn visits_each_once(report: Seq<(usize, bool)>, ids: Set<usize>) -> bool {
    &&& forall|i: int| 0 <= i < report.len() ==> ids.contains(#[trigger] report[i].0)
    &&& forall|i: int, j: int|
        0 <= i < j < report.len() ==> (#[trigger] report[i]).0 != (#[trigger] report[j]).0
    &&& forall|id: usize|
        ids.contains(id) ==> exists|i: int| 0 <= i < report.len() && (#[trigger] report[i]).0 == id
}

/// The connected listeners, each with the sink that carries messages to it.
///
/// Ids start at one and grow by one with each registration. An id is never
/// handed out twice, also not after its listener has left.
pub struct Listeners<S> {
    next_id: usize,
    sinks: HashMap<usize, S>,
}

impl<S> View for Listeners<S> {
    type V = ListenersView<S>;

    closed spec fn view(&self) -> ListenersView<S> {
        ListenersView { next_id: self.next_id as nat, sinks: self.sinks@ }
    }
}

impl<S> Listeners<S> {
    /// The invariant of the registry.
    pub open spec fn wf(&self) -> bool {
        self@.wf() && self@.next_id <= usize::MAX
    }

    /// A registry without listeners.
    pub fn new() -> (r: Self)
        ensures
            r.wf(),
            r@ == ListenersView::<S>::initial(),
    {
        Listeners { next_id: 1, sinks: HashMap::new() }
    }

    /// Whether another listener can register: ids are left.
    pub fn has_room(&self) -> (r: bool)
        ensures
            r == (self@.next_id < usize::MAX),
    {
        self.next_id < usize::MAX
    }

    /// Registers a listener and returns its id: the next unused one.
    pub fn register(&mut self, outbound: S) -> (id: usize)
        requires
            old(self).wf(),
            old(self)@.next_id < usize::MAX,
        ensures
            final(self).wf(),
            id == old(self)@.fresh_id(),
            final(self)@ == old(self)@.registered(outbound),
    {
        let id = self.next_id;
        self.next_id = id + 1;
        self.sinks.insert(id, outbound);
        id
    }

    /// Removes a listener. Tells whether it was registered; where it was
    /// not, nothing changes.
    pub fn unregister(&mut self, id: usize) -> (r: bool)
        requires
            old(self).wf(),
        ensures
            final(self).wf(),
            final(self)@ == old(self)@.unregistered(id),
            r == old(self)@.sinks.contains_key(id),
    {
        let removed = self.sinks.remove(&id);
        assert(self.sinks@ =~= old(self).sinks@.remove(id));
        removed.is_some()
    }

    /// The number of registered listeners.
    pub fn len(&self) -> (r: usize)
        requires
            self.wf(),
        ensures
            r == self@.sinks.dom().len(),
    {
        self.sinks.len()
    }

    /// Visits every registered listener once, in no particular order, and
    /// returns what each visit gave, with the listener's id.
    pub fn for_each<F: Fn(usize, &S) -> bool>(&self, visit: F) -> (report: Vec<(usize, bool)>)
        requires
            self.wf(),
            forall|id: usize, sink: &S| #[trigger] visit.requires((id, sink)),
        ensures
            visits_each_once(report@, self@.sinks.dom()),
            forall|i: int|
                0 <= i < report@.len() ==> visit.ensures(
                    (report@[i].0, &self@.sinks[report@[i].0]),
                    #[trigger] report@[i].1,
                ),
    {
        let mut report: Vec<(usize, bool)> = Vec::new();
        let ghost all = spec_hash_map_iter(&self.sinks).remaining();
        for entry in it: self.sinks.iter()
            invariant
                it.seq() == all,
                report@.len() == it.index(),
                forall|i: int| 0 <= i < report@.len() ==> report@[i].0 == *it.seq()[i].0,
                forall|i: int|
                    0 <= i < report@.len() ==> visit.ensures(
                        (report@[i].0, it.seq()[i].1),
                        #[trigger] report@[i].1,
                    ),
                forall|id: usize, sink: &S| #[trigger] visit.requires((id, sink)),
        {
            let (id, sink) = entry;
            let outcome = visit(*id, sink);
            report.push((*id, outcome));
        }
        proof {
            assert(report@.len() == all.len());
            assert(all.no_duplicates());
            assert forall|id: usize| self@.sinks.dom().contains(id) implies exists|i: int|
                0 <= i < report@.len() && (#[trigger] report@[i]).0 == id by {
                assert(all.contains((&id, &self.sinks@[id])));
                let i = choose|i: int| 0 <= i < all.len() && all[i] == (&id, &self.sinks@[id]);
                assert(report@[i].0 == id);
            }
            assert forall|i: int, j: int| 0 <= i < j < report@.len() implies (#[trigger] report@[i]).0 != (
            #[trigger] report@[j]).0 by {
                if report@[i].0 == report@[j].0 {
                    assert(self.sinks@[*all[i].0] == *all[i].1);
                    assert(self.sinks@[*all[j].0] == *all[j].1);
                    assert(all[i] == all[j]);
                }
            }
        }
        report
    }

    /// Whether a listener with this id is registered.
    pub fn contains(&self, id: usize) -> (r: bool)
        ensures
            r == self@.sinks.contains_key(id),
    {
        self.sinks.contains_key(&id)
    }
}

/// The sending half of an unbounded channel of the `futures` crate.
#[verifier::external_type_specification]
#[verifier::external_body]
#[verifier::reject_recursive_types(T)]
pub struct ExUnboundedSender<T>(UnboundedSender<T>);

/// Queues a copy of the payload on a listener's channel without waiting, and
/// tells whether the channel took it.
///
/// Calls `UnboundedSender::unbounded_send`. Whether the channel takes the
/// message depends on whether its receiving half is still there, so nothing
/// is claimed of the answer. The call fails an assertion of the channel only
/// when about half of `usize::MAX` messages wait in it.
#[verifier::external_body]
fn offer(sink: &UnboundedSender<Vec<u8>>, payload: &Vec<u8>) -> (queued: bool) {
    sink.unbounded_send(payload.clone()).is_ok()
}

/// The ids of the listeners that a report shows as not reached, in the
/// order of the report.
pub open spec fn not_reached(report: Seq<(usize, bool)>) -> Seq<usize> {
    report.filter(|entry: (usize, bool)| !entry.1).map_values(|entry: (usize, bool)| entry.0)
}

/// The listeners that an update did not reach.
pub fn failed_listeners(report: &Vec<(usize, bool)>) -> (failed: Vec<usize>)
    ensures
        failed@ == not_reached(report@),
{
    let mut failed: Vec<usize> = Vec::new();
    let mut i: usize = 0;
    while i < report.len()
        invariant
            i <= report.len(),
            failed@ == not_reached(report@.take(i as int)),
        decreases report.len() - i,
    {
        proof {
            let next = report@.take(i + 1);
            assert(next.drop_last() =~= report@.take(i as int));
            assert(next.last() == report@[i as int]);
            reveal(Seq::filter);
        }
        if !report[i].1 {
            failed.push(report[i].0);
            assert(failed@ =~= not_reached(report@.take(i + 1)));
        } else {
            assert(failed@ =~= not_reached(report@.take(i + 1)));
        }
        i += 1;
    }
    assert(report@.take(report@.len() as int) =~= report@);
    failed
}

/// Sends an encoded image to every registered listener.
///
/// Each listener is offered the image once, whatever became of the offers
/// to the others: a channel that refuses does not keep the rest from being
/// served. The report gives each listener's id with whether its channel
/// took the image. The registry is left as it is.
pub fn send_update(listeners: &Listeners<UnboundedSender<Vec<u8>>>, logo_png: &Vec<u8>) -> (report: Vec<
    (usize, bool),
>)
    requires
        listeners.wf(),
    ensures
        visits_each_once(report@, listeners@.sinks.dom()),
{
    listeners.for_each(|id: usize, sink: &UnboundedSender<Vec<u8>>| -> (queued: bool) { offer(sink, logo_png) })
}

/// What the transport reports of a connected listener.
#[derive(Clone, Copy, Debug, PartialEq, Eq, Structural)]
pub enum ListenerEvent {
    /// The listener sent a message. Messages from listeners are not acted on.
    Message,
    /// The listener closed the connection.
    Closed,
    /// The connection failed.
    Failed,
}

/// Takes a new connection into the registry and returns the listener's id.
pub fn listener_connected<S>(listeners: &mut Listeners<S>, outbound: S) -> (id: usize)
    requires
        old(listeners).wf(),
        old(listeners)@.next_id < usize::MAX,
    ensures
        final(listeners).wf(),
        id == old(listeners)@.fresh_id(),
        final(listeners)@ == old(listeners)@.registered(outbound),
{
    listeners.register(outbound)
}

/// The registry after the transport has reported `event` of listener `id`:
/// a message changes nothing, the end of the connection removes the
/// listener, however it ended.
pub open spec fn after_event<S>(view: ListenersView<S>, id: usize, event: ListenerEvent) -> ListenersView<S> {
    match event {
        ListenerEvent::Message => view,
        ListenerEvent::Closed => view.unregistered(id),
        ListenerEvent::Failed => view.unregistered(id),
    }
}

/// Acts on what the transport reports of a listener, and tells whether the
/// connection goes on.
pub fn listener_event<S>(listeners: &mut Listeners<S>, id: usize, event: ListenerEvent) -> (connected: bool)
    requires
        old(listeners).wf(),
    ensures
        final(listeners).wf(),
        final(listeners)@ == after_event(old(listeners)@, id, event),
        connected == (event == ListenerEvent::Message),
{
    match event {
        ListenerEvent::Message => true,
        ListenerEvent::Closed => {
            listeners.unregister(id);
            false
        },
        ListenerEvent::Failed => {
            listeners.unregister(id);
            false
        },
    }
}

/// A listener that registers gets an id that no registered listener has and
/// that is greater than each of theirs; registering and leaving keep the
/// registry well formed, and leaving does not give an id back.
pub proof fn lemma_fresh_id_is_new<S>(view: ListenersView<S>, sink: S, leaving: usize)
    requires
        view.wf(),
        view.next_id <= usize::MAX,
    ensures
        !view.sinks.contains_key(view.fresh_id() as usize),
        forall|id: usize| view.sinks.contains_key(id) ==> id < view.fresh_id(),
        view.registered(sink).wf(),
        view.unregistered(leaving).wf(),
        view.unregistered(leaving).fresh_id() == view.fresh_id(),
        view.registered(sink).fresh_id() == view.fresh_id() + 1,
{
}

/// Ids are not used again: after three listeners have registered in turn
/// and the second has left, the next listener gets an id greater than the
/// third's, and so not the id of the one that left.
pub proof fn lemma_ids_never_reused<S>(view: ListenersView<S>, a: S, b: S, c: S, d: S)
    requires
        view.wf(),
        view.next_id + 3 <= usize::MAX,
    ensures
        ({
            let first = view.fresh_id();
            let one = view.registered(a);
            let second = one.fresh_id();
            let two = one.registered(b);
            let third = two.fresh_id();
            let three = two.registered(c);
            let left = three.unregistered(second as usize);
            let fourth = left.fresh_id();
            &&& first < second < third < fourth
            &&& fourth != second
            &&& !left.sinks.contains_key(second as usize)
            &&& left.registered(d).sinks.contains_key(first as usize)
            &&& left.registered(d).sinks.contains_key(third as usize)
            &&& left.registered(d).sinks.contains_key(fourth as usize)
            &&& !left.registered(d).sinks.contains_key(second as usize)
        }),
{
}

/// Leaving twice is leaving once: the second removal of an id changes
/// nothing, and no removal touches another listener.
pub proof fn lemma_unregister_idempotent<S>(view: ListenersView<S>, id: usize, other: usize)
    ensures
        view.unregistered(id).unregistered(id) == view.unregistered(id),
        !view.unregistered(id).sinks.contains_key(id),
        other != id ==> (view.unregistered(id).sinks.contains_key(other) <==> view.sinks.contains_key(
            other,
        )),
        other != id && view.sinks.contains_key(other) ==> view.unregistered(id).sinks[other]
            == view.sinks[other],
{
    assert(view.unregistered(id).unregistered(id).sinks =~= view.unregistered(id).sinks);
}

/// A report that names each listener once names every listener other than
/// a given one, whatever it says of that one: a listener that could not be
/// reached does not keep another from being served.
pub proof fn lemma_failure_is_isolated(report: Seq<(usize, bool)>, ids: Set<usize>, failing: usize, other: usize)
    requires
        visits_each_once(report, ids),
        ids.contains(other),
        other != failing,
    ensures
        exists|i: int| 0 <= i < report.len() && (#[trigger] report[i]).0 == other,
        forall|i: int, j: int|
            0 <= i < report.len() && 0 <= j < report.len() && (#[trigger] report[i]).0 == other && (
            #[trigger] report[j]).0 == other ==> i == j,
{
}

} // verus!
