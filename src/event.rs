use std::collections::BTreeMap;

use vstd::prelude::*;

use crate::schema::{Enumeration, Variant};
use crate::validate::{distinct_values, values_distinct, SchemaError};

verus! {

/// A guest callback: the handler the host may call and the opaque context it
/// hands back verbatim. Both are guest-owned tokens (an address or a table
/// index) that the host never dereferences.
#[derive(Clone, Copy, Debug, PartialEq, Eq, Structural)]
pub struct Callback {
    pub handler: usize,
    pub context: usize,
}

/// The registration state of one event.
#[derive(Clone, Copy, Debug, PartialEq, Eq, Structural)]
pub enum State {
    Unregistered,
    Registered(Callback),
}

/// Why a registration call is refused.
#[derive(Clone, Copy, Debug, PartialEq, Eq, Structural)]
pub enum EventError {
    /// The value is not a discriminant of the event enumeration.
    UnknownEvent,
}

/// The discriminants declared by the variants.
pub open spec fn declared(vs: Seq<Variant>) -> Set<usize> {
    Set::new(|v: usize| exists|i: int| 0 <= i < vs.len() && #[trigger] vs[i].value == v)
}

/// Every declared event, unregistered.
pub open spec fn initial(vs: Seq<Variant>) -> Map<usize, State> {
    declared(vs).mk_map(|v: usize| State::Unregistered)
}

/// The value is a legal event of the registrations `m`.
pub open spec fn accepts(m: Map<usize, State>, event: usize) -> bool {
    m.contains_key(event)
}

/// The registrations after registering `c` for `event`. Registering an event
/// that is already registered replaces its callback.
pub open spec fn registered(m: Map<usize, State>, event: usize, c: Callback) -> Map<usize, State> {
    if accepts(m, event) {
        m.insert(event, State::Registered(c))
    } else {
        m
    }
}

/// The registrations after unregistering `event`.
pub open spec fn unregistered(m: Map<usize, State>, event: usize) -> Map<usize, State> {
    if accepts(m, event) {
        m.insert(event, State::Unregistered)
    } else {
        m
    }
}

/// The registration state of each event of one enumeration.
pub struct EventTable {
    states: BTreeMap<usize, State>,
}

impl View for EventTable {
    type V = Map<usize, State>;

    closed spec fn view(&self) -> Map<usize, State> {
        self.states@
    }
}

impl EventTable {
    /// A table for the events that the enumeration declares, all
    /// unregistered; refused with `DuplicateEventId` when two variants share
    /// a discriminant.
    pub fn new(events: &Enumeration) -> (r: Result<EventTable, SchemaError>)
        ensures
            r is Ok <==> values_distinct(events.variants@),
            r matches Ok(t) ==> t@ == initial(events.variants@),
    {
        if !distinct_values(&events.variants) {
            return Err(SchemaError::DuplicateEventId);
        }
        let vs = &events.variants;
        let mut states: BTreeMap<usize, State> = BTreeMap::new();
        let n = vs.len();
        let mut i: usize = 0;
        while i < n
            invariant
                n == vs@.len(),
                i <= n,
                states@ == initial(vs@.subrange(0, i as int)),
            decreases n - i,
        {
            states.insert(vs[i].value, State::Unregistered);
            proof {
                let pre = vs@.subrange(0, i as int);
                let post = vs@.subrange(0, i + 1);
                assert(post[i as int] == vs@[i as int]);
                assert forall|v: usize| declared(post).contains(v) == (declared(pre).contains(v)
                    || v == vs@[i as int].value) by {
                    if declared(pre).contains(v) {
                        let k = choose|k: int| 0 <= k < pre.len() && #[trigger] pre[k].value == v;
                        assert(post[k] == pre[k]);
                    }
                    if declared(post).contains(v) && v != vs@[i as int].value {
                        let k = choose|k: int| 0 <= k < post.len() && #[trigger] post[k].value == v;
                        assert(pre[k] == post[k]);
                    }
                }
                assert(states@ =~= initial(post));
            }
            i = i + 1;
        }
        assert(vs@.subrange(0, n as int) =~= vs@);
        Ok(EventTable { states })
    }

    /// Registers the callback for the event, replacing any earlier one.
    pub fn register(&mut self, event: usize, handler: usize, context: usize) -> (r: Result<
        (),
        EventError,
    >)
        ensures
            r is Ok <==> accepts(old(self)@, event),
            r is Err ==> r == Err::<(), EventError>(EventError::UnknownEvent),
            final(self)@ == registered(old(self)@, event, Callback { handler, context }),
    {
        if !self.states.contains_key(&event) {
            return Err(EventError::UnknownEvent);
        }
        self.states.insert(event, State::Registered(Callback { handler, context }));
        Ok(())
    }

    /// Unregisters the event; a no-op that succeeds when it is not registered.
    pub fn unregister(&mut self, event: usize) -> (r: Result<(), EventError>)
        ensures
            r is Ok <==> accepts(old(self)@, event),
            r is Err ==> r == Err::<(), EventError>(EventError::UnknownEvent),
            final(self)@ == unregistered(old(self)@, event),
    {
        if !self.states.contains_key(&event) {
            return Err(EventError::UnknownEvent);
        }
        self.states.insert(event, State::Unregistered);
        Ok(())
    }

    /// The state of the event, or `None` when it is not a legal event.
    pub fn state(&self, event: usize) -> (r: Option<State>)
        ensures
            r == if accepts(self@, event) {
                Some(self@[event])
            } else {
                None
            },
    {
        match self.states.get(&event) {
            Some(s) => Some(*s),
            None => None,
        }
    }

    /// The callback to deliver the event to, if one is registered. Its context
    /// is the one given at registration, unchanged. A delivery may come with
    /// no actual readiness: the handler re-checks with the operation itself.
    pub fn callback(&self, event: usize) -> (r: Option<Callback>)
        ensures
            r == match (if accepts(self@, event) { self@[event] } else { State::Unregistered }) {
                State::Registered(c) => Some(c),
                State::Unregistered => None,
            },
    {
        match self.states.get(&event) {
            Some(State::Registered(c)) => Some(*c),
            _ => None,
        }
    }
}

/// The events that a table accepts are exactly those that its enumeration
/// declares, and registering or unregistering never changes that set.
pub proof fn lemma_accepted_events(vs: Seq<Variant>, m: Map<usize, State>, event: usize, c: Callback)
    requires
        m.dom() == initial(vs).dom(),
    ensures
        accepts(m, event) <==> exists|i: int| 0 <= i < vs.len() && vs[i].value == event,
        registered(m, event, c).dom() == m.dom(),
        unregistered(m, event).dom() == m.dom(),
{
    assert(initial(vs).dom() =~= declared(vs));
    assert(declared(vs).contains(event) == exists|i: int|
        0 <= i < vs.len() && #[trigger] vs[i].value == event);
    if accepts(m, event) {
        assert(registered(m, event, c).dom() =~= m.dom());
        assert(unregistered(m, event).dom() =~= m.dom());
    }
}

/// Registering then unregistering a legal event leaves it unregistered, and
/// unregistering it once more succeeds and changes nothing.
pub proof fn lemma_unregister_idempotent(m: Map<usize, State>, event: usize, c: Callback)
    requires
        accepts(m, event),
    ensures
        unregistered(registered(m, event, c), event)[event] == State::Unregistered,
        accepts(unregistered(registered(m, event, c), event), event),
        unregistered(unregistered(registered(m, event, c), event), event) == unregistered(
            registered(m, event, c),
            event,
        ),
        unregistered(registered(m, event, c), event) == unregistered(m, event),
{
    let once = unregistered(registered(m, event, c), event);
    assert(unregistered(once, event) =~= once);
    assert(once =~= unregistered(m, event));
}

} // verus!
