//! The event dispatch registry: per-event ordered lists of registrations,
//! identity-based removal, and snapshot-based dispatch.
//!
//! A registration is identified by a unique numeric id, the stand-in for the
//! identity of the caller's handler allocation. The surrounding runtime maps
//! each id to the actual callback and launches the invocations that
//! [`HandlerRegistry::handle`] returns as a snapshot.

use vstd::prelude::*;

use crate::models::{Event, EventData};
use crate::DiscordError;

verus! {

/// Event context handed to each handler invocation of one dispatch.
#[derive(Debug)]
pub struct Context {
    /// Event data
    pub event: EventData,
}

impl Clone for Context {
    fn clone(&self) -> (res: Self)
        ensures
            res.event@ == self.event@,
    {
        Context { event: self.event.clone() }
    }
}

impl Context {
    /// Wraps the data of one dispatch.
    pub fn new(event: EventData) -> (res: Self)
        ensures
            res.event@ == event@,
    {
        Context { event }
    }
}

/// One row of the handler table: an event and its registrations, oldest first.
struct EventEntry {
    event: Event,
    handlers: Vec<u64>,
}

/// The table of event handler registrations.
///
/// Each event that has ever been registered owns one row; a row keeps the
/// registration ids for its event in registration order. Ids are issued by a
/// counter and never reused, so an id identifies one registration for the
/// registry's whole lifetime.
pub struct HandlerRegistry {
    entries: Vec<EventEntry>,
    next_id: u64,
}

impl HandlerRegistry {
    /// How many rows the table has: one per event that was ever registered.
    pub closed spec fn spec_event_count(self) -> nat {
        self.entries@.len()
    }

    /// Whether the table has a row for `e` (it may be empty after removals).
    pub closed spec fn spec_has_event(self, e: Event) -> bool {
        exists|i: int| 0 <= i < self.entries@.len() && self.entries@[i].event == e
    }

    /// The position of the row for `e`, meaningful only when the row exists.
    closed spec fn entry_index(self, e: Event) -> int {
        choose|i: int| 0 <= i < self.entries@.len() && self.entries@[i].event == e
    }

    /// The registration ids currently stored for `e`, in registration order.
    pub closed spec fn spec_handlers(self, e: Event) -> Seq<u64> {
        if self.spec_has_event(e) {
            self.entries@[self.entry_index(e)].handlers@
        } else {
            Seq::<u64>::empty()
        }
    }

    /// The id the next registration will receive.
    pub closed spec fn spec_next_id(self) -> u64 {
        self.next_id
    }

    /// Well-formedness: rows have pairwise distinct events, and every stored
    /// id was issued by the counter and belongs to exactly one registration.
    pub closed spec fn wf(self) -> bool {
        &&& forall|i: int, j: int|
            0 <= i < j < self.entries@.len() ==> self.entries@[i].event != self.entries@[j].event
        &&& forall|i: int, k: int|
            0 <= i < self.entries@.len() && 0 <= k < self.entries@[i].handlers@.len()
                ==> self.entries@[i].handlers@[k] < self.next_id
        &&& forall|i: int, k: int, j: int, l: int|
            0 <= i < self.entries@.len() && 0 <= k < self.entries@[i].handlers@.len() && 0 <= j
                < self.entries@.len() && 0 <= l < self.entries@[j].handlers@.len() && (i != j || k
                != l) ==> self.entries@[i].handlers@[k] != self.entries@[j].handlers@[l]
    }

    /// The row position for an event with a row is unique and in bounds.
    proof fn lemma_entry_index(self, e: Event)
        requires
            self.wf(),
            self.spec_has_event(e),
        ensures
            0 <= self.entry_index(e) < self.entries@.len(),
            self.entries@[self.entry_index(e)].event == e,
            forall|i: int|
                0 <= i < self.entries@.len() && self.entries@[i].event == e ==> i
                    == self.entry_index(e),
    {
        let j = self.entry_index(e);
        assert(0 <= j < self.entries@.len() && self.entries@[j].event == e);
    }

    /// An empty registry: no rows, no registrations.
    pub fn new() -> (r: Self)
        ensures
            r.wf(),
            r.spec_event_count() == 0,
            forall|e: Event| !r.spec_has_event(e),
            forall|e: Event| r.spec_handlers(e) == Seq::<u64>::empty(),
            r.spec_next_id() == 0,
    {
        let r = HandlerRegistry { entries: Vec::new(), next_id: 0 };
        proof {
            assert forall|e: Event| r.spec_handlers(e) == Seq::<u64>::empty() by {
                assert(!r.spec_has_event(e));
            }
        }
        r
    }

    /// Appends a registration for `event` and returns the handle that stands
    /// for it. Existing registrations, for this event and for others, are
    /// unaffected; the fresh id was never stored before.
    #[verifier::loop_isolation(false)]
    pub fn register(&mut self, event: Event) -> (h: EventCallbackHandle)
        requires
            old(self).wf(),
            old(self).spec_next_id() < u64::MAX,
        ensures
            final(self).wf(),
            h.event == event,
            h.handler == old(self).spec_next_id(),
            final(self).spec_next_id() == old(self).spec_next_id() + 1,
            forall|e: Event| !old(self).spec_handlers(e).contains(h.handler),
            final(self).spec_handlers(event) == old(self).spec_handlers(event).push(h.handler),
            forall|e: Event|
                e != event ==> final(self).spec_handlers(e) == old(self).spec_handlers(e),
            forall|e: Event|
                final(self).spec_has_event(e) == (old(self).spec_has_event(e) || e == event),
            final(self).spec_event_count() == old(self).spec_event_count() + (
            if old(self).spec_has_event(event) {
                0int
            } else {
                1int
            }),
    {
        let ghost prev = *old(self);
        let id = self.next_id;
        proof {
            assert forall|e: Event| !prev.spec_handlers(e).contains(id) by {
                if prev.spec_has_event(e) {
                    prev.lemma_entry_index(e);
                }
            }
        }
        let n = self.entries.len();
        let mut i: usize = 0;
        while i < n
            invariant
                forall|j: int| 0 <= j < i ==> self.entries@[j].event != event,
                *self == prev,
                i <= n,
            decreases n - i,
        {
            if self.entries[i].event == event {
                proof {
                    assert(prev.spec_has_event(event));
                    prev.lemma_entry_index(event);
                    assert(prev.entry_index(event) == i);
                    assert(prev.spec_handlers(event) == prev.entries@[i as int].handlers@);
                }
                self.next_id = self.next_id + 1;
                let entry = &mut self.entries[i];
                entry.handlers.push(id);
                proof {
                    let cur = *self;
                    assert(cur.entries@ =~= prev.entries@.update(
                        i as int,
                        cur.entries@[i as int],
                    ));
                    assert(forall|x: int|
                        0 <= x < cur.entries@.len() && x != i ==> cur.entries@[x]
                            == prev.entries@[x]);
                    assert(cur.entries@[i as int].event == event);
                    assert(cur.entries@[i as int].handlers@ == prev.entries@[
                    i as int].handlers@.push(id));
                    assert(cur.wf());
                    assert forall|e: Event|
                        cur.spec_has_event(e) == (prev.spec_has_event(e)
                            || e == event) by {
                        if cur.spec_has_event(e) {
                            let x = cur.entry_index(e);
                            assert(0 <= x < cur.entries@.len() && cur.entries@[x].event == e);
                            if x == i {
                                assert(e == event);
                            } else {
                                assert(prev.entries@[x].event == e);
                            }
                        }
                        if prev.spec_has_event(e) {
                            let x = prev.entry_index(e);
                            assert(0 <= x < prev.entries@.len() && prev.entries@[x].event == e);
                            assert(cur.entries@[x].event == e);
                        }
                        if e == event {
                            assert(cur.entries@[i as int].event == e);
                        }
                    }
                    cur.lemma_entry_index(event);
                    assert(cur.entry_index(event) == i);
                    assert(cur.spec_handlers(event) == prev.spec_handlers(event).push(id));
                    assert forall|e: Event| e != event implies cur.spec_handlers(e)
                        == prev.spec_handlers(e) by {
                        if cur.spec_has_event(e) {
                            cur.lemma_entry_index(e);
                            prev.lemma_entry_index(e);
                            let x = cur.entry_index(e);
                            assert(x != i);
                            assert(prev.entries@[x].event == e);
                            assert(prev.entry_index(e) == x);
                        }
                    }
                }
                return EventCallbackHandle { event, handler: id };
            }
            i = i + 1;
        }
        proof {
            assert(!prev.spec_has_event(event));
        }
        self.next_id = self.next_id + 1;
        let mut handlers: Vec<u64> = Vec::new();
        handlers.push(id);
        self.entries.push(EventEntry { event, handlers });
        proof {
            let cur = *self;
            let last = cur.entries@.len() - 1;
            assert(cur.entries@ == prev.entries@.push(cur.entries@[last]));
            assert(forall|x: int| 0 <= x < last ==> cur.entries@[x] == prev.entries@[x]);
            assert(cur.entries@[last].event == event);
            assert(cur.entries@[last].handlers@ =~= Seq::<u64>::empty().push(id));
            assert(cur.wf());
            assert forall|e: Event|
                cur.spec_has_event(e) == (prev.spec_has_event(e) || e == event) by {
                if cur.spec_has_event(e) {
                    let x = cur.entry_index(e);
                    assert(0 <= x < cur.entries@.len() && cur.entries@[x].event == e);
                    if x == last {
                        assert(e == event);
                    } else {
                        assert(prev.entries@[x].event == e);
                    }
                }
                if prev.spec_has_event(e) {
                    let x = prev.entry_index(e);
                    assert(cur.entries@[x].event == e);
                }
                if e == event {
                    assert(cur.entries@[last].event == e);
                }
            }
            cur.lemma_entry_index(event);
            assert(cur.entry_index(event) == last);
            assert(cur.spec_handlers(event) =~= prev.spec_handlers(event).push(id));
            assert forall|e: Event| e != event implies cur.spec_handlers(e)
                == prev.spec_handlers(e) by {
                if cur.spec_has_event(e) {
                    cur.lemma_entry_index(e);
                    prev.lemma_entry_index(e);
                    let x = cur.entry_index(e);
                    assert(x != last);
                    assert(prev.entries@[x].event == e);
                    assert(prev.entry_index(e) == x);
                }
            }
        }
        EventCallbackHandle { event, handler: id }
    }

    /// The snapshot of one dispatch: every registration currently stored for
    /// `event`, in registration order, each paired with its own copy of the
    /// dispatched data. An event with no registrations yields an empty
    /// snapshot and nothing else happens.
    #[verifier::loop_isolation(false)]
    pub fn handle(&self, event: Event, data: EventData) -> (r: Vec<(u64, Context)>)
        requires
            self.wf(),
        ensures
            r@.len() == self.spec_handlers(event).len(),
            forall|k: int|
                0 <= k < r@.len() ==> r@[k].0 == self.spec_handlers(event)[k] && r@[k].1.event@
                    == data@,
    {
        let n = self.entries.len();
        let mut i: usize = 0;
        while i < n
            invariant
                forall|j: int| 0 <= j < i ==> self.entries@[j].event != event,
                i <= n,
            decreases n - i,
        {
            if self.entries[i].event == event {
                proof {
                    assert(self.spec_has_event(event));
                    self.lemma_entry_index(event);
                    assert(self.entry_index(event) == i);
                }
                let list = &self.entries[i].handlers;
                let m = list.len();
                let mut r: Vec<(u64, Context)> = Vec::new();
                let mut k: usize = 0;
                while k < m
                    invariant
                        list@ == self.spec_handlers(event),
                        m == list@.len(),
                        k <= m,
                        r@.len() == k,
                        forall|x: int|
                            0 <= x < k ==> r@[x].0 == list@[x] && r@[x].1.event@ == data@,
                    decreases m - k,
                {
                    let ctx = Context::new(data.clone());
                    r.push((list[k], ctx));
                    k = k + 1;
                }
                return r;
            }
            i = i + 1;
        }
        proof {
            assert(!self.spec_has_event(event));
        }
        Vec::new()
    }

    /// Removes the registration `target` from the list for `event`, if it is
    /// there, and returns it; otherwise reports that no changes were made and
    /// leaves the registry exactly as it was. The row itself stays, other
    /// registrations of the event and all other events are untouched, and a
    /// removed id is gone: removing it again reports no changes.
    #[verifier::loop_isolation(false)]
    pub fn remove(&mut self, event: Event, target: u64) -> (r: Result<u64, DiscordError>)
        requires
            old(self).wf(),
        ensures
            final(self).wf(),
            r is Ok <==> old(self).spec_handlers(event).contains(target),
            r matches Ok(id) ==> id == target,
            r is Ok ==> exists|k: int|
                0 <= k < old(self).spec_handlers(event).len() && old(self).spec_handlers(
                    event,
                )[k] == target && final(self).spec_handlers(event) == old(self).spec_handlers(
                    event,
                ).remove(k),
            !final(self).spec_handlers(event).contains(target),
            forall|e: Event|
                e != event ==> final(self).spec_handlers(e) == old(self).spec_handlers(e),
            forall|e: Event| final(self).spec_has_event(e) == old(self).spec_has_event(e),
            final(self).spec_event_count() == old(self).spec_event_count(),
            final(self).spec_next_id() == old(self).spec_next_id(),
            r is Err ==> r == Err::<u64, DiscordError>(DiscordError::NoChangesMade) && *final(self)
                == *old(self),
    {
        let ghost prev = *old(self);
        let n = self.entries.len();
        let mut i: usize = 0;
        while i < n
            invariant
                forall|j: int| 0 <= j < i ==> self.entries@[j].event != event,
                *self == prev,
                i <= n,
            decreases n - i,
        {
            if self.entries[i].event == event {
                proof {
                    assert(prev.spec_has_event(event));
                    prev.lemma_entry_index(event);
                    assert(prev.entry_index(event) == i);
                    assert(prev.spec_handlers(event) == prev.entries@[i as int].handlers@);
                }
                let m = self.entries[i].handlers.len();
                let mut k: usize = 0;
                while k < m
                    invariant
                        *self == prev,
                        i < n,
                        m == self.entries@[i as int].handlers@.len(),
                        k <= m,
                        forall|x: int|
                            0 <= x < k ==> self.entries@[i as int].handlers@[x] != target,
                    decreases m - k,
                {
                    if self.entries[i].handlers[k] == target {
                        proof {
                            assert(prev.spec_handlers(event)[k as int] == target);
                            assert(prev.spec_handlers(event).contains(target));
                        }
                        let entry = &mut self.entries[i];
                        let removed = entry.handlers.remove(k);
                        proof {
                            let cur = *self;
                            assert(cur.entries@ =~= prev.entries@.update(
                                i as int,
                                cur.entries@[i as int],
                            ));
                            assert(forall|x: int|
                                0 <= x < cur.entries@.len() && x != i ==> cur.entries@[x]
                                    == prev.entries@[x]);
                            assert(cur.entries@[i as int].event == event);
                            assert(cur.entries@[i as int].handlers@ == prev.entries@[
                            i as int].handlers@.remove(k as int));
                            assert(forall|x: int|
                                0 <= x < cur.entries@[i as int].handlers@.len()
                                    ==> cur.entries@[i as int].handlers@[x] == (if x < k {
                                    prev.entries@[i as int].handlers@[x]
                                } else {
                                    prev.entries@[i as int].handlers@[x + 1]
                                }));
                            assert(cur.wf());
                            assert forall|e: Event|
                                cur.spec_has_event(e) == prev.spec_has_event(e) by {
                                if cur.spec_has_event(e) {
                                    let x = cur.entry_index(e);
                                    assert(0 <= x < cur.entries@.len() && cur.entries@[x].event
                                        == e);
                                    assert(prev.entries@[x].event == e);
                                }
                                if prev.spec_has_event(e) {
                                    let x = prev.entry_index(e);
                                    assert(0 <= x < prev.entries@.len() && prev.entries@[x].event
                                        == e);
                                    assert(cur.entries@[x].event == e);
                                }
                            }
                            cur.lemma_entry_index(event);
                            assert(cur.entry_index(event) == i);
                            assert(cur.spec_handlers(event) == prev.spec_handlers(event).remove(
                                k as int,
                            ));
                            assert(!cur.spec_handlers(event).contains(target)) by {
                                assert(forall|x: int|
                                    0 <= x < prev.spec_handlers(event).len() && x != k
                                        ==> prev.spec_handlers(event)[x] != target);
                            }
                            assert forall|e: Event| e != event implies cur.spec_handlers(e)
                                == prev.spec_handlers(e) by {
                                if cur.spec_has_event(e) {
                                    cur.lemma_entry_index(e);
                                    prev.lemma_entry_index(e);
                                    let x = cur.entry_index(e);
                                    assert(x != i);
                                    assert(prev.entries@[x].event == e);
                                    assert(prev.entry_index(e) == x);
                                }
                            }
                        }
                        return Ok(removed);
                    }
                    k = k + 1;
                }
                proof {
                    assert(!prev.spec_handlers(event).contains(target));
                }
                return Err(DiscordError::NoChangesMade);
            }
            i = i + 1;
        }
        proof {
            assert(!prev.spec_has_event(event));
            assert(!prev.spec_handlers(event).contains(target));
        }
        Err(DiscordError::NoChangesMade)
    }

    /// How many events have a row in the table.
    pub fn event_count(&self) -> (r: usize)
        ensures
            r == self.spec_event_count(),
    {
        self.entries.len()
    }

    /// How many registrations are currently stored for `event`.
    #[verifier::loop_isolation(false)]
    pub fn handler_count(&self, event: Event) -> (r: usize)
        requires
            self.wf(),
        ensures
            r == self.spec_handlers(event).len(),
    {
        let n = self.entries.len();
        let mut i: usize = 0;
        while i < n
            invariant
                forall|j: int| 0 <= j < i ==> self.entries@[j].event != event,
                i <= n,
            decreases n - i,
        {
            if self.entries[i].event == event {
                proof {
                    assert(self.spec_has_event(event));
                    self.lemma_entry_index(event);
                    assert(self.entry_index(event) == i);
                }
                return self.entries[i].handlers.len();
            }
            i = i + 1;
        }
        proof {
            assert(!self.spec_has_event(event));
        }
        0
    }

    /// How many registration ids have been issued; ids are never reused, so
    /// a caller can see that the 64-bit id space is not exhausted.
    pub fn issued_ids(&self) -> (r: u64)
        ensures
            r == self.spec_next_id(),
    {
        self.next_id
    }

    /// Whether the table has a row for `event`.
    #[verifier::loop_isolation(false)]
    pub fn has_event(&self, event: Event) -> (r: bool)
        ensures
            r == self.spec_has_event(event),
    {
        let n = self.entries.len();
        let mut i: usize = 0;
        while i < n
            invariant
                forall|j: int| 0 <= j < i ==> self.entries@[j].event != event,
                i <= n,
            decreases n - i,
        {
            if self.entries[i].event == event {
                return true;
            }
            i = i + 1;
        }
        false
    }
}

/// Handle to an event listener: the capability over one registration.
///
/// The surrounding runtime drives it: letting its wrapper fall out of scope
/// calls [`EventCallbackHandle::remove`], best-effort; persisting skips that
/// call forever, which leaves the registration in place.
#[must_use]
pub struct EventCallbackHandle {
    /// The event the registration belongs to.
    pub event: Event,
    /// The unique id of the registration this handle stands for.
    pub handler: u64,
}

impl EventCallbackHandle {
    /// Immediately removes this handle's own registration, and only it: other
    /// registrations of the same event and of other events stay. If the
    /// registration is already gone, nothing changes — removal is best-effort
    /// and idempotent, and no error is surfaced.
    pub fn remove(self, registry: &mut HandlerRegistry)
        requires
            old(registry).wf(),
        ensures
            final(registry).wf(),
            !final(registry).spec_handlers(self.event).contains(self.handler),
            old(registry).spec_handlers(self.event).contains(self.handler) ==> exists|k: int|
                0 <= k < old(registry).spec_handlers(self.event).len() && old(
                    registry,
                ).spec_handlers(self.event)[k] == self.handler && final(registry).spec_handlers(
                    self.event,
                ) == old(registry).spec_handlers(self.event).remove(k),
            !old(registry).spec_handlers(self.event).contains(self.handler) ==> *final(registry)
                == *old(registry),
            forall|e: Event|
                e != self.event ==> final(registry).spec_handlers(e) == old(
                    registry,
                ).spec_handlers(e),
            forall|e: Event|
                final(registry).spec_has_event(e) == old(registry).spec_has_event(e),
            final(registry).spec_event_count() == old(registry).spec_event_count(),
            final(registry).spec_next_id() == old(registry).spec_next_id(),
    {
        let r = registry.remove(self.event, self.handler);
        let _ = r;
    }

    /// Keeps the registration for the remaining lifetime of the registry: the
    /// handle is consumed without removing anything, and no handle for this
    /// registration exists afterwards.
    pub fn persist(self) {
    }
}

} // verus!
