use vstd::prelude::*;

verus! {

/// How a listener's wait ends.
#[derive(PartialEq, Eq, Structural, Clone, Copy, Debug)]
pub enum Outcome {
    /// The content changed: the listener should reload.
    Changed,
    /// The server is shutting down: the listener should close.
    Closed,
    /// The remote peer went away.
    PeerDisconnected,
}

/// The outcome of a wait when several of its causes are ready at once:
/// shutdown first, then a content change, then the peer's departure.
pub fn resolve(closed: bool, changed: bool, peer_gone: bool) -> (r: Option<Outcome>)
    ensures
        closed ==> r == Some(Outcome::Closed),
        !closed && changed ==> r == Some(Outcome::Changed),
        !closed && !changed && peer_gone ==> r == Some(Outcome::PeerDisconnected),
        !closed && !changed && !peer_gone ==> r is None,
{
    if closed {
        Some(Outcome::Closed)
    } else if changed {
        Some(Outcome::Changed)
    } else if peer_gone {
        Some(Outcome::PeerDisconnected)
    } else {
        None
    }
}

/// The registry as sets: the attached listeners, those of them waiting for a
/// change, the next id to hand out, how many are attached, and whether the
/// server has shut down.
pub struct RegistryView {
    pub attached: Set<u64>,
    pub waiting: Set<u64>,
    pub next_id: nat,
    pub count: nat,
    pub closed: bool,
}

/// The state after a new listener attached: it gets the next id.
pub open spec fn after_attach(v: RegistryView) -> RegistryView {
    RegistryView {
        attached: v.attached.insert(v.next_id as u64),
        next_id: v.next_id + 1,
        count: v.count + 1,
        ..v
    }
}

/// The state after the listener `id` released its registration.
pub open spec fn after_release(v: RegistryView, id: u64) -> RegistryView {
    RegistryView {
        attached: v.attached.remove(id),
        waiting: v.waiting.remove(id),
        count: if v.attached.contains(id) {
            (v.count - 1) as nat
        } else {
            v.count
        },
        ..v
    }
}

/// What a wait by `id` ends with at once: `Closed` after shutdown or for an id
/// that is not attached; otherwise nothing, and the listener is suspended.
pub open spec fn wait_outcome(v: RegistryView, id: u64) -> Option<Outcome> {
    if v.closed || !v.attached.contains(id) {
        Some(Outcome::Closed)
    } else {
        None
    }
}

/// The state after `id` began to wait.
pub open spec fn after_wait(v: RegistryView, id: u64) -> RegistryView {
    if wait_outcome(v, id) is Some {
        v
    } else {
        RegistryView { waiting: v.waiting.insert(id), ..v }
    }
}

/// The state after a change was broadcast: nobody is waiting any more.
pub open spec fn after_fire(v: RegistryView) -> RegistryView {
    RegistryView { waiting: Set::empty(), ..v }
}

/// The state after shutdown: closed, and nobody is waiting any more.
pub open spec fn after_shutdown(v: RegistryView) -> RegistryView {
    RegistryView { waiting: Set::empty(), closed: true, ..v }
}

/// The registry's invariant on its view: waiting listeners are attached, ids
/// are below the next one handed out, and nobody waits after shutdown.
pub open spec fn registry_ok(v: RegistryView) -> bool {
    &&& v.waiting.subset_of(v.attached)
    &&& forall|x: u64| v.attached.contains(x) ==> x < v.next_id
    &&& v.closed ==> v.waiting.is_empty()
}

/// A broadcast wakes exactly the listeners that wait when it fires (`fire`
/// hands back that set); a listener that attaches after it is not among them,
/// is not woken by it, and waits for the next broadcast instead.
pub proof fn lemma_late_listener_misses_broadcast(v: RegistryView)
    requires
        registry_ok(v),
        !v.closed,
        v.next_id < u64::MAX,
    ensures
        ({
            let fired = after_fire(v);
            let late = fired.next_id as u64;
            let joined = after_attach(fired);
            &&& !v.waiting.contains(late)
            &&& wait_outcome(joined, late) is None
            &&& after_wait(joined, late).waiting == set![late]
        }),
{
    let late = v.next_id as u64;
    let joined = after_attach(after_fire(v));
    assert(joined.attached.contains(late));
    assert(after_wait(joined, late).waiting =~= set![late]);
}

/// After shutdown nobody waits, and every later wait, by any listener,
/// attached before or after, ends at once with `Closed`.
pub proof fn lemma_shutdown_drains(v: RegistryView, id: u64)
    requires
        registry_ok(v),
    ensures
        after_shutdown(v).waiting.is_empty(),
        registry_ok(after_shutdown(v)),
        wait_outcome(after_shutdown(v), id) == Some(Outcome::Closed),
        after_wait(after_shutdown(v), id).waiting.is_empty(),
        after_shutdown(v).next_id < u64::MAX ==> wait_outcome(after_attach(after_shutdown(v)), id)
            == Some(Outcome::Closed),
{
}

/// The live-reload listeners and which of them wait for a change.
pub struct ListenerRegistry {
    attached: Vec<u64>,
    waiting: Vec<u64>,
    next_id: u64,
    closed: bool,
}

/// The ids a list holds.
pub open spec fn seq_set(s: Seq<u64>) -> Set<u64> {
    Set::new(|x: u64| s.contains(x))
}

impl View for ListenerRegistry {
    type V = RegistryView;

    closed spec fn view(&self) -> RegistryView {
        RegistryView {
            attached: seq_set(self.attached@),
            waiting: seq_set(self.waiting@),
            next_id: self.next_id as nat,
            count: self.attached@.len(),
            closed: self.closed,
        }
    }
}

/// Removes `id` from a list that holds each id once.
fn remove_id(v: &mut Vec<u64>, id: u64) -> (found: bool)
    requires
        old(v)@.no_duplicates(),
    ensures
        final(v)@.no_duplicates(),
        seq_set(final(v)@) == seq_set(old(v)@).remove(id),
        found == old(v)@.contains(id),
        final(v)@.len() == if found {
            old(v)@.len() - 1
        } else {
            old(v)@.len() as int
        },
{
    let mut i: usize = 0;
    while i < v.len()
        invariant
            i <= v@.len(),
            v@ == old(v)@,
            old(v)@.no_duplicates(),
            forall|j: int| 0 <= j < i ==> v@[j] != id,
        decreases v@.len() - i,
    {
        if v[i] == id {
            let ghost before = v@;
            let ghost ii = i as int;
            v.remove(i);
            proof {
                before.remove_ensures(ii);
                let r = before.remove(ii);
                assert(v@ == r);
                assert(before.no_duplicates());
                assert forall|a: int, b: int| 0 <= a < b < r.len() implies r[a] != r[b] by {
                    let a0 = if a < ii { a } else { a + 1 };
                    let b0 = if b < ii { b } else { b + 1 };
                    assert(r[a] == before[a0]);
                    assert(r[b] == before[b0]);
                    assert(a0 != b0);
                }
                assert forall|x: u64| seq_set(r).contains(x) <==> seq_set(before).remove(id).contains(x) by {
                    if r.contains(x) {
                        let k = choose|k: int| 0 <= k < r.len() && r[k] == x;
                        let k0 = if k < ii { k } else { k + 1 };
                        assert(before[k0] == x);
                        assert(k0 != ii);
                        assert(before[ii] == id);
                        assert(x != id);
                        assert(before.contains(x));
                    }
                    if before.contains(x) && x != id {
                        let k = choose|k: int| 0 <= k < before.len() && before[k] == x;
                        assert(k != ii);
                        if k < ii {
                            assert(r[k] == x);
                        } else {
                            assert(r[k - 1] == x);
                        }
                        assert(r.contains(x));
                    }
                }
                assert(seq_set(r) =~= seq_set(before).remove(id));
            }
            return true;
        }
        i = i + 1;
    }
    assert(seq_set(v@) =~= seq_set(old(v)@).remove(id));
    false
}

/// Whether `id` is in `v`.
fn has_id(v: &Vec<u64>, id: u64) -> (r: bool)
    ensures
        r == v@.contains(id),
{
    let mut i: usize = 0;
    while i < v.len()
        invariant
            i <= v@.len(),
            forall|j: int| 0 <= j < i ==> v@[j] != id,
        decreases v@.len() - i,
    {
        if v[i] == id {
            return true;
        }
        i = i + 1;
    }
    false
}

impl ListenerRegistry {
    /// The registry's invariant: each list holds an id once, every waiting
    /// listener is attached, ids below `next_id` only, and nobody waits once
    /// the server has shut down.
    pub closed spec fn wf(&self) -> bool {
        &&& self.attached@.no_duplicates()
        &&& self.waiting@.no_duplicates()
        &&& forall|x: u64| self.waiting@.contains(x) ==> self.attached@.contains(x)
        &&& forall|x: u64| self.attached@.contains(x) ==> x < self.next_id
        &&& self.closed ==> self.waiting@.len() == 0
    }

    /// The invariant seen from the view.
    pub proof fn lemma_view_ok(&self)
        requires
            self.wf(),
        ensures
            registry_ok(self@),
    {
        assert forall|x: u64| self@.waiting.contains(x) implies self@.attached.contains(x) by {
            assert(self.waiting@.contains(x));
        }
        if self.closed {
            assert(self@.waiting =~= Set::<u64>::empty()) by {
                assert forall|x: u64| !self.waiting@.contains(x) by {}
            }
        }
    }

    /// An empty registry.
    pub fn new() -> (r: ListenerRegistry)
        ensures
            r.wf(),
            r@.attached.is_empty(),
            r@.waiting.is_empty(),
            r@.next_id == 0,
            r@.count == 0,
            !r@.closed,
    {
        let r = ListenerRegistry { attached: Vec::new(), waiting: Vec::new(), next_id: 0, closed: false };
        assert(r@.attached =~= Set::<u64>::empty());
        assert(r@.waiting =~= Set::<u64>::empty());
        r
    }

    /// How many listeners are attached.
    pub fn count(&self) -> (r: usize)
        ensures
            r == self@.count,
    {
        self.attached.len()
    }

    /// Whether the server has shut down.
    pub fn is_closed(&self) -> (r: bool)
        ensures
            r == self@.closed,
    {
        self.closed
    }

    /// Attaches a new listener and returns its id; nothing, and no change, once
    /// every id has been handed out.
    pub fn attach(&mut self) -> (r: Option<u64>)
        requires
            old(self).wf(),
        ensures
            final(self).wf(),
            old(self)@.next_id < u64::MAX ==> r == Some(old(self)@.next_id as u64) && final(self)@
                == after_attach(old(self)@),
            old(self)@.next_id == u64::MAX ==> r is None && final(self)@ == old(self)@,
    {
        if self.next_id == u64::MAX {
            return None;
        }
        let id = self.next_id;
        assert(!self.attached@.contains(id));
        self.attached.push(id);
        self.next_id = id + 1;
        proof {
            let a = self.attached@;
            assert forall|i: int, j: int| 0 <= i < j < a.len() implies a[i] != a[j] by {
                if j == a.len() - 1 {
                    assert(old(self).attached@.contains(a[i]));
                }
                else {
                    assert(a[i] == old(self).attached@[i]);
                    assert(a[j] == old(self).attached@[j]);
                }
            }
            assert forall|x: u64| a.contains(x) implies x < self.next_id by {
                let k = choose|k: int| 0 <= k < a.len() && a[k] == x;
                if k < a.len() - 1 {
                    assert(old(self).attached@[k] == x);
                    assert(old(self).attached@.contains(x));
                } else {
                    assert(a[k] == id);
                    assert(x == id);
                    assert(self.next_id == id + 1);
                }
            }
            assert forall|x: u64| self.waiting@.contains(x) implies a.contains(x) by {
                let k = choose|k: int| 0 <= k < old(self).attached@.len() && old(self).attached@[k] == x;
                assert(a[k] == x);
            }
            assert(seq_set(a) =~= seq_set(old(self).attached@).insert(id)) by {
                assert(a[a.len() - 1] == id);
                assert forall|x: u64| a.contains(x) implies seq_set(old(self).attached@).insert(id).contains(x) by {
                    let k = choose|k: int| 0 <= k < a.len() && a[k] == x;
                    if k < a.len() - 1 {
                        assert(old(self).attached@[k] == x);
                    }
                }
                assert forall|x: u64| old(self).attached@.contains(x) implies a.contains(x) by {
                    let k = choose|k: int| 0 <= k < old(self).attached@.len() && old(self).attached@[k] == x;
                    assert(a[k] == x);
                }
            }
        }
        Some(id)
    }

    /// Releases the registration of `id`: it is no longer attached nor
    /// waiting, and the count drops by one if it was attached.
    pub fn release(&mut self, id: u64)
        requires
            old(self).wf(),
        ensures
            final(self).wf(),
            final(self)@ == after_release(old(self)@, id),
    {
        let was = remove_id(&mut self.attached, id);
        let _ = remove_id(&mut self.waiting, id);
        proof {
            assert forall|x: u64| self.waiting@.contains(x) implies self.attached@.contains(x) by {
                assert(seq_set(self.waiting@).contains(x));
                assert(seq_set(self.attached@).contains(x));
            }
            assert forall|x: u64| self.attached@.contains(x) implies x < self.next_id by {
                assert(seq_set(self.attached@).contains(x));
                assert(seq_set(old(self).attached@).contains(x));
            }
            if self.closed {
                assert(old(self).waiting@.len() == 0);
            }
        }
    }

    /// The listener `id` begins to wait for a change. After shutdown, or for
    /// an id that is not attached, the wait ends at once with `Closed`;
    /// otherwise the listener is suspended until a change or a shutdown.
    pub fn wait(&mut self, id: u64) -> (r: Option<Outcome>)
        requires
            old(self).wf(),
        ensures
            final(self).wf(),
            r == wait_outcome(old(self)@, id),
            final(self)@ == after_wait(old(self)@, id),
    {
        if self.closed || !has_id(&self.attached, id) {
            assert(!seq_set(self.attached@).contains(id) || self.closed);
            return Some(Outcome::Closed);
        }
        assert(seq_set(self.attached@).contains(id));
        if !has_id(&self.waiting, id) {
            self.waiting.push(id);
            proof {
                let w = self.waiting@;
                assert forall|i: int, j: int| 0 <= i < j < w.len() implies w[i] != w[j] by {
                    if j == w.len() - 1 {
                        assert(old(self).waiting@.contains(w[i]));
                    }
                    else {
                        assert(w[i] == old(self).waiting@[i]);
                        assert(w[j] == old(self).waiting@[j]);
                    }
                }
                assert forall|x: u64| w.contains(x) implies self.attached@.contains(x) by {
                    let k = choose|k: int| 0 <= k < w.len() && w[k] == x;
                    if k < w.len() - 1 {
                        assert(old(self).waiting@[k] == x);
                    }
                }
                assert(seq_set(w) =~= seq_set(old(self).waiting@).insert(id)) by {
                    assert(w[w.len() - 1] == id);
                    assert forall|x: u64| w.contains(x) implies seq_set(old(self).waiting@).insert(id).contains(x) by {
                        let k = choose|k: int| 0 <= k < w.len() && w[k] == x;
                        if k < w.len() - 1 {
                            assert(old(self).waiting@[k] == x);
                        }
                    }
                    assert forall|x: u64| old(self).waiting@.contains(x) implies w.contains(x) by {
                        let k = choose|k: int| 0 <= k < old(self).waiting@.len() && old(self).waiting@[k] == x;
                        assert(w[k] == x);
                    }
                }
            }
        } else {
            assert(seq_set(self.waiting@) =~= seq_set(self.waiting@).insert(id));
        }
        None
    }

    /// Broadcasts a change: returns the listeners waiting now, each once, who
    /// are to be woken with `Changed`; nobody waits afterwards.
    pub fn fire(&mut self) -> (r: Vec<u64>)
        requires
            old(self).wf(),
        ensures
            final(self).wf(),
            r@.no_duplicates(),
            seq_set(r@) == old(self)@.waiting,
            final(self)@ == after_fire(old(self)@),
    {
        let mut woken: Vec<u64> = Vec::new();
        std::mem::swap(&mut woken, &mut self.waiting);
        assert(seq_set(self.waiting@) =~= Set::<u64>::empty());
        woken
    }

    /// Shuts down: returns the listeners waiting now, each once, who are to
    /// be woken with `Closed`; every later wait ends at once with `Closed`.
    pub fn shutdown(&mut self) -> (r: Vec<u64>)
        requires
            old(self).wf(),
        ensures
            final(self).wf(),
            r@.no_duplicates(),
            seq_set(r@) == old(self)@.waiting,
            final(self)@ == after_shutdown(old(self)@),
    {
        let mut woken: Vec<u64> = Vec::new();
        std::mem::swap(&mut woken, &mut self.waiting);
        self.closed = true;
        assert(seq_set(self.waiting@) =~= Set::<u64>::empty());
        woken
    }
}

} // verus!
