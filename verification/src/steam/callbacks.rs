//! Bookkeeping for registered Steam callbacks: every registration gets a fresh
//! id, its handle is kept under that id, and callbacks that are done queue
//! their id for removal, which `flush_pending` carries out.
use vstd::prelude::*;
use std::collections::HashMap;
use std::sync::mpsc::{Receiver, Sender};

verus! {

broadcast use vstd::std_specs::hash::group_hash_axioms;

/// The id of a registered callback.
pub type CallbackId = u64;

/// The receiving end of a channel, from `std::sync::mpsc`.
#[verifier::external_type_specification]
#[verifier::external_body]
#[verifier::reject_recursive_types(T)]
pub struct ExReceiver<T>(Receiver<T>);

/// The sending end of a channel, from `std::sync::mpsc`.
#[verifier::external_type_specification]
#[verifier::external_body]
#[verifier::reject_recursive_types(T)]
pub struct ExSender<T>(Sender<T>);

/// The registered callbacks: the next id to hand out, and the handle kept
/// under each id in use.
pub struct CallbackRegistry<H> {
    next: u64,
    handles: HashMap<u64, H>,
}

pub struct RegistryView<H> {
    pub next: u64,
    pub handles: Map<u64, H>,
}

impl<H> View for CallbackRegistry<H> {
    type V = RegistryView<H>;

    closed spec fn view(&self) -> RegistryView<H> {
        RegistryView { next: self.next, handles: self.handles@ }
    }
}

impl<H> CallbackRegistry<H> {
    /// No callbacks; ids start at 1.
    pub fn new() -> (res: Self)
        ensures
            res@.next == 1,
            res@.handles == Map::<u64, H>::empty(),
    {
        CallbackRegistry { next: 1, handles: HashMap::new() }
    }

    /// Keeps `handle` under `id`, replacing what was kept there.
    pub fn store(&mut self, id: CallbackId, handle: H)
        ensures
            final(self)@.next == old(self)@.next,
            final(self)@.handles == old(self)@.handles.insert(id, handle),
    {
        self.handles.insert(id, handle);
    }

    /// Whether a handle is kept under `id`.
    pub fn is_registered(&self, id: CallbackId) -> (res: bool)
        ensures
            res == self@.handles.contains_key(id),
    {
        self.handles.contains_key(&id)
    }
}

/// The counter after `n`: one more, wrapping to 0 after the largest `u64`.
pub open spec fn next_after(n: u64) -> u64 {
    if n == u64::MAX {
        0
    } else {
        (n + 1) as u64
    }
}

/// The ids `k` calls of `next_id` hand out, starting from counter `start`.
pub open spec fn ids_handed_out(start: u64, k: nat) -> Seq<u64>
    decreases k,
{
    if k == 0 {
        Seq::empty()
    } else {
        seq![start] + ids_handed_out(next_after(start), (k - 1) as nat)
    }
}

/// Hands out the next id; ids count up by one and wrap around after the
/// largest `u64`, as an atomic `fetch_add` does.
pub fn next_id<H>(registry: &mut CallbackRegistry<H>) -> (res: CallbackId)
    ensures
        res == old(registry)@.next,
        final(registry)@.next == next_after(old(registry)@.next),
        final(registry)@.handles == old(registry)@.handles,
{
    let id = registry.next;
    registry.next = registry.next.wrapping_add(1);
    id
}

/// Calls `Sender::send`. Sending fails only when the receiving end is gone,
/// which depends on the rest of the program, so nothing is stated.
#[verifier::external_body]
fn send_id(tx: &Sender<CallbackId>, id: CallbackId) {
    let _ = tx.send(id);
}

/// Collects what is waiting in the channel, through `Receiver::try_iter`.
/// What arrived depends on other threads, so nothing is stated of it.
#[verifier::external_body]
fn waiting_ids(rx: &Receiver<CallbackId>) -> (res: Vec<CallbackId>) {
    rx.try_iter().collect()
}

/// Queues `id` for removal at the next `flush_pending`.
pub fn queue_remove(tx: &Sender<CallbackId>, id: CallbackId) {
    send_id(tx, id);
}

proof fn lemma_insert_intersect(s: Set<u64>, d: Set<u64>, x: u64)
    requires
        s.finite(),
    ensures
        s.insert(x).intersect(d) == (if d.contains(x) && !s.contains(x) {
            s.intersect(d).insert(x)
        } else {
            s.intersect(d)
        }),
        s.intersect(d).finite(),
{
    broadcast use vstd::set::group_set_axioms;
    broadcast use vstd::set_lib::lemma_set_subset_finite;

    assert(s.intersect(d).subset_of(s));
    if d.contains(x) && !s.contains(x) {
        assert(s.insert(x).intersect(d) =~= s.intersect(d).insert(x));
    } else {
        assert(s.insert(x).intersect(d) =~= s.intersect(d));
    }
}

/// Removes the callbacks named by `ids`; returns how many were registered
/// (an id given twice counts once).
pub fn remove_ids<H>(registry: &mut CallbackRegistry<H>, ids: &Vec<CallbackId>) -> (res: usize)
    ensures
        final(registry)@.next == old(registry)@.next,
        final(registry)@.handles == old(registry)@.handles.remove_keys(ids@.to_set()),
        res == ids@.to_set().intersect(old(registry)@.handles.dom()).len(),
{
    broadcast use vstd::set::group_set_axioms;
    broadcast use vstd::seq_lib::seq_to_set_is_finite;

    let ghost d = old(registry)@.handles.dom();
    let ghost start = old(registry)@.handles;
    let mut count: usize = 0;
    assert(ids@.subrange(0, 0).to_set() =~= Set::<u64>::empty());
    assert(start.remove_keys(Set::<u64>::empty()) =~= start);
    assert(Set::<u64>::empty().intersect(d) =~= Set::<u64>::empty());
    for i in 0..ids.len()
        invariant
            d == start.dom(),
            registry@.next == old(registry)@.next,
            registry@.handles == start.remove_keys(ids@.subrange(0, i as int).to_set()),
            count == ids@.subrange(0, i as int).to_set().intersect(d).len(),
            count <= i,
    {
        let id = ids[i];
        let ghost prefix = ids@.subrange(0, i as int);
        assert(ids@.subrange(0, i + 1) =~= prefix.push(id));
        assert(prefix.push(id).to_set() =~= prefix.to_set().insert(id)) by {
            broadcast use vstd::seq_lib::group_seq_properties;
        }
        proof {
            lemma_insert_intersect(prefix.to_set(), d, id);
            vstd::set_lib::lemma_len_subset(prefix.to_set().intersect(d), prefix.to_set());
            prefix.lemma_cardinality_of_set();
        }
        let removed = registry.handles.remove(&id);
        assert(start.remove_keys(prefix.to_set()).remove(id) =~= start.remove_keys(
            prefix.to_set().insert(id),
        ));
        if removed.is_some() {
            count = count + 1;
        }
    }
    assert(ids@.subrange(0, ids.len() as int) =~= ids@);
    count
}

/// Removes every callback whose id was queued since the last flush; returns
/// how many of them were registered. Which ids were queued depends on the
/// other threads; whatever they were, the result is that of `remove_ids`.
pub fn flush_pending<H>(registry: &mut CallbackRegistry<H>, rx: &Receiver<CallbackId>) -> (res: usize)
    ensures
        final(registry)@.next == old(registry)@.next,
        exists|ids: Seq<u64>|
            final(registry)@.handles == old(registry)@.handles.remove_keys(#[trigger] ids.to_set())
                && res == ids.to_set().intersect(old(registry)@.handles.dom()).len(),
{
    let ids = waiting_ids(rx);
    let count = remove_ids(registry, &ids);
    assert(final(registry)@.handles == old(registry)@.handles.remove_keys(ids@.to_set()));
    count
}

/// Lets a callback through the first time only, so that a callback registered
/// to run once does not run again before its removal is flushed.
pub struct OnceGate {
    fired: bool,
}

impl OnceGate {
    /// A gate that has let nothing through.
    pub fn new() -> (res: Self)
        ensures
            !res.has_fired(),
    {
        OnceGate { fired: false }
    }

    /// True once a call went through.
    pub closed spec fn has_fired(&self) -> bool {
        self.fired
    }

    /// True the first time it is called, false every later time.
    pub fn fire(&mut self) -> (res: bool)
        ensures
            res == !old(self).has_fired(),
            final(self).has_fired(),
    {
        if self.fired {
            false
        } else {
            self.fired = true;
            true
        }
    }
}

/// A flush removes a queued callback whatever else was queued, and keeps
/// every callback that was not queued.
pub proof fn lemma_flush_effect<H>(handles: Map<u64, H>, ids: Seq<u64>, id: u64)
    ensures
        ids.contains(id) ==> !handles.remove_keys(ids.to_set()).contains_key(id),
        !ids.contains(id) && handles.contains_key(id) ==> handles.remove_keys(ids.to_set())[id]
            == handles[id],
{
}

proof fn lemma_ids_count_up(start: u64, k: nat)
    requires
        start + k <= u64::MAX + 1,
    ensures
        ids_handed_out(start, k).len() == k,
        forall|i: int| 0 <= i < k ==> #[trigger] ids_handed_out(start, k)[i] == start + i,
    decreases k,
{
    if k > 0 {
        lemma_ids_count_up(next_after(start), (k - 1) as nat);
        let rest = ids_handed_out(next_after(start), (k - 1) as nat);
        assert forall|i: int| 0 <= i < k implies #[trigger] ids_handed_out(start, k)[i] == start + i by {
            if i > 0 {
                assert(ids_handed_out(start, k)[i] == rest[i - 1]);
            }
        }
    }
}

/// From a new registry, as long as fewer than `u64::MAX` ids are handed out,
/// the ids are 1, 2, 3, ...: never 0, each larger than the one before, so no
/// two alike.
pub proof fn lemma_fresh_ids_distinct(k: nat)
    requires
        k < u64::MAX,
    ensures
        ids_handed_out(1, k).len() == k,
        forall|i: int| 0 <= i < k ==> #[trigger] ids_handed_out(1, k)[i] == i + 1,
        forall|i: int, j: int|
            0 <= i < j < k ==> ids_handed_out(1, k)[i] < ids_handed_out(1, k)[j],
        forall|i: int| 0 <= i < k ==> #[trigger] ids_handed_out(1, k)[i] != 0,
{
    lemma_ids_count_up(1, k);
}

} // verus!
