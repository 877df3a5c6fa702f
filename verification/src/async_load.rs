//! A value loaded once by a background job: the bookkeeping of when to start
//! the job and when its result is in. The caller runs the job and polls its
//! channel; this type decides.
use vstd::prelude::*;
use std::rc::Rc;

verus! {

/// The state of a background load: whether a job is under way, and the
/// result once it has arrived.
pub struct AsyncLoad<T> {
    pending: bool,
    result: Option<Rc<T>>,
}

/// The abstract state of a load.
pub struct LoadView<T> {
    pub pending: bool,
    pub result: Option<T>,
}

/// What the caller has to do after an update.
pub enum LoadStep<T, P> {
    /// The result is in.
    Ready(Rc<T>),
    /// Start the job with these parameters; nothing is in yet.
    Spawn(P),
    /// The job is under way; nothing is in yet.
    Wait,
}

/// The kind of an update's answer, with the result it hands out.
pub enum StepKind<T> {
    Ready(T),
    Spawn,
    Wait,
}

impl<T> View for AsyncLoad<T> {
    type V = LoadView<T>;

    closed spec fn view(&self) -> LoadView<T> {
        LoadView {
            pending: self.pending,
            result: match self.result {
                Some(rc) => Some(*rc),
                None => None,
            },
        }
    }
}

pub open spec fn step_kind<T, P>(step: LoadStep<T, P>) -> StepKind<T> {
    match step {
        LoadStep::Ready(rc) => StepKind::Ready(*rc),
        LoadStep::Spawn(_) => StepKind::Spawn,
        LoadStep::Wait => StepKind::Wait,
    }
}

/// A job is never under way while a result is held.
pub open spec fn load_wf<T>(s: LoadView<T>) -> bool {
    !(s.pending && s.result is Some)
}

/// Looking for the result, given what the job's channel delivered (if a job
/// is under way): a held result is handed out again; a delivered one is kept
/// and ends the job.
pub open spec fn recv_spec<T>(s: LoadView<T>, received: Option<T>) -> (LoadView<T>, Option<T>) {
    if s.result is Some {
        (s, s.result)
    } else if !s.pending {
        (s, None)
    } else {
        match received {
            Some(v) => (LoadView { pending: false, result: Some(v) }, Some(v)),
            None => (s, None),
        }
    }
}

/// An update: the result if it is in; otherwise a job is started unless one
/// is under way.
pub open spec fn update_spec<T>(s: LoadView<T>, received: Option<T>) -> (LoadView<T>, StepKind<T>) {
    let (s1, got) = recv_spec(s, received);
    match got {
        Some(v) => (s1, StepKind::Ready(v)),
        None => if !s1.pending {
            (LoadView { pending: true, result: None }, StepKind::Spawn)
        } else {
            (s1, StepKind::Wait)
        },
    }
}

/// Hands out another reference to the shared result, as `Rc::clone` does.
#[verifier::external_body]
fn share<T>(rc: &Rc<T>) -> (res: Rc<T>)
    ensures
        *res == **rc,
{
    Rc::clone(rc)
}

impl<T> AsyncLoad<T> {
    #[verifier::type_invariant]
    closed spec fn inv(self) -> bool {
        !(self.pending && self.result is Some)
    }

    /// A load that has not started.
    pub fn new() -> (res: Self)
        ensures
            res@ == (LoadView::<T> { pending: false, result: None }),
    {
        AsyncLoad { pending: false, result: None }
    }

    /// Whether a job is under way (its channel should be polled and kept).
    pub fn is_pending(&self) -> (res: bool)
        ensures
            res == self@.pending,
    {
        self.pending
    }

    /// Looks for the result, given what the job's channel delivered.
    pub fn try_recv(&mut self, received: Option<T>) -> (res: Option<Rc<T>>)
        ensures
            final(self)@ == recv_spec(old(self)@, received).0,
            match res {
                Some(rc) => recv_spec(old(self)@, received).1 == Some(*rc),
                None => recv_spec(old(self)@, received).1 is None,
            },
            load_wf(final(self)@),
    {
        proof {
            use_type_invariant(&*self);
        }
        match &self.result {
            Some(cached) => {
                return Some(share(cached));
            },
            None => {},
        }
        if !self.pending {
            return None;
        }
        match received {
            Some(value) => {
                let rc = Rc::new(value);
                let out = share(&rc);
                self.pending = false;
                self.result = Some(rc);
                Some(out)
            },
            None => None,
        }
    }

    /// Drops any result and starts the job again; the caller starts it.
    pub fn reset(&mut self)
        ensures
            final(self)@ == (LoadView::<T> { pending: true, result: None }),
    {
        self.result = None;
        self.pending = true;
    }

    /// The result if it is in; otherwise asks for the job to be started with
    /// `params`, unless one is under way.
    pub fn update<P>(&mut self, params: P, received: Option<T>) -> (res: LoadStep<T, P>)
        ensures
            (final(self)@, step_kind(res)) == update_spec(old(self)@, received),
            res matches LoadStep::Spawn(p) ==> p == params,
            load_wf(final(self)@),
    {
        match self.try_recv(received) {
            Some(rc) => LoadStep::Ready(rc),
            None => {
                if !self.pending {
                    self.pending = true;
                    LoadStep::Spawn(params)
                } else {
                    LoadStep::Wait
                }
            },
        }
    }

    /// As `update`, for a caller that computes the parameters only when the
    /// job is to be started.
    pub fn update_lazy(&mut self, received: Option<T>) -> (res: LoadStep<T, ()>)
        ensures
            (final(self)@, step_kind(res)) == update_spec(old(self)@, received),
            load_wf(final(self)@),
    {
        self.update((), received)
    }
}

/// Once the result is in, every update hands out the same result, starts no
/// job and changes nothing.
pub proof fn lemma_result_is_kept<T>(s: LoadView<T>, v: T, received: Option<T>)
    requires
        s.result == Some(v),
    ensures
        update_spec(s, received) == (s, StepKind::Ready(v)),
{
}

/// A job is started only once: right after an update asked for one, an update
/// with nothing delivered waits.
pub proof fn lemma_spawn_once<T>(s: LoadView<T>, received: Option<T>)
    requires
        load_wf(s),
        update_spec(s, received).1 is Spawn,
    ensures
        update_spec(update_spec(s, received).0, None) == (
            update_spec(s, received).0,
            StepKind::<T>::Wait,
        ),
{
}

/// After a reset, the value the new job delivers is the one handed out, and
/// it is kept.
pub proof fn lemma_reset_then_delivery<T>(v: T)
    ensures
        update_spec(LoadView::<T> { pending: true, result: None }, Some(v)) == (
            LoadView { pending: false, result: Some(v) },
            StepKind::Ready(v),
        ),
{
}

/// The answers of a run of updates without reset, each given what the
/// channel delivered at that moment.
pub open spec fn update_run<T>(s: LoadView<T>, received: Seq<Option<T>>) -> Seq<StepKind<T>>
    decreases received.len(),
{
    if received.len() == 0 {
        Seq::empty()
    } else {
        let (s2, k) = update_spec(s, received[0]);
        seq![k] + update_run(s2, received.drop_first())
    }
}

proof fn lemma_run_len<T>(s: LoadView<T>, received: Seq<Option<T>>)
    ensures
        update_run(s, received).len() == received.len(),
    decreases received.len(),
{
    if received.len() > 0 {
        lemma_run_len(update_spec(s, received[0]).0, received.drop_first());
    }
}

/// How many answers ask for a job to be started.
pub open spec fn spawn_count<T>(steps: Seq<StepKind<T>>) -> nat
    decreases steps.len(),
{
    if steps.len() == 0 {
        0
    } else {
        (if steps[0] is Spawn { 1nat } else { 0nat }) + spawn_count(steps.drop_first())
    }
}

/// A run that starts from a held result answers with that result throughout.
pub proof fn lemma_run_keeps_result<T>(s: LoadView<T>, v: T, received: Seq<Option<T>>)
    requires
        s.result == Some(v),
    ensures
        forall|i: int| 0 <= i < received.len() ==> #[trigger] update_run(s, received)[i]
            == StepKind::Ready(v),
        update_run(s, received).len() == received.len(),
    decreases received.len(),
{
    if received.len() > 0 {
        lemma_result_is_kept(s, v, received[0]);
        lemma_run_keeps_result(s, v, received.drop_first());
        let rest = update_run(s, received.drop_first());
        assert(update_spec(s, received[0]).0 == s);
        assert forall|i: int| 0 <= i < received.len() implies #[trigger] update_run(
            s,
            received,
        )[i] == StepKind::Ready(v) by {
            if i > 0 {
                assert(update_run(s, received)[i] == rest[i - 1]);
            }
        }
    }
}

/// A run of updates without reset starts at most one job, and none when a
/// job is under way or a result is held already.
pub proof fn lemma_run_spawns_at_most_once<T>(s: LoadView<T>, received: Seq<Option<T>>)
    requires
        load_wf(s),
    ensures
        spawn_count(update_run(s, received)) <= (if !s.pending && s.result is None {
            1nat
        } else {
            0nat
        }),
    decreases received.len(),
{
    if received.len() > 0 {
        let (s2, k) = update_spec(s, received[0]);
        lemma_run_spawns_at_most_once(s2, received.drop_first());
        let steps = update_run(s, received);
        assert(steps[0] == k);
        assert(steps.drop_first() =~= update_run(s2, received.drop_first()));
    }
}

/// Once an update of a run hands out a result, every later update of the run
/// hands out that same result.
pub proof fn lemma_run_result_is_final<T>(s: LoadView<T>, received: Seq<Option<T>>, i: int, j: int, v: T)
    requires
        0 <= i < j < received.len(),
        update_run(s, received)[i] == StepKind::Ready(v),
    ensures
        update_run(s, received)[j] == StepKind::Ready(v),
    decreases received.len(),
{
    let (s2, k) = update_spec(s, received[0]);
    let rest = update_run(s2, received.drop_first());
    lemma_run_len(s2, received.drop_first());
    assert(update_run(s, received)[j] == rest[j - 1]);
    if i == 0 {
        assert(k == StepKind::Ready(v));
        assert(s2.result == Some(v));
        lemma_run_keeps_result(s2, v, received.drop_first());
    } else {
        assert(update_run(s, received)[i] == rest[i - 1]);
        lemma_run_result_is_final(s2, received.drop_first(), i - 1, j - 1, v);
    }
}

/// While a job is under way, the first value its channel delivers is handed
/// out by that update and by every later update of the run.
pub proof fn lemma_first_delivery_is_result<T>(
    s: LoadView<T>,
    received: Seq<Option<T>>,
    k: int,
    v: T,
)
    requires
        s.pending,
        s.result is None,
        0 <= k < received.len(),
        received[k] == Some(v),
        forall|j: int| 0 <= j < k ==> #[trigger] received[j] is None,
    ensures
        update_run(s, received)[k] == StepKind::Ready(v),
        forall|j: int| k < j < received.len() ==> #[trigger] update_run(s, received)[j]
            == StepKind::Ready(v),
    decreases k,
{
    let (s2, kind) = update_spec(s, received[0]);
    let rest = update_run(s2, received.drop_first());
    lemma_run_len(s2, received.drop_first());
    if k == 0 {
        assert(kind == StepKind::Ready(v));
        assert(update_run(s, received)[0] == kind);
        assert forall|j: int| k < j < received.len() implies #[trigger] update_run(s, received)[j]
            == StepKind::Ready(v) by {
            lemma_run_result_is_final(s, received, 0, j, v);
        }
    } else {
        assert(received[0] is None);
        assert(s2 == s);
        assert forall|j: int| 0 <= j < k - 1 implies #[trigger] received.drop_first()[j] is None by {
            assert(received.drop_first()[j] == received[j + 1]);
        }
        lemma_first_delivery_is_result(s2, received.drop_first(), k - 1, v);
        assert(update_run(s, received)[k] == rest[k - 1]);
        assert forall|j: int| k < j < received.len() implies #[trigger] update_run(s, received)[j]
            == StepKind::Ready(v) by {
            assert(update_run(s, received)[j] == rest[j - 1]);
        }
    }
}

} // verus!
