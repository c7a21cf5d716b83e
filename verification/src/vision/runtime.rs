//! Runtime configuration and the ordered delivery of batches prepared by
//! sample workers.

use vstd::prelude::*;
use std::collections::BTreeMap;
use crate::text::{decimal, owned, push_decimal, push_decimal_u64, push_str};
use crate::vision::errors::{VisionError, error_text};

verus! {

/// Runtime-level execution configuration, separate from batch semantics.
#[derive(Clone, Copy, Debug, PartialEq, Eq, Structural)]
pub struct RuntimeConfig {
    /// `0` runs sample transforms on the persistent CPU stage thread; `> 0`
    /// uses that many inter-sample workers. Worker count never changes order.
    pub num_workers: usize,
    /// Number of *future* batches prepared ahead while the caller consumes
    /// one at a time; the current batch plus that many may be in flight.
    pub prefetch_batches: usize,
    /// Maximum retained payload bytes on each persistent stage-graph edge.
    pub stage_queue_max_bytes: usize,
}

impl Default for RuntimeConfig {
    fn default() -> (r: Self)
        ensures
            r == (RuntimeConfig {
                num_workers: 0,
                prefetch_batches: 2,
                stage_queue_max_bytes: 536870912,
            }),
    {
        RuntimeConfig { num_workers: 0, prefetch_batches: 2, stage_queue_max_bytes: 512 * 1024 * 1024 }
    }
}


broadcast use {vstd::laws_cmp::group_laws_cmp, vstd::std_specs::btree::group_btree_axioms};

/// Number of empty slots.
pub open spec fn empty_slots<T>(s: Seq<Option<T>>) -> nat
    decreases s.len(),
{
    if s.len() == 0 {
        0
    } else {
        empty_slots(s.drop_last()) + if s.last() is None {
            1nat
        } else {
            0nat
        }
    }
}

proof fn lemma_empty_slots_update<T>(s: Seq<Option<T>>, i: int, v: T)
    requires
        0 <= i < s.len(),
        s[i] is None,
    ensures
        empty_slots(s.update(i, Some(v))) + 1 == empty_slots(s),
    decreases s.len(),
{
    let t = s.update(i, Some(v));
    if i == s.len() - 1 {
        assert(t.drop_last() =~= s.drop_last());
    } else {
        assert(t.drop_last() =~= s.drop_last().update(i, Some(v)));
        lemma_empty_slots_update(s.drop_last(), i, v);
    }
}

proof fn lemma_no_empty_slots<T>(s: Seq<Option<T>>, i: int)
    requires
        empty_slots(s) == 0,
        0 <= i < s.len(),
    ensures
        s[i] is Some,
    decreases s.len(),
{
    if i < s.len() - 1 {
        assert(s.drop_last()[i] == s[i]);
        lemma_no_empty_slots(s.drop_last(), i);
    }
}

proof fn lemma_all_empty<T>(n: nat)
    ensures
        empty_slots(Seq::<Option<T>>::new(n, |i: int| None)) == n,
    decreases n,
{
    if n > 0 {
        assert(Seq::<Option<T>>::new(n, |i: int| None).drop_last() =~= Seq::<Option<T>>::new(
            (n - 1) as nat,
            |i: int| None,
        ));
        lemma_all_empty::<T>((n - 1) as nat);
    }
}

/// One in-flight logical batch being filled by workers.
pub struct PendingBatch<T> {
    pub samples: Vec<Option<T>>,
    pub remaining: usize,
}

/// Tracks submitted-but-not-yet-delivered batches so several batches can
/// run concurrently while delivery stays strictly in sampler order.
pub struct PrefetchCoordinator<T> {
    /// Maximum batches in flight (window control only).
    max_in_flight: usize,
    /// Sampler produced its last batch (or its tail was dropped).
    closed: bool,
    in_flight: usize,
    next_batch_id: u64,
    next_deliver_id: u64,
    pending: BTreeMap<u64, PendingBatch<T>>,
}


/// The error text of `record` for batch `batch_id` and slot `position`,
/// given the pending batches: an unknown batch, a slot past the batch's
/// end, or a slot already filled.
pub open spec fn record_error_text<T>(pending: Map<u64, Seq<Option<T>>>, batch_id: u64, position: usize) -> Seq<char> {
    if !pending.contains_key(batch_id) {
        "result for unknown batch "@ + decimal(batch_id as nat)
    } else if position >= pending[batch_id].len() {
        "invalid result position "@ + decimal(position as nat) + " for batch "@ + decimal(batch_id as nat)
    } else {
        "duplicate result for batch "@ + decimal(batch_id as nat) + " position "@ + decimal(position as nat)
    }
}

impl<T> PrefetchCoordinator<T> {
    pub closed spec fn spec_max_in_flight(&self) -> usize {
        self.max_in_flight
    }

    pub closed spec fn spec_closed(&self) -> bool {
        self.closed
    }

    pub fn max_in_flight(&self) -> (r: usize)
        ensures
            r == self.spec_max_in_flight(),
    {
        self.max_in_flight
    }

    pub fn is_closed(&self) -> (r: bool)
        ensures
            r == self.spec_closed(),
    {
        self.closed
    }

    /// Marks the sampler as exhausted.
    pub fn close(&mut self)
        requires
            old(self).wf(),
        ensures
            final(self).wf(),
            final(self).spec_closed(),
            final(self).spec_max_in_flight() == old(self).spec_max_in_flight(),
            final(self).spec_next_batch_id() == old(self).spec_next_batch_id(),
            final(self).spec_next_deliver_id() == old(self).spec_next_deliver_id(),
            final(self).spec_in_flight() == old(self).spec_in_flight(),
            final(self).spec_pending() == old(self).spec_pending(),
    {
        self.closed = true;
    }

    pub closed spec fn spec_next_batch_id(&self) -> u64 {
        self.next_batch_id
    }

    pub closed spec fn spec_next_deliver_id(&self) -> u64 {
        self.next_deliver_id
    }

    pub closed spec fn spec_in_flight(&self) -> usize {
        self.in_flight
    }

    /// Slots of every pending batch, by batch id.
    pub closed spec fn spec_pending(&self) -> Map<u64, Seq<Option<T>>> {
        Map::new(|id: u64| self.pending@.contains_key(id), |id: u64| self.pending@[id].samples@)
    }

    /// Submitted batches not yet delivered are exactly the pending ones,
    /// each counting its empty slots.
    pub closed spec fn wf(&self) -> bool {
        &&& self.next_deliver_id <= self.next_batch_id
        &&& self.in_flight == self.next_batch_id - self.next_deliver_id
        &&& forall|id: u64|
            #[trigger] self.pending@.contains_key(id) <==> self.next_deliver_id <= id
                < self.next_batch_id
        &&& forall|id: u64|
            #[trigger] self.pending@.contains_key(id) ==> self.pending@[id].remaining as nat
                == empty_slots(self.pending@[id].samples@)
    }

    pub fn new(max_in_flight: usize) -> (r: Self)
        ensures
            r.wf(),
            r.spec_max_in_flight() == max_in_flight,
            !r.spec_closed(),
            r.spec_next_batch_id() == 0,
            r.spec_next_deliver_id() == 0,
            r.spec_pending() == Map::<u64, Seq<Option<T>>>::empty(),
    {
        let r = PrefetchCoordinator {
            max_in_flight,
            closed: false,
            in_flight: 0,
            next_batch_id: 0,
            next_deliver_id: 0,
            pending: BTreeMap::new(),
        };
        assert(r.spec_pending() =~= Map::<u64, Seq<Option<T>>>::empty());
        r
    }

    /// Batches submitted and not yet delivered.
    pub fn in_flight(&self) -> (r: usize)
        ensures
            r == self.spec_in_flight(),
    {
        self.in_flight
    }

    /// Registers the next batch of `indices_len` samples, to be filled by
    /// workers, and returns its id. The source must have returned one
    /// sample per index.
    pub fn submit(&mut self, indices_len: usize, samples_len: usize) -> (r: Result<u64, VisionError>)
        requires
            old(self).wf(),
            old(self).spec_next_batch_id() < u64::MAX,
            old(self).spec_in_flight() < usize::MAX,
        ensures
            final(self).wf(),
            final(self).spec_max_in_flight() == old(self).spec_max_in_flight(),
            final(self).spec_closed() == old(self).spec_closed(),
            final(self).spec_next_deliver_id() == old(self).spec_next_deliver_id(),
            r is Ok <==> indices_len == samples_len,
            r matches Ok(id) ==> {
                &&& id == old(self).spec_next_batch_id()
                &&& final(self).spec_next_batch_id() == id + 1
                &&& final(self).spec_in_flight() == old(self).spec_in_flight() + 1
                &&& final(self).spec_pending() == old(self).spec_pending().insert(
                    id,
                    Seq::new(indices_len as nat, |i: int| None),
                )
            },
            r is Err ==> *final(self) == *old(self),
            r matches Err(e) ==> e is Worker,
    {
        if indices_len != samples_len {
            let mut message = owned("source returned ");
            push_decimal(&mut message, samples_len);
            push_str(&mut message, " samples for ");
            push_decimal(&mut message, indices_len);
            push_str(&mut message, " indices");
            return Err(VisionError::Worker(message));
        }
        let batch_id = self.next_batch_id;
        let mut samples: Vec<Option<T>> = Vec::new();
        let mut k: usize = 0;
        while k < indices_len
            invariant
                0 <= k <= indices_len,
                samples@ == Seq::<Option<T>>::new(k as nat, |i: int| None),
            decreases indices_len - k,
        {
            samples.push(None);
            assert(samples@ =~= Seq::<Option<T>>::new((k + 1) as nat, |i: int| None));
            k += 1;
        }
        proof {
            lemma_all_empty::<T>(indices_len as nat);
        }
        let ghost old_pending = self.pending@;
        self.pending.insert(batch_id, PendingBatch { samples, remaining: indices_len });
        self.next_batch_id = self.next_batch_id + 1;
        self.in_flight = self.in_flight + 1;
        assert(self.spec_pending() =~= old(self).spec_pending().insert(
            batch_id,
            Seq::new(indices_len as nat, |i: int| None),
        ));
        Ok(batch_id)
    }

    /// Records the sample a worker produced for slot `position` of batch
    /// `batch_id`; each slot of a pending batch is filled once.
    pub fn record(&mut self, batch_id: u64, position: usize, sample: T) -> (r: Result<(), VisionError>)
        requires
            old(self).wf(),
        ensures
            final(self).wf(),
            final(self).spec_max_in_flight() == old(self).spec_max_in_flight(),
            final(self).spec_closed() == old(self).spec_closed(),
            final(self).spec_next_batch_id() == old(self).spec_next_batch_id(),
            final(self).spec_next_deliver_id() == old(self).spec_next_deliver_id(),
            final(self).spec_in_flight() == old(self).spec_in_flight(),
            r is Ok <==> {
                &&& old(self).spec_pending().contains_key(batch_id)
                &&& position < old(self).spec_pending()[batch_id].len()
                &&& old(self).spec_pending()[batch_id][position as int] is None
            },
            r is Ok ==> final(self).spec_pending() == old(self).spec_pending().insert(
                batch_id,
                old(self).spec_pending()[batch_id].update(position as int, Some(sample)),
            ),
            r is Err ==> final(self).spec_pending() == old(self).spec_pending(),
            r matches Err(e) ==> e matches VisionError::Worker(m) && m@ == record_error_text(
                old(self).spec_pending(),
                batch_id,
                position,
            ),
    {
        proof {
            reveal_strlit("result for unknown batch ");
            reveal_strlit("invalid result position ");
            reveal_strlit(" for batch ");
            reveal_strlit("duplicate result for batch ");
            reveal_strlit(" position ");
        }
        let mut batch = match self.pending.remove(&batch_id) {
            Some(b) => b,
            None => {
                let mut message = owned("result for unknown batch ");
                push_decimal_u64(&mut message, batch_id);
                assert(message@ =~= record_error_text(old(self).spec_pending(), batch_id, position));
                return Err(VisionError::Worker(message));
            },
        };
        let ghost old_samples = batch.samples@;
        if position >= batch.samples.len() {
            let mut message = owned("invalid result position ");
            push_decimal(&mut message, position);
            push_str(&mut message, " for batch ");
            push_decimal_u64(&mut message, batch_id);
            self.pending.insert(batch_id, batch);
            assert(self.spec_pending() =~= old(self).spec_pending());
            assert(message@ =~= record_error_text(old(self).spec_pending(), batch_id, position));
            return Err(VisionError::Worker(message));
        }
        if batch.samples[position].is_some() {
            let mut message = owned("duplicate result for batch ");
            push_decimal_u64(&mut message, batch_id);
            push_str(&mut message, " position ");
            push_decimal(&mut message, position);
            self.pending.insert(batch_id, batch);
            assert(self.spec_pending() =~= old(self).spec_pending());
            assert(message@ =~= record_error_text(old(self).spec_pending(), batch_id, position));
            return Err(VisionError::Worker(message));
        }
        proof {
            lemma_empty_slots_update(old_samples, position as int, sample);
        }
        batch.samples.set(position, Some(sample));
        batch.remaining = batch.remaining - 1;
        self.pending.insert(batch_id, batch);
        assert(self.spec_pending() =~= old(self).spec_pending().insert(
            batch_id,
            old(self).spec_pending()[batch_id].update(position as int, Some(sample)),
        ));
        Ok(())
    }

    /// Delivers the next batch in submission order once all its samples
    /// are recorded: its samples in position order.
    pub fn deliver_ready(&mut self) -> (r: Result<Option<Vec<T>>, VisionError>)
        requires
            old(self).wf(),
        ensures
            final(self).wf(),
            r is Ok,
            final(self).spec_max_in_flight() == old(self).spec_max_in_flight(),
            final(self).spec_closed() == old(self).spec_closed(),
            final(self).spec_next_batch_id() == old(self).spec_next_batch_id(),
            ({
                let id = old(self).spec_next_deliver_id();
                let ready = old(self).spec_pending().contains_key(id) && empty_slots(
                    old(self).spec_pending()[id],
                ) == 0;
                &&& (r matches Ok(Some(_))) <==> ready
                &&& ready ==> (r matches Ok(Some(v)) && v@.len() == old(self).spec_pending()[id].len()
                    && (forall|i: int|
                    0 <= i < v@.len() ==> old(self).spec_pending()[id][i] == Some(#[trigger] v@[i]))
                    && final(self).spec_next_deliver_id() == id + 1 && final(self).spec_pending()
                    == old(self).spec_pending().remove(id) && final(self).spec_in_flight() + 1
                    == old(self).spec_in_flight())
                &&& !ready ==> *final(self) == *old(self)
            }),
    {
        let batch_id = self.next_deliver_id;
        let complete = match self.pending.get(&batch_id) {
            None => false,
            Some(batch) => batch.remaining == 0,
        };
        if !complete {
            return Ok(None);
        }
        let batch = self.pending.remove(&batch_id).unwrap();
        self.in_flight = self.in_flight - 1;
        self.next_deliver_id = self.next_deliver_id + 1;
        let ghost slots = batch.samples@;
        let mut out: Vec<T> = Vec::new();
        let mut rest = batch.samples;
        let n = rest.len();
        while rest.len() > 0
            invariant
                n == slots.len(),
                out@.len() + rest@.len() == n,
                rest@ == slots.subrange(out@.len() as int, n as int),
                empty_slots(slots) == 0,
                forall|i: int| 0 <= i < out@.len() ==> slots[i] == Some(#[trigger] out@[i]),
            decreases rest@.len(),
        {
            let k = out.len();
            proof {
                lemma_no_empty_slots(slots, k as int);
            }
            let slot = rest.remove(0);
            match slot {
                Some(sample) => out.push(sample),
                None => {},
            }
        }
        assert(self.spec_pending() =~= old(self).spec_pending().remove(batch_id));
        Ok(Some(out))
    }
}

/// What the loader does next.
#[derive(Clone, Copy, Debug, PartialEq, Eq, Structural)]
pub enum LoaderAction {
    /// Take the next indices from the sampler and submit them to workers.
    Submit,
    /// The sampler has no more batches: close the window.
    Close,
    /// Hand out the next batch, which is complete.
    Deliver,
    /// Nothing is in flight and the sampler is done.
    Finish,
    /// Wait for the next worker result.
    Wait,
}

/// The loader's decision: first top up the in-flight window while it has
/// room and the sampler is open (submitting, or closing once the sampler is
/// exhausted); then deliver the next batch when it is complete; then finish
/// once the window is closed and empty; else wait for a worker.
pub open spec fn next_action_spec(in_flight: nat, max_in_flight: nat, closed: bool, source_exhausted: bool, ready: bool) -> LoaderAction {
    if in_flight < max_in_flight && !closed {
        if source_exhausted {
            LoaderAction::Close
        } else {
            LoaderAction::Submit
        }
    } else if ready {
        LoaderAction::Deliver
    } else if closed && in_flight == 0 {
        LoaderAction::Finish
    } else {
        LoaderAction::Wait
    }
}

/// The next step of the loader on coordinator `c`; `source_exhausted` says
/// that the sampler yields no further batch and `ready` that the next batch
/// in order is complete.
pub fn next_action<T>(c: &PrefetchCoordinator<T>, source_exhausted: bool, ready: bool) -> (a: LoaderAction)
    ensures
        a == next_action_spec(
            c.spec_in_flight() as nat,
            c.spec_max_in_flight() as nat,
            c.spec_closed(),
            source_exhausted,
            ready,
        ),
{
    let in_flight = c.in_flight();
    let max_in_flight = c.max_in_flight();
    let closed = c.is_closed();
    if in_flight < max_in_flight && !closed {
        if source_exhausted {
            LoaderAction::Close
        } else {
            LoaderAction::Submit
        }
    } else if ready {
        LoaderAction::Deliver
    } else if closed && in_flight == 0 {
        LoaderAction::Finish
    } else {
        LoaderAction::Wait
    }
}

/// Following `next_action` keeps the window bounded: from a coordinator
/// with at most `max_in_flight` batches in flight, a submission made only
/// when `next_action` says `Submit` (adding at most one batch), or any other
/// step that adds none, leaves at most `max_in_flight` in flight.
pub proof fn law_window_bounded<T>(
    before: PrefetchCoordinator<T>,
    after: PrefetchCoordinator<T>,
    source_exhausted: bool,
    ready: bool,
)
    requires
        before.spec_in_flight() <= before.spec_max_in_flight(),
        after.spec_max_in_flight() == before.spec_max_in_flight(),
        if next_action_spec(
            before.spec_in_flight() as nat,
            before.spec_max_in_flight() as nat,
            before.spec_closed(),
            source_exhausted,
            ready,
        ) == LoaderAction::Submit {
            after.spec_in_flight() <= before.spec_in_flight() + 1
        } else {
            after.spec_in_flight() <= before.spec_in_flight()
        },
    ensures
        after.spec_in_flight() <= after.spec_max_in_flight(),
{
}

/// Whether the sampler batch `indices_len` long is delivered: with
/// `drop_last`, only full batches of `batch_size` are.
pub fn keep_batch(indices_len: usize, batch_size: usize, drop_last: bool) -> (r: bool)
    ensures
        r == !(drop_last && indices_len < batch_size),
{
    !(drop_last && indices_len < batch_size)
}

/// Capacity of the worker queue: a batch of samples per in-flight batch.
pub fn validate_worker_capacity(batch_size: usize, max_in_flight: usize) -> (r: Result<usize, VisionError>)
    ensures
        r is Ok <==> batch_size * max_in_flight <= usize::MAX,
        r matches Ok(c) ==> c == batch_size * max_in_flight,
        r matches Err(e) ==> e is InvalidArgument && error_text(e) == "worker queue capacity overflow"@,
{
    match batch_size.checked_mul(max_in_flight) {
        Some(c) => Ok(c),
        None => {
            proof {
                reveal_strlit("worker queue capacity overflow");
            }
            Err(VisionError::InvalidArgument(owned("worker queue capacity overflow")))
        },
    }
}


/// Slots after recording `records`, as `record` fills them one at a time:
/// each record sets the slot at its position to its sample.
pub open spec fn apply_records<T>(slots: Seq<Option<T>>, records: Seq<(int, T)>) -> Seq<Option<T>>
    decreases records.len(),
{
    if records.len() == 0 {
        slots
    } else {
        apply_records(slots, records.drop_last()).update(records.last().0, Some(records.last().1))
    }
}

pub open spec fn distinct_positions<T>(records: Seq<(int, T)>) -> bool {
    forall|i: int, j: int| 0 <= i < j < records.len() ==> records[i].0 != records[j].0
}

/// Workers may complete a batch's samples in any order: once records with
/// distinct positions are applied, each recorded position holds its own
/// sample and every other slot is as it was, whatever the order of the
/// records. Delivery then lists the samples in position order.
pub proof fn law_completion_order_irrelevant<T>(slots: Seq<Option<T>>, records: Seq<(int, T)>, p: int)
    requires
        distinct_positions(records),
        forall|i: int| 0 <= i < records.len() ==> 0 <= #[trigger] records[i].0 < slots.len(),
        0 <= p < slots.len(),
    ensures
        apply_records(slots, records).len() == slots.len(),
        forall|i: int|
            0 <= i < records.len() && #[trigger] records[i].0 == p ==> apply_records(slots, records)[p]
                == Some(records[i].1),
        (forall|i: int| 0 <= i < records.len() ==> #[trigger] records[i].0 != p) ==> apply_records(
            slots,
            records,
        )[p] == slots[p],
    decreases records.len(),
{
    if records.len() > 0 {
        let prefix = records.drop_last();
        assert forall|i: int, j: int| 0 <= i < j < prefix.len() implies prefix[i].0 != prefix[j].0 by {
            assert(prefix[i] == records[i] && prefix[j] == records[j]);
        }
        assert forall|i: int| 0 <= i < prefix.len() implies 0 <= #[trigger] prefix[i].0 < slots.len() by {
            assert(prefix[i] == records[i]);
        }
        law_completion_order_irrelevant(slots, prefix, p);
        let last = records.len() - 1;
        assert forall|i: int|
            0 <= i < records.len() && #[trigger] records[i].0 == p implies apply_records(slots, records)[p]
                == Some(records[i].1) by {
            if i < last {
                assert(prefix[i] == records[i]);
                assert(records[last].0 != p);
            }
        }
        if forall|i: int| 0 <= i < records.len() ==> #[trigger] records[i].0 != p {
            assert(records[last].0 != p);
            assert forall|i: int| 0 <= i < prefix.len() implies #[trigger] prefix[i].0 != p by {
                assert(prefix[i] == records[i]);
            }
        }
    }
}

} // verus!
