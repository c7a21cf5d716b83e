//! Index operations: skip, take and shuffle of the sample window, compiled
//! into the sampler before any source read.

use vstd::prelude::*;
use crate::text::owned;
use crate::vision::errors::{VisionError, error_text};

verus! {

#[derive(Clone, Copy, Debug, PartialEq, Eq, Structural)]
pub enum IndexOp {
    Skip { count: usize },
    Take { count: usize },
    /// Deterministically shuffle the selected index window with a seed.
    /// Skip/Take apply first, then the window is permuted, so a fixed
    /// `(seed, epoch)` always reproduces the same order regardless of
    /// worker count.
    Shuffle { seed: u64 },
}

pub open spec fn min(a: int, b: int) -> int {
    if a <= b {
        a
    } else {
        b
    }
}

/// The window `[start, end)` after one index operation.
pub open spec fn apply_range_spec(op: IndexOp, start: int, end: int) -> (int, int) {
    match op {
        IndexOp::Skip { count } => (min(start + count, end), end),
        IndexOp::Take { count } => (start, min(start + count, end)),
        IndexOp::Shuffle { .. } => (start, end),
    }
}

/// Take keeps at most `count` samples from the start of the window: the
/// start stays, the window is no longer than `count` nor than before, and
/// it is exactly `count` long unless fewer remained, in which case it keeps
/// all of them.
pub proof fn law_take_window(count: usize, start: int, end: int)
    requires
        start <= end,
    ensures
        ({
            let (s, e) = apply_range_spec(IndexOp::Take { count }, start, end);
            &&& s == start
            &&& s <= e <= end
            &&& e - s <= count
            &&& e - s == count || e == end
        }),
{
}

/// Skip drops at most `count` samples from the start of the window: the
/// end stays, the start moves forward by `count`, or to the end when fewer
/// remained.
pub proof fn law_skip_window(count: usize, start: int, end: int)
    requires
        start <= end,
    ensures
        ({
            let (s, e) = apply_range_spec(IndexOp::Skip { count }, start, end);
            &&& e == end
            &&& start <= s <= end
            &&& s - start <= count
            &&& s - start == count || s == end
        }),
{
}

impl IndexOp {
    /// Narrows the window `[start, end)`: skip moves the start forward,
    /// take moves the end back, shuffle leaves it.
    pub fn apply_range(&self, start: &mut usize, end: &mut usize)
        requires
            *old(start) <= *old(end),
        ensures
            (*final(start) as int, *final(end) as int) == apply_range_spec(
                *self,
                *old(start) as int,
                *old(end) as int,
            ),
            *final(start) <= *final(end),
            *self matches IndexOp::Take { count } ==> (*final(start) == *old(start)
                && *final(end) - *final(start) <= count
                && (*final(end) - *final(start) == count || *final(end) == *old(end))),
            *self matches IndexOp::Skip { count } ==> (*final(end) == *old(end)
                && *final(start) - *old(start) <= count
                && (*final(start) - *old(start) == count || *final(start) == *old(end))),
    {
        proof {
            match *self {
                IndexOp::Take { count } => law_take_window(count, *start as int, *end as int),
                IndexOp::Skip { count } => law_skip_window(count, *start as int, *end as int),
                IndexOp::Shuffle { .. } => {},
            }
        }
        match self {
            IndexOp::Skip { count } => {
                let gap = *end - *start;
                *start = if *count < gap {
                    *start + *count
                } else {
                    *end
                };
            },
            IndexOp::Take { count } => {
                let gap = *end - *start;
                *end = if *count < gap {
                    *start + *count
                } else {
                    *end
                };
            },
            IndexOp::Shuffle { .. } => {},
        }
    }
}

/// The window after the first `n` operations, starting from `[0, len)`.
pub open spec fn window_after(ops: Seq<IndexOp>, len: int, n: nat) -> (int, int)
    decreases n,
{
    if n == 0 || n > ops.len() {
        (0, len)
    } else {
        let w = window_after(ops, len, (n - 1) as nat);
        apply_range_spec(ops[n - 1], w.0, w.1)
    }
}

pub open spec fn shuffle_count(ops: Seq<IndexOp>, n: nat) -> nat
    decreases n,
{
    if n == 0 || n > ops.len() {
        0
    } else {
        shuffle_count(ops, (n - 1) as nat) + if ops[n - 1] is Shuffle {
            1nat
        } else {
            0nat
        }
    }
}

/// The index window a sampler reads and whether it is shuffled.
#[derive(Clone, Copy, Debug, PartialEq, Eq, Structural)]
pub struct SamplerWindow {
    pub start: usize,
    pub end: usize,
    pub shuffle_seed: Option<u64>,
}

/// Compiles index operations over a source of `len` samples into the
/// sampled window. At most one shuffle is accepted.
pub fn compile_sampler_window(len: usize, index_ops: &[IndexOp]) -> (r: Result<
    SamplerWindow,
    VisionError,
>)
    ensures
        r is Ok <==> shuffle_count(index_ops@, index_ops@.len()) <= 1,
        r matches Ok(w) ==> {
            &&& (w.start as int, w.end as int) == window_after(
                index_ops@,
                len as int,
                index_ops@.len(),
            )
            &&& w.shuffle_seed is Some <==> shuffle_count(index_ops@, index_ops@.len()) == 1
            &&& w.shuffle_seed matches Some(seed) ==> exists|i: int|
                0 <= i < index_ops@.len() && index_ops@[i] == (IndexOp::Shuffle { seed })
        },
        r matches Err(e) ==> e is InvalidPipeline && error_text(e)
            == "multiple shuffle ops are not supported; combine seeds outside the pipeline"@,
{
    let mut start: usize = 0;
    let mut end: usize = len;
    let mut shuffle_seed: Option<u64> = None;
    let mut i: usize = 0;
    while i < index_ops.len()
        invariant
            0 <= i <= index_ops@.len(),
            start <= end,
            (start as int, end as int) == window_after(index_ops@, len as int, i as nat),
            shuffle_count(index_ops@, i as nat) <= 1,
            shuffle_seed is Some <==> shuffle_count(index_ops@, i as nat) == 1,
            shuffle_seed matches Some(seed) ==> exists|k: int|
                0 <= k < i && index_ops@[k] == (IndexOp::Shuffle { seed }),
        decreases index_ops@.len() - i,
    {
        let op = index_ops[i];
        match op {
            IndexOp::Shuffle { seed } => {
                if shuffle_seed.is_some() {
                    proof {
                        reveal_strlit(
                            "multiple shuffle ops are not supported; combine seeds outside the pipeline",
                        );
                        lemma_count_grows(index_ops@, i as nat + 1, index_ops@.len());
                    }
                    return Err(
                        VisionError::InvalidPipeline(
                            owned(
                                "multiple shuffle ops are not supported; combine seeds outside the pipeline",
                            ),
                        ),
                    );
                }
                shuffle_seed = Some(seed);
            },
            _ => {
                op.apply_range(&mut start, &mut end);
            },
        }
        i += 1;
    }
    Ok(SamplerWindow { start, end, shuffle_seed })
}

proof fn lemma_count_grows(ops: Seq<IndexOp>, a: nat, b: nat)
    requires
        a <= b <= ops.len(),
    ensures
        shuffle_count(ops, a) <= shuffle_count(ops, b),
    decreases b - a,
{
    if a < b {
        lemma_count_grows(ops, a, (b - 1) as nat);
    }
}

/// Sample indices of a shuffled window: the window permutation `perm`
/// (entries below the window length) shifted to the window start.
pub fn offset_permutation(perm: Vec<usize>, window: SamplerWindow) -> (r: Vec<usize>)
    requires
        window.start <= window.end,
        forall|i: int| 0 <= i < perm@.len() ==> perm@[i] < window.end - window.start,
    ensures
        r@.len() == perm@.len(),
        forall|i: int| 0 <= i < r@.len() ==> #[trigger] r@[i] == perm@[i] + window.start,
        forall|i: int| 0 <= i < r@.len() ==> window.start <= #[trigger] r@[i] < window.end,
{
    let mut out = perm;
    let mut i: usize = 0;
    while i < out.len()
        invariant
            window.start <= window.end,
            out@.len() == perm@.len(),
            0 <= i <= out@.len(),
            forall|k: int| 0 <= k < i ==> out@[k] == perm@[k] + window.start,
            forall|k: int| i <= k < out@.len() ==> out@[k] == perm@[k],
            forall|k: int| 0 <= k < perm@.len() ==> perm@[k] < window.end - window.start,
        decreases out@.len() - i,
    {
        let shifted = out[i] + window.start;
        out.set(i, shifted);
        i += 1;
    }
    out
}

} // verus!
