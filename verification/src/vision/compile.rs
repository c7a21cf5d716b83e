//! Compilation of an operation list into a sample stage, run per sample
//! (possibly on workers), and a batch stage, run on stacked batches.

use vstd::prelude::*;
use crate::text::{owned, push_str, str_equal};
use crate::properties::opt_view;
use crate::vision::errors::{VisionError, error_text};
use crate::vision::image_op::{
    BatchConfig, ExecutionKind, ImageOp, PipelineImageState, config_valid, execution_kind_spec, leaf_requirement, nested_valid,
    leaf_transition, name_spec, random_kind_spec, copy_op, double_decode_message, is_control,
    requirement_message,
};
use crate::vision::transforms::{DType, ImageAxisOrder, InterpolationMode};

verus! {

// ---------------------------------------------------------------------------
// Random keys
// ---------------------------------------------------------------------------

/// One level of a random-stream key: a stream kind and its occurrence.
#[derive(Clone, Copy, Debug)]
pub struct KeyPart {
    pub kind: &'static str,
    pub index: u32,
}

/// Hierarchical key of a random stream: the parts from the outermost
/// operation inwards.
#[derive(Debug)]
pub struct OpKey {
    pub parts: Vec<KeyPart>,
}

pub open spec fn part_view(p: KeyPart) -> (Seq<char>, u32) {
    (p.kind@, p.index)
}

impl View for OpKey {
    type V = Seq<(Seq<char>, u32)>;

    open spec fn view(&self) -> Seq<(Seq<char>, u32)> {
        self.parts@.map_values(|p: KeyPart| part_view(p))
    }
}

impl OpKey {
    pub fn from_parts(kind: &'static str, index: u32) -> (r: Self)
        ensures
            r@ == seq![(kind@, index)],
    {
        let mut parts: Vec<KeyPart> = Vec::new();
        parts.push(KeyPart { kind, index });
        let r = OpKey { parts };
        assert(r@ =~= seq![(kind@, index)]);
        r
    }

    /// The key of a stream nested under this one.
    pub fn derive(&self, local: &OpKey) -> (r: Self)
        ensures
            r@ == self@ + local@,
    {
        let mut parts: Vec<KeyPart> = Vec::new();
        let mut i: usize = 0;
        while i < self.parts.len()
            invariant
                0 <= i <= self.parts@.len(),
                parts@ == self.parts@.subrange(0, i as int),
            decreases self.parts@.len() - i,
        {
            parts.push(self.parts[i]);
            i += 1;
        }
        let mut j: usize = 0;
        while j < local.parts.len()
            invariant
                0 <= j <= local.parts@.len(),
                parts@ == self.parts@ + local.parts@.subrange(0, j as int),
            decreases local.parts@.len() - j,
        {
            parts.push(local.parts[j]);
            j += 1;
        }
        assert(local.parts@.subrange(0, j as int) =~= local.parts@);
        let r = OpKey { parts };
        assert(r@ =~= self@ + local@);
        r
    }
}

impl Clone for OpKey {
    fn clone(&self) -> (r: Self)
        ensures
            r@ == self@,
    {
        let mut parts: Vec<KeyPart> = Vec::new();
        let mut i: usize = 0;
        while i < self.parts.len()
            invariant
                0 <= i <= self.parts@.len(),
                parts@ == self.parts@.subrange(0, i as int),
            decreases self.parts@.len() - i,
        {
            parts.push(self.parts[i]);
            i += 1;
        }
        assert(parts@ =~= self.parts@);
        OpKey { parts }
    }
}

/// Occurrence counts of random-stream kinds within one scope.
pub struct RandomOccurrences {
    entries: Vec<KeyPart>,
}

impl View for RandomOccurrences {
    type V = Seq<(Seq<char>, u32)>;

    closed spec fn view(&self) -> Seq<(Seq<char>, u32)> {
        self.entries@.map_values(|p: KeyPart| part_view(p))
    }
}

/// The count recorded for `kind`: the last entry of that kind, zero when
/// there is none.
pub open spec fn count_of(entries: Seq<(Seq<char>, u32)>, kind: Seq<char>) -> u32
    decreases entries.len(),
{
    if entries.len() == 0 {
        0
    } else if entries.last().0 == kind {
        entries.last().1
    } else {
        count_of(entries.drop_last(), kind)
    }
}

/// `after` counts one more stream of `op`'s kind than `before`, if `op`
/// draws from a stream, and agrees with it on every other kind.
pub open spec fn bumped(before: Seq<(Seq<char>, u32)>, after: Seq<(Seq<char>, u32)>, op: ImageOp) -> bool {
    forall|k: Seq<char>|
        #[trigger] count_of(after, k) == if random_kind_spec(op) == Some(k) {
            count_of(before, k) + 1
        } else {
            count_of(before, k) as int
        }
}

proof fn lemma_count_update(e: Seq<(Seq<char>, u32)>, i: int, kind: Seq<char>, v: u32, k: Seq<char>)
    requires
        0 <= i < e.len(),
        e[i].0 == kind,
        forall|j: int| i < j < e.len() ==> e[j].0 != kind,
    ensures
        count_of(e.update(i, (kind, v)), k) == if k == kind {
            v
        } else {
            count_of(e, k)
        },
    decreases e.len(),
{
    let u = e.update(i, (kind, v));
    if i == e.len() - 1 {
        assert(u.drop_last() =~= e.drop_last());
    } else {
        assert(u.drop_last() =~= e.drop_last().update(i, (kind, v)));
        lemma_count_update(e.drop_last(), i, kind, v, k);
    }
}

proof fn lemma_count_absent(e: Seq<(Seq<char>, u32)>, kind: Seq<char>)
    requires
        forall|j: int| 0 <= j < e.len() ==> e[j].0 != kind,
    ensures
        count_of(e, kind) == 0,
    decreases e.len(),
{
    if e.len() > 0 {
        lemma_count_absent(e.drop_last(), kind);
    }
}

impl RandomOccurrences {
    pub fn new() -> (r: Self)
        ensures
            r@ == Seq::<(Seq<char>, u32)>::empty(),
    {
        let r = RandomOccurrences { entries: Vec::new() };
        assert(r@ =~= Seq::<(Seq<char>, u32)>::empty());
        r
    }

    /// The occurrence number of the next stream of `kind`, counting it.
    pub fn next(&mut self, kind: &'static str) -> (r: u32)
        requires
            count_of(old(self)@, kind@) < u32::MAX,
        ensures
            r == count_of(old(self)@, kind@),
            forall|k: Seq<char>|
                #[trigger] count_of(final(self)@, k) == if k == kind@ {
                    r + 1
                } else {
                    count_of(old(self)@, k) as int
                },
    {
        let ghost before = self@;
        let mut i: usize = self.entries.len();
        while i > 0
            invariant
                0 <= i <= self.entries@.len(),
                self@ == before,
                old(self)@ == before,
                count_of(before, kind@) < u32::MAX,
                forall|j: int| i <= j < self.entries@.len() ==> self.entries@[j].kind@ != kind@,
            decreases i,
        {
            if str_equal(self.entries[i - 1].kind, kind) {
                let current = self.entries[i - 1].index;
                proof {
                    assert(before[i - 1].0 == kind@);
                    lemma_count_update(before, i - 1, kind@, current, kind@);
                    assert(before.update(i - 1, (kind@, current)) =~= before);
                }
                let kind_here = self.entries[i - 1].kind;
                self.entries.set(i - 1, KeyPart { kind: kind_here, index: current + 1 });
                proof {
                    assert(self@ =~= before.update(i - 1, (kind@, (current + 1) as u32)));
                    assert forall|k: Seq<char>| #[trigger] count_of(self@, k) == if k == kind@ {
                        current + 1
                    } else {
                        count_of(before, k) as int
                    } by {
                        lemma_count_update(before, i - 1, kind@, (current + 1) as u32, k);
                    }
                }
                return current;
            }
            i -= 1;
        }
        proof {
            lemma_count_absent(before, kind@);
        }
        self.entries.push(KeyPart { kind, index: 1 });
        proof {
            assert(self@ =~= before.push((kind@, 1u32)));
            assert(self@.drop_last() =~= before);
        }
        0
    }
}

/// View of an optional parent key: the empty key when absent.
pub open spec fn opt_key_view(k: Option<OpKey>) -> Seq<(Seq<char>, u32)> {
    match k {
        Some(key) => key@,
        None => Seq::empty(),
    }
}

/// The key a stochastic operation receives under `parent` when `m` holds
/// the counts of its scope; `None` for deterministic operations.
pub open spec fn assigned_key(
    op: ImageOp,
    parent: Seq<(Seq<char>, u32)>,
    m: Seq<(Seq<char>, u32)>,
) -> Option<Seq<(Seq<char>, u32)>> {
    match random_kind_spec(op) {
        Some(k) => Some(parent + seq![(k, count_of(m, k))]),
        None => None,
    }
}

/// Number of operations among the first `n` of `ops` that draw from
/// streams of `kind`.
pub open spec fn kind_count(ops: Seq<ImageOp>, kind: Seq<char>, n: nat) -> nat
    decreases n,
{
    if n == 0 || n > ops.len() {
        0
    } else {
        kind_count(ops, kind, (n - 1) as nat) + if random_kind_spec(ops[n - 1]) == Some(kind) {
            1nat
        } else {
            0nat
        }
    }
}

/// The key of the `i`-th operation of a scope under `parent`: its kind and
/// the number of earlier operations of that kind in the scope.
pub open spec fn key_in_scope(ops: Seq<ImageOp>, i: int, parent: Seq<(Seq<char>, u32)>) -> Option<
    Seq<(Seq<char>, u32)>,
> {
    match random_kind_spec(ops[i]) {
        Some(k) => Some(parent + seq![(k, kind_count(ops, k, i as nat) as u32)]),
        None => None,
    }
}

pub proof fn lemma_kind_count_bound(ops: Seq<ImageOp>, kind: Seq<char>, n: nat)
    ensures
        kind_count(ops, kind, n) <= n,
    decreases n,
{
    if n > 0 && n <= ops.len() {
        lemma_kind_count_bound(ops, kind, (n - 1) as nat);
    }
}

// ---------------------------------------------------------------------------
// Compiled kernels
// ---------------------------------------------------------------------------

/// A normalization with its input layout fixed at compile time.
#[derive(Debug)]
pub struct CompiledNormalize {
    /// Per-channel mean, `f32` bits.
    pub mean_bits: Vec<u32>,
    /// Per-channel standard deviation, `f32` bits.
    pub std_bits: Vec<u32>,
    pub input_layout: ImageAxisOrder,
}

#[derive(Debug)]
pub enum SampleKernel {
    Semantic(ImageOp),
    SampleNormalize(CompiledNormalize),
    /// Probability as `f64` bits.
    RandomApply { probability_bits: u64, key: OpKey, body: CompiledProgram },
    RandomChoice { key: OpKey, branches: Vec<CompiledProgram> },
    RandomOrder { key: OpKey, ops: Vec<CompiledSampleOp> },
}

#[derive(Debug)]
pub enum BatchKernel {
    Normalize(CompiledNormalize),
    NormalizeToChw(CompiledNormalize),
    NormalizeToChwWithCudaAugmentations {
        normalize: CompiledNormalize,
        augmentations: Vec<CompiledSampleOp>,
    },
    ConvertImageDtype { dtype: DType, input_layout: ImageAxisOrder },
    Layout { axis_order: ImageAxisOrder, input_layout: ImageAxisOrder },
}

#[derive(Debug)]
pub struct CompiledSampleOp {
    pub kernel: SampleKernel,
    pub random_key: Option<OpKey>,
    pub input_state: PipelineImageState,
}

#[derive(Debug)]
pub struct CompiledProgram {
    pub ops: Vec<CompiledSampleOp>,
}

pub open spec fn sample_kernel_name(k: SampleKernel) -> Seq<char> {
    match k {
        SampleKernel::Semantic(op) => name_spec(op),
        SampleKernel::SampleNormalize(_) => "NormalizeSample"@,
        SampleKernel::RandomApply { .. } => "RandomApply"@,
        SampleKernel::RandomChoice { .. } => "RandomChoice"@,
        SampleKernel::RandomOrder { .. } => "RandomOrder"@,
    }
}

pub open spec fn batch_kernel_name(k: BatchKernel) -> Seq<char> {
    match k {
        BatchKernel::Normalize(_) => "Normalize"@,
        BatchKernel::NormalizeToChw(_) => "NormalizeToChw"@,
        BatchKernel::NormalizeToChwWithCudaAugmentations { .. } => "VisionAugmentNormalizeToChw"@,
        BatchKernel::ConvertImageDtype { .. } => "ConvertImageDtype"@,
        BatchKernel::Layout { .. } => "Layout"@,
    }
}

/// State transition of a batch kernel; `None` when the input is refused.
pub open spec fn batch_transition(k: BatchKernel, s: PipelineImageState) -> Option<PipelineImageState> {
    match k {
        BatchKernel::Normalize(n) => leaf_transition(
            ImageOp::Normalize { mean_bits: n.mean_bits, std_bits: n.std_bits },
            s,
        ),
        BatchKernel::ConvertImageDtype { dtype, .. } => leaf_transition(
            ImageOp::ConvertImageDtype { dtype },
            s,
        ),
        BatchKernel::Layout { axis_order, .. } => leaf_transition(ImageOp::Layout { axis_order }, s),
        _ => if s == (PipelineImageState::Decoded { dtype: DType::U8, axis_order: ImageAxisOrder::Hwc }) {
            Some(PipelineImageState::Decoded { dtype: DType::F32, axis_order: ImageAxisOrder::Chw })
        } else {
            None
        },
    }
}

impl CompiledSampleOp {
    pub fn execution_kind(&self) -> (r: ExecutionKind)
        ensures
            r == ExecutionKind::Sample,
    {
        ExecutionKind::Sample
    }

    pub fn name(&self) -> (r: &'static str)
        ensures
            r@ == sample_kernel_name(self.kernel),
    {
        proof {
            reveal_strlit("NormalizeSample");
            reveal_strlit("RandomApply");
            reveal_strlit("RandomChoice");
            reveal_strlit("RandomOrder");
        }
        match &self.kernel {
            SampleKernel::Semantic(op) => op.name(),
            SampleKernel::SampleNormalize(_) => "NormalizeSample",
            SampleKernel::RandomApply { .. } => "RandomApply",
            SampleKernel::RandomChoice { .. } => "RandomChoice",
            SampleKernel::RandomOrder { .. } => "RandomOrder",
        }
    }
}

impl BatchKernel {
    pub fn execution_kind(&self) -> (r: ExecutionKind)
        ensures
            r == ExecutionKind::Batch,
    {
        ExecutionKind::Batch
    }

    pub fn name(&self) -> (r: &'static str)
        ensures
            r@ == batch_kernel_name(*self),
    {
        proof {
            reveal_strlit("Normalize");
            reveal_strlit("NormalizeToChw");
            reveal_strlit("VisionAugmentNormalizeToChw");
            reveal_strlit("ConvertImageDtype");
            reveal_strlit("Layout");
        }
        match self {
            BatchKernel::Normalize(_) => "Normalize",
            BatchKernel::NormalizeToChw(_) => "NormalizeToChw",
            BatchKernel::NormalizeToChwWithCudaAugmentations { .. } => "VisionAugmentNormalizeToChw",
            BatchKernel::ConvertImageDtype { .. } => "ConvertImageDtype",
            BatchKernel::Layout { .. } => "Layout",
        }
    }

    pub fn transition(&self, input: PipelineImageState) -> (r: Result<PipelineImageState, VisionError>)
        ensures
            r is Ok <==> batch_transition(*self, input) is Some,
            r matches Ok(s) ==> batch_transition(*self, input) == Some(s),
            r matches Err(e) ==> e is InvalidPipeline,
    {
        match self {
            BatchKernel::Normalize(n) => {
                let op = ImageOp::Normalize { mean_bits: copy_words(&n.mean_bits), std_bits: copy_words(&n.std_bits) };
                let r = op.transition(input);
                proof {
                    let orig = ImageOp::Normalize { mean_bits: n.mean_bits, std_bits: n.std_bits };
                    assert(leaf_requirement(op) == leaf_requirement(orig));
                    assert(leaf_transition(op, input) == leaf_transition(orig, input));
                }
                r
            },
            BatchKernel::ConvertImageDtype { dtype, .. } => ImageOp::ConvertImageDtype { dtype: *dtype }.transition(input),
            BatchKernel::Layout { axis_order, .. } => ImageOp::Layout { axis_order: *axis_order }.transition(input),
            _ => match input {
                PipelineImageState::Decoded { dtype: DType::U8, axis_order: ImageAxisOrder::Hwc } => Ok(
                    PipelineImageState::Decoded { dtype: DType::F32, axis_order: ImageAxisOrder::Chw },
                ),
                _ => {
                    proof {
                        reveal_strlit("NormalizeToChw requires U8 HWC input");
                    }
                    Err(VisionError::InvalidPipeline(owned("NormalizeToChw requires U8 HWC input")))
                },
            },
        }
    }
}

/// `a` and `b` hold kernels of the same kinds, from the same input states
/// and under the same stream keys, position by position.
pub open spec fn same_kernels(a: Seq<CompiledSampleOp>, b: Seq<CompiledSampleOp>) -> bool {
    &&& a.len() == b.len()
    &&& forall|k: int|
        0 <= k < a.len() ==> {
            &&& sample_kernel_name((#[trigger] a[k]).kernel) == sample_kernel_name(b[k].kernel)
            &&& a[k].input_state == b[k].input_state
            &&& opt_view(a[k].random_key) == opt_view(b[k].random_key)
        }
}

/// A copy of a list of compiled sample kernels, nested programs included.
pub fn copy_compiled_ops(ops: &Vec<CompiledSampleOp>) -> (r: Vec<CompiledSampleOp>)
    ensures
        same_kernels(r@, ops@),
    decreases ops@, 2int,
{
    let mut out: Vec<CompiledSampleOp> = Vec::new();
    let mut i: usize = 0;
    while i < ops.len()
        invariant
            0 <= i <= ops@.len(),
            same_kernels(out@, ops@.subrange(0, i as int)),
        decreases ops@.len() - i,
    {
        proof {
            assert(decreases_to!(ops@ => ops@[i as int]));
        }
        let c = copy_compiled_op(&ops[i]);
        let ghost before = out@;
        out.push(c);
        proof {
            assert forall|k: int| 0 <= k < out@.len() implies {
                &&& sample_kernel_name((#[trigger] out@[k]).kernel) == sample_kernel_name(ops@.subrange(0, i + 1)[k].kernel)
                &&& out@[k].input_state == ops@.subrange(0, i + 1)[k].input_state
                &&& opt_view(out@[k].random_key) == opt_view(ops@.subrange(0, i + 1)[k].random_key)
            } by {
                if k < i {
                    assert(out@[k] == before[k]);
                    assert(ops@.subrange(0, i as int)[k] == ops@.subrange(0, i + 1)[k]);
                }
            }
        }
        i += 1;
    }
    assert(ops@.subrange(0, ops@.len() as int) =~= ops@);
    out
}

/// A copy of a compiled sample kernel, nested programs included.
#[verifier::loop_isolation(false)]
pub fn copy_compiled_op(c: &CompiledSampleOp) -> (r: CompiledSampleOp)
    ensures
        sample_kernel_name(r.kernel) == sample_kernel_name(c.kernel),
        r.input_state == c.input_state,
        opt_view(r.random_key) == opt_view(c.random_key),
    decreases *c, 1int,
{
    let kernel = match &c.kernel {
        SampleKernel::Semantic(op) => SampleKernel::Semantic(copy_op(op)),
        SampleKernel::SampleNormalize(n) => SampleKernel::SampleNormalize(
            CompiledNormalize {
                mean_bits: copy_words(&n.mean_bits),
                std_bits: copy_words(&n.std_bits),
                input_layout: n.input_layout,
            },
        ),
        SampleKernel::RandomApply { probability_bits, key, body } => SampleKernel::RandomApply {
            probability_bits: *probability_bits,
            key: key.clone(),
            body: CompiledProgram { ops: copy_compiled_ops(&body.ops) },
        },
        SampleKernel::RandomChoice { key, branches } => {
            let mut out: Vec<CompiledProgram> = Vec::new();
            let mut i: usize = 0;
            while i < branches.len()
                invariant
                    0 <= i <= branches@.len(),
                decreases branches@.len() - i,
            {
                proof {
                    assert(decreases_to!(branches@ => branches@[i as int]));
                    assert(decreases_to!(branches@[i as int] => branches@[i as int].ops));
                }
                out.push(CompiledProgram { ops: copy_compiled_ops(&branches[i].ops) });
                i += 1;
            }
            SampleKernel::RandomChoice { key: key.clone(), branches: out }
        },
        SampleKernel::RandomOrder { key, ops } => SampleKernel::RandomOrder {
            key: key.clone(),
            ops: copy_compiled_ops(ops),
        },
    };
    let random_key = match &c.random_key {
        Some(k) => Some(k.clone()),
        None => None,
    };
    CompiledSampleOp { kernel, random_key, input_state: c.input_state }
}

fn copy_words(v: &Vec<u32>) -> (r: Vec<u32>)
    ensures
        r@ == v@,
{
    let mut out: Vec<u32> = Vec::new();
    let mut i: usize = 0;
    while i < v.len()
        invariant
            0 <= i <= v@.len(),
            out@ == v@.subrange(0, i as int),
        decreases v@.len() - i,
    {
        out.push(v[i]);
        i += 1;
    }
    assert(out@ =~= v@);
    out
}

// ---------------------------------------------------------------------------
// Sample-stage compilation
// ---------------------------------------------------------------------------

/// Every nested sequence of `op` has at most `u32::MAX` entries, so that
/// per-scope stream counters and branch indices fit in `u32`.
pub open spec fn op_fits(op: ImageOp) -> bool
    decreases op,
{
    match op {
        ImageOp::RandomApply { ops, .. } => seq_fits(ops@),
        ImageOp::RandomChoice { choices } => choices@.len() <= u32::MAX && forall|j: int|
            0 <= j < choices@.len() ==> seq_fits(#[trigger] choices@[j]@),
        ImageOp::RandomOrder { ops } => seq_fits(ops@),
        _ => true,
    }
}

pub open spec fn seq_fits(ops: Seq<ImageOp>) -> bool
    decreases ops,
{
    ops.len() <= u32::MAX && forall|j: int| 0 <= j < ops.len() ==> op_fits(#[trigger] ops[j])
}

/// Output state of compiling `op` as a sample-stage operation on input
/// `s`; `None` when compilation fails. Control operations compose their
/// nested sequences: a random application and every operation of a random
/// order must keep the state, and all branches of a random choice must
/// end in the same state.
pub open spec fn sample_out(op: ImageOp, s: PipelineImageState) -> Option<PipelineImageState>
    decreases op, 1int,
{
    if !config_valid(op) || execution_kind_spec(op) != ExecutionKind::Sample {
        None
    } else {
        match op {
            ImageOp::RandomApply { ops, .. } => if program_out(ops@, s, ops@.len()) == Some(s) {
                Some(s)
            } else {
                None
            },
            ImageOp::RandomChoice { choices } => choice_out(choices@, s, choices@.len()),
            ImageOp::RandomOrder { ops } => if order_keeps(ops@, s, ops@.len()) {
                Some(s)
            } else {
                None
            },
            _ => leaf_transition(op, s),
        }
    }
}

/// State after compiling the first `n` operations of a sequence from `s`.
pub open spec fn program_out(ops: Seq<ImageOp>, s: PipelineImageState, n: nat) -> Option<PipelineImageState>
    decreases ops, n as int,
{
    if n == 0 || n > ops.len() {
        Some(s)
    } else {
        match program_out(ops, s, (n - 1) as nat) {
            None => None,
            Some(t) => sample_out(ops[n - 1], t),
        }
    }
}

/// Common output state of the first `n` branches, each compiled from `s`.
pub open spec fn choice_out(choices: Seq<Vec<ImageOp>>, s: PipelineImageState, n: nat) -> Option<PipelineImageState>
    decreases choices, n as int,
{
    if n == 0 || n > choices.len() {
        None
    } else if n == 1 {
        program_out(choices[0]@, s, choices[0]@.len())
    } else {
        match (choice_out(choices, s, (n - 1) as nat), program_out(choices[n - 1]@, s, choices[n - 1]@.len())) {
            (Some(a), Some(b)) => if a == b {
                Some(a)
            } else {
                None
            },
            _ => None,
        }
    }
}

/// Each of the first `n` operations compiles from `s` back to `s`.
pub open spec fn order_keeps(ops: Seq<ImageOp>, s: PipelineImageState, n: nat) -> bool
    decreases ops, n as int,
{
    if n == 0 || n > ops.len() {
        true
    } else {
        order_keeps(ops, s, (n - 1) as nat) && sample_out(ops[n - 1], s) == Some(s)
    }
}

/// `c` is the compilation of `op` from input state `s` under stream key
/// `key`: leaves keep their operation and key; control operations carry
/// their key and the compilation of their nested sequences.
pub open spec fn compiled_op_ok(
    c: CompiledSampleOp,
    op: ImageOp,
    s: PipelineImageState,
    key: Option<Seq<(Seq<char>, u32)>>,
) -> bool
    decreases op, 1int,
{
    &&& c.input_state == s
    &&& match op {
        ImageOp::RandomApply { probability_bits, ops } => c.random_key is None && match c.kernel {
            SampleKernel::RandomApply { probability_bits: p, key: k, body } => p == probability_bits
                && key == Some(k@) && program_ok(body.ops@, ops@, s, k@),
            _ => false,
        },
        ImageOp::RandomChoice { choices } => c.random_key is None && match c.kernel {
            SampleKernel::RandomChoice { key: k, branches } => key == Some(k@) && choices_ok(
                branches@,
                choices@,
                s,
                k@,
            ),
            _ => false,
        },
        ImageOp::RandomOrder { ops } => c.random_key is None && match c.kernel {
            SampleKernel::RandomOrder { key: k, ops: compiled } => key == Some(k@) && order_ok(
                compiled@,
                ops@,
                s,
                k@,
            ),
            _ => false,
        },
        _ => c.kernel == SampleKernel::Semantic(op) && opt_view(c.random_key) == key,
    }
}

/// `compiled` is the compilation of the sequence `ops` from `s`, each
/// operation from the state its predecessors leave and keyed in the
/// sequence's own scope under `parent`.
pub open spec fn program_ok(
    compiled: Seq<CompiledSampleOp>,
    ops: Seq<ImageOp>,
    s: PipelineImageState,
    parent: Seq<(Seq<char>, u32)>,
) -> bool
    decreases ops, 0int,
{
    &&& compiled.len() == ops.len()
    &&& forall|j: int|
        0 <= j < ops.len() ==> compiled_op_ok(
            #[trigger] compiled[j],
            ops[j],
            program_out(ops, s, j as nat).unwrap(),
            key_in_scope(ops, j, parent),
        )
}

/// The branch key of branch `j` of a random choice keyed `parent`.
pub open spec fn branch_key(parent: Seq<(Seq<char>, u32)>, j: int) -> Seq<(Seq<char>, u32)> {
    parent + seq![("RandomChoiceBranch"@, j as u32)]
}

pub open spec fn choices_ok(
    branches: Seq<CompiledProgram>,
    choices: Seq<Vec<ImageOp>>,
    s: PipelineImageState,
    parent: Seq<(Seq<char>, u32)>,
) -> bool
    decreases choices, 0int,
{
    &&& branches.len() == choices.len()
    &&& forall|j: int|
        0 <= j < choices.len() ==> program_ok(
            (#[trigger] branches[j]).ops@,
            choices[j]@,
            s,
            branch_key(parent, j),
        )
}

pub open spec fn order_ok(
    compiled: Seq<CompiledSampleOp>,
    ops: Seq<ImageOp>,
    s: PipelineImageState,
    parent: Seq<(Seq<char>, u32)>,
) -> bool
    decreases ops, 0int,
{
    &&& compiled.len() == ops.len()
    &&& forall|j: int|
        0 <= j < ops.len() ==> compiled_op_ok(
            #[trigger] compiled[j],
            ops[j],
            s,
            key_in_scope(ops, j, parent),
        )
}

proof fn lemma_program_none_extends(ops: Seq<ImageOp>, s: PipelineImageState, k: nat, n: nat)
    requires
        k <= n <= ops.len(),
        program_out(ops, s, k) is None,
    ensures
        program_out(ops, s, n) is None,
    decreases n - k,
{
    if k < n {
        lemma_program_none_extends(ops, s, k + 1, n);
    }
}

proof fn lemma_choice_none_extends(choices: Seq<Vec<ImageOp>>, s: PipelineImageState, k: nat, n: nat)
    requires
        1 <= k <= n <= choices.len(),
        choice_out(choices, s, k) is None,
    ensures
        choice_out(choices, s, n) is None,
    decreases n - k,
{
    if k < n {
        lemma_choice_none_extends(choices, s, k + 1, n);
    }
}

proof fn lemma_order_false_extends(ops: Seq<ImageOp>, s: PipelineImageState, k: nat, n: nat)
    requires
        k <= n <= ops.len(),
        !order_keeps(ops, s, k),
    ensures
        !order_keeps(ops, s, n),
    decreases n - k,
{
    if k < n {
        lemma_order_false_extends(ops, s, k + 1, n);
    }
}

/// Counts stay equal to the per-kind counts of the operations seen so far.
proof fn lemma_counts_step(
    before: Seq<(Seq<char>, u32)>,
    after: Seq<(Seq<char>, u32)>,
    ops: Seq<ImageOp>,
    i: nat,
)
    requires
        i < ops.len(),
        forall|k: Seq<char>| #[trigger] count_of(before, k) == kind_count(ops, k, i),
        bumped(before, after, ops[i as int]),
    ensures
        forall|k: Seq<char>| #[trigger] count_of(after, k) == kind_count(ops, k, i + 1),
{
    assert forall|k: Seq<char>| #[trigger] count_of(after, k) == kind_count(ops, k, i + 1) by {
        assert(count_of(before, k) == kind_count(ops, k, i));
        assert(kind_count(ops, k, i + 1) == kind_count(ops, k, i) + if random_kind_spec(ops[i as int]) == Some(k) {
            1nat
        } else {
            0nat
        });
    }
}

/// Gives `op` its stream key, if it draws from a stream: the next
/// occurrence of its kind in this scope, under `parent_key` when nested.
pub fn assign_random_key(op: &ImageOp, occurrences: &mut RandomOccurrences, parent_key: Option<OpKey>) -> (r:
    Option<OpKey>)
    requires
        random_kind_spec(*op) matches Some(k) ==> count_of(old(occurrences)@, k) < u32::MAX,
    ensures
        opt_view(r) == assigned_key(*op, opt_key_view(parent_key), old(occurrences)@),
        bumped(old(occurrences)@, final(occurrences)@, *op),
{
    match op.random_key_kind() {
        None => {
            proof {
                assert(bumped(old(occurrences)@, occurrences@, *op));
            }
            None
        },
        Some(kind) => {
            let occurrence = occurrences.next(kind);
            let local = OpKey::from_parts(kind, occurrence);
            let key = match parent_key {
                Some(parent) => parent.derive(&local),
                None => {
                    proof {
                        assert(Seq::<(Seq<char>, u32)>::empty() + local@ =~= local@);
                    }
                    local
                },
            };
            Some(key)
        },
    }
}

pub open spec fn sample_error_text(op: ImageOp) -> Seq<char> {
    name_spec(op) + " cannot be compiled as a sample-stage operation"@
}

/// Compiles one operation as a sample-stage kernel from `input_state`,
/// keyed in the scope whose counts `occurrences` holds, under `parent_key`
/// when nested. Returns the kernel and the state it leaves.
#[verifier::loop_isolation(false)]
pub fn compile_sample_op(
    op: ImageOp,
    input_state: PipelineImageState,
    parent_key: Option<OpKey>,
    occurrences: &mut RandomOccurrences,
) -> (r: Result<(CompiledSampleOp, PipelineImageState), VisionError>)
    requires
        op_fits(op),
        random_kind_spec(op) matches Some(k) ==> count_of(old(occurrences)@, k) < u32::MAX,
    ensures
        config_valid(op) && execution_kind_spec(op) == ExecutionKind::Sample ==> bumped(
            old(occurrences)@,
            final(occurrences)@,
            op,
        ),
        !(config_valid(op) && execution_kind_spec(op) == ExecutionKind::Sample)
            ==> final(occurrences)@ == old(occurrences)@,
        r is Ok <==> sample_out(op, input_state) is Some,
        r matches Ok(out) ==> sample_out(op, input_state) == Some(out.1) && compiled_op_ok(
            out.0,
            op,
            input_state,
            assigned_key(op, opt_key_view(parent_key), old(occurrences)@),
        ),
        !config_valid(op) ==> (r matches Err(e) && e is InvalidArgument),
        config_valid(op) ==> (r matches Err(e) ==> e is InvalidPipeline),
        config_valid(op) && execution_kind_spec(op) != ExecutionKind::Sample ==> (r matches Err(e)
            && error_text(e) == sample_error_text(op)),
        config_valid(op) && execution_kind_spec(op) == ExecutionKind::Sample && !is_control(op) ==> (
        r matches Err(e) ==> error_text(e) == if op is Decode {
            double_decode_message()
        } else {
            requirement_message(name_spec(op), leaf_requirement(op), input_state)
        }),
        config_valid(op) && execution_kind_spec(op) == ExecutionKind::Sample ==> (op matches ImageOp::RandomApply {
            ops,
            ..
        } && program_out(ops@, input_state, ops@.len()) matches Some(s) && s != input_state ==> (
        r matches Err(e) && error_text(e) == "RandomApply nested transforms must preserve image state"@)),
        config_valid(op) && execution_kind_spec(op) == ExecutionKind::Sample ==> (op matches ImageOp::RandomChoice {
            choices,
        } && choices@.len() == 0 ==> (r matches Err(e) && error_text(e)
            == "RandomChoice requires at least one choice"@)),
        config_valid(op) && execution_kind_spec(op) == ExecutionKind::Sample ==> (op matches ImageOp::RandomChoice {
            choices,
        } && choices@.len() > 0 && (forall|j: int|
            0 <= j < choices@.len() ==> program_out(
                #[trigger] choices@[j]@,
                input_state,
                choices@[j]@.len(),
            ) is Some) && choice_out(choices@, input_state, choices@.len()) is None ==> (r matches Err(e)
            && error_text(e) == "random_choice choices must produce the same image state"@)),
        config_valid(op) && execution_kind_spec(op) == ExecutionKind::Sample ==> (op matches ImageOp::RandomOrder {
            ops,
        } && (forall|j: int| 0 <= j < ops@.len() ==> sample_out(#[trigger] ops@[j], input_state) is Some)
            && !order_keeps(ops@, input_state, ops@.len()) ==> (r matches Err(e) && error_text(e)
            == "RandomOrder nested transforms must preserve image state"@)),
    decreases op, 1int,
{
    match op.validate() {
        Err(e) => return Err(e),
        Ok(()) => {},
    }
    if op.execution_kind() != ExecutionKind::Sample {
        let mut message = owned(op.name());
        push_str(&mut message, " cannot be compiled as a sample-stage operation");
        proof {
            reveal_strlit(" cannot be compiled as a sample-stage operation");
        }
        return Err(VisionError::InvalidPipeline(message));
    }
    let ghost whole = op;
    let random_key = assign_random_key(&op, occurrences, parent_key);
    match op {
        ImageOp::RandomApply { probability_bits, ops } => {
            let key = random_key.unwrap();
            let ghost nested = ops;
            proof {
                assert(decreases_to!(whole => nested));
            }
            let key_for_body = key.clone();
            match compile_sample_program(ops, input_state, key_for_body) {
                Err(e) => Err(e),
                Ok((body, output_state)) => {
                    if output_state != input_state {
                        proof {
                            reveal_strlit("RandomApply nested transforms must preserve image state");
                        }
                        return Err(
                            VisionError::InvalidPipeline(
                                owned("RandomApply nested transforms must preserve image state"),
                            ),
                        );
                    }
                    Ok(
                        (
                            CompiledSampleOp {
                                kernel: SampleKernel::RandomApply { probability_bits, key, body },
                                random_key: None,
                                input_state,
                            },
                            input_state,
                        ),
                    )
                },
            }
        },
        ImageOp::RandomChoice { choices } => {
            let key = random_key.unwrap();
            let ghost all = choices@;
            let n = choices.len();
            if n == 0 {
                proof {
                    reveal_strlit("RandomChoice requires at least one choice");
                }
                return Err(VisionError::InvalidPipeline(owned("RandomChoice requires at least one choice")));
            }
            let ghost all_compile = forall|j: int|
                0 <= j < all.len() ==> program_out(#[trigger] all[j]@, input_state, all[j]@.len()) is Some;
            let mut rest = choices;
            let mut branches: Vec<CompiledProgram> = Vec::new();
            let mut output_state: Option<PipelineImageState> = None;
            let mut index: usize = 0;
            while index < n
                invariant
                    0 <= index <= n,
                    n == all.len(),
                    all_compile == forall|j: int|
                        0 <= j < all.len() ==> program_out(#[trigger] all[j]@, input_state, all[j]@.len()) is Some,
                    n <= u32::MAX,
                    rest@ == all.subrange(index as int, n as int),
                    branches@.len() == index,
                    index == 0 ==> output_state is None,
                    index > 0 ==> output_state is Some,
                    index > 0 ==> output_state == choice_out(all, input_state, index as nat),
                    forall|j: int| 0 <= j < n ==> nested_valid(#[trigger] all[j]@),
                    forall|j: int|
                        0 <= j < index ==> program_ok(
                            (#[trigger] branches@[j]).ops@,
                            all[j]@,
                            input_state,
                            branch_key(key@, j),
                        ),
                    forall|j: int| 0 <= j < n ==> seq_fits(#[trigger] all[j]@),
                decreases n - index,
            {
                let choice = rest.remove(0);
                proof {
                    assert(choice == all[index as int]);
                    assert(decreases_to!(whole => all[index as int]));
                }
                let local = OpKey::from_parts("RandomChoiceBranch", index as u32);
                proof {
                    reveal_strlit("RandomChoiceBranch");
                }
                let branch_key_value = key.derive(&local);
                match compile_sample_program(choice, input_state, branch_key_value) {
                    Err(e) => {
                        proof {
                            if all_compile {
                                assert(program_out(all[index as int]@, input_state, all[index as int]@.len()) is Some);
                            }
                            if index == 0 {
                                assert(choice_out(all, input_state, 1) is None);
                            } else {
                                assert(choice_out(all, input_state, (index + 1) as nat) is None);
                            }
                            lemma_choice_none_extends(all, input_state, (index + 1) as nat, n as nat);
                        }
                        return Err(e);
                    },
                    Ok((branch, branch_state)) => {
                        match output_state {
                            Some(expected) => {
                                if expected != branch_state {
                                    proof {
                                        assert(choice_out(all, input_state, (index + 1) as nat) is None);
                                        lemma_choice_none_extends(
                                            all,
                                            input_state,
                                            (index + 1) as nat,
                                            n as nat,
                                        );
                                        reveal_strlit("random_choice choices must produce the same image state");
                                    }
                                    return Err(
                                        VisionError::InvalidPipeline(
                                            owned("random_choice choices must produce the same image state"),
                                        ),
                                    );
                                }
                            },
                            None => {
                                output_state = Some(branch_state);
                            },
                        }
                        branches.push(branch);
                    },
                }
                index += 1;
            }
            let out = output_state.unwrap();
            let compiled = CompiledSampleOp {
                kernel: SampleKernel::RandomChoice { key, branches },
                random_key: None,
                input_state,
            };
            Ok((compiled, out))
        },
        ImageOp::RandomOrder { ops } => {
            let key = random_key.unwrap();
            let ghost all = ops@;
            let n = ops.len();
            let ghost all_compile = forall|j: int| 0 <= j < all.len() ==> sample_out(#[trigger] all[j], input_state) is Some;
            let mut rest = ops;
            let mut child = RandomOccurrences::new();
            let mut compiled_ops: Vec<CompiledSampleOp> = Vec::new();
            let mut index: usize = 0;
            while index < n
                invariant
                    0 <= index <= n,
                    n == all.len(),
                    all_compile == forall|j: int| 0 <= j < all.len() ==> sample_out(#[trigger] all[j], input_state) is Some,
                    seq_fits(all),
                    nested_valid(all),
                    rest@ == all.subrange(index as int, n as int),
                    compiled_ops@.len() == index,
                    order_keeps(all, input_state, index as nat),
                    forall|k: Seq<char>| #[trigger] count_of(child@, k) == kind_count(all, k, index as nat),
                    forall|j: int|
                        0 <= j < index ==> compiled_op_ok(
                            #[trigger] compiled_ops@[j],
                            all[j],
                            input_state,
                            key_in_scope(all, j, key@),
                        ),
                decreases n - index,
            {
                let o = rest.remove(0);
                proof {
                    assert(o == all[index as int]);
                    assert(decreases_to!(whole => all[index as int]));
                    assert(op_fits(o));
                    if let Some(k) = random_kind_spec(o) {
                        lemma_kind_count_bound(all, k, index as nat);
                    }
                }
                let ghost child_before = child@;
                match compile_sample_op(o, input_state, Some(key.clone()), &mut child) {
                    Err(e) => {
                        proof {
                            if all_compile {
                                assert(sample_out(all[index as int], input_state) is Some);
                            }
                            lemma_order_false_extends(all, input_state, (index + 1) as nat, n as nat);
                        }
                        return Err(e);
                    },
                    Ok((c, out)) => {
                        if out != input_state {
                            proof {
                                lemma_order_false_extends(all, input_state, (index + 1) as nat, n as nat);
                                reveal_strlit("RandomOrder nested transforms must preserve image state");
                            }
                            return Err(
                                VisionError::InvalidPipeline(
                                    owned("RandomOrder nested transforms must preserve image state"),
                                ),
                            );
                        }
                        proof {
                            lemma_counts_step(child_before, child@, all, index as nat);
                        }
                        compiled_ops.push(c);
                    },
                }
                index += 1;
            }
            Ok(
                (
                    CompiledSampleOp {
                        kernel: SampleKernel::RandomOrder { key, ops: compiled_ops },
                        random_key: None,
                        input_state,
                    },
                    input_state,
                ),
            )
        },
        leaf => {
            match leaf.transition(input_state) {
                Err(e) => Err(e),
                Ok(output_state) => Ok(
                    (
                        CompiledSampleOp {
                            kernel: SampleKernel::Semantic(leaf),
                            random_key,
                            input_state,
                        },
                        output_state,
                    ),
                ),
            }
        },
    }
}

/// Compiles a nested sequence in its own key scope under `parent_key`,
/// each operation from the state its predecessors leave.
#[verifier::loop_isolation(false)]
pub fn compile_sample_program(
    ops: Vec<ImageOp>,
    initial_state: PipelineImageState,
    parent_key: OpKey,
) -> (r: Result<(CompiledProgram, PipelineImageState), VisionError>)
    requires
        seq_fits(ops@),
    ensures
        r is Ok <==> program_out(ops@, initial_state, ops@.len()) is Some,
        r matches Ok(out) ==> program_out(ops@, initial_state, ops@.len()) == Some(out.1)
            && program_ok(out.0.ops@, ops@, initial_state, parent_key@),
        nested_valid(ops@) ==> (r matches Err(e) ==> e is InvalidPipeline),
    decreases ops@, 2int,
{
    let ghost all = ops@;
    let n = ops.len();
    let mut rest = ops;
    let mut state = initial_state;
    let mut occurrences = RandomOccurrences::new();
    let mut compiled: Vec<CompiledSampleOp> = Vec::new();
    let mut index: usize = 0;
    while index < n
        invariant
            0 <= index <= n,
            n == all.len(),
            seq_fits(all),
            rest@ == all.subrange(index as int, n as int),
            compiled@.len() == index,
            program_out(all, initial_state, index as nat) == Some(state),
            forall|k: Seq<char>| #[trigger] count_of(occurrences@, k) == kind_count(all, k, index as nat),
            forall|j: int|
                0 <= j < index ==> compiled_op_ok(
                    #[trigger] compiled@[j],
                    all[j],
                    program_out(all, initial_state, j as nat).unwrap(),
                    key_in_scope(all, j, parent_key@),
                ),
        decreases n - index,
    {
        let o = rest.remove(0);
        proof {
            assert(o == all[index as int]);
            assert(decreases_to!(all => all[index as int]));
            assert(op_fits(o));
            if let Some(k) = random_kind_spec(o) {
                lemma_kind_count_bound(all, k, index as nat);
            }
        }
        let ghost before = occurrences@;
        match compile_sample_op(o, state, Some(parent_key.clone()), &mut occurrences) {
            Err(e) => {
                proof {
                    assert(sample_out(all[index as int], state) is None);
                    assert(program_out(all, initial_state, (index + 1) as nat) is None);
                    lemma_program_none_extends(all, initial_state, (index + 1) as nat, n as nat);
                }
                return Err(e);
            },
            Ok((c, next)) => {
                proof {
                    lemma_counts_step(before, occurrences@, all, index as nat);
                }
                compiled.push(c);
                state = next;
            },
        }
        index += 1;
    }
    proof {
        assert(compiled@.len() == all.len());
    }
    Ok((CompiledProgram { ops: compiled }, state))
}

// ---------------------------------------------------------------------------
// Stream key laws
// ---------------------------------------------------------------------------

proof fn lemma_kind_count_monotone(ops: Seq<ImageOp>, kind: Seq<char>, a: nat, b: nat)
    requires
        a <= b <= ops.len(),
    ensures
        kind_count(ops, kind, a) <= kind_count(ops, kind, b),
    decreases b - a,
{
    if a < b {
        lemma_kind_count_monotone(ops, kind, a, (b - 1) as nat);
    }
}

/// Two stochastic operations of one scope draw from different streams:
/// their keys differ, whether they are of different kinds or are two
/// occurrences of the same kind.
pub proof fn law_distinct_stream_keys(ops: Seq<ImageOp>, parent: Seq<(Seq<char>, u32)>, i: int, j: int)
    requires
        0 <= i < j < ops.len(),
        ops.len() <= u32::MAX,
        random_kind_spec(ops[i]) is Some,
        random_kind_spec(ops[j]) is Some,
    ensures
        key_in_scope(ops, i, parent) != key_in_scope(ops, j, parent),
{
    let ki = random_kind_spec(ops[i]).unwrap();
    let kj = random_kind_spec(ops[j]).unwrap();
    let a = key_in_scope(ops, i, parent).unwrap();
    let b = key_in_scope(ops, j, parent).unwrap();
    assert(a.last() == (ki, kind_count(ops, ki, i as nat) as u32));
    assert(b.last() == (kj, kind_count(ops, kj, j as nat) as u32));
    if ki == kj {
        lemma_kind_count_monotone(ops, ki, (i + 1) as nat, j as nat);
        lemma_kind_count_bound(ops, ki, j as nat);
        assert(kind_count(ops, ki, (i + 1) as nat) == kind_count(ops, ki, i as nat) + 1);
        assert(a.last() != b.last());
    }
}

proof fn lemma_kind_count_insert(
    ops: Seq<ImageOp>,
    m: int,
    det: ImageOp,
    kind: Seq<char>,
    n: nat,
)
    requires
        0 <= m <= ops.len(),
        random_kind_spec(det) is None,
        n <= ops.len(),
    ensures
        kind_count(ops.insert(m, det), kind, if n <= m { n } else { n + 1 }) == kind_count(ops, kind, n),
    decreases n,
{
    let longer = ops.insert(m, det);
    if n == 0 {
    } else if n <= m {
        lemma_kind_count_insert(ops, m, det, kind, (n - 1) as nat);
        assert(longer[n - 1] == ops[n - 1]);
    } else {
        lemma_kind_count_insert(ops, m, det, kind, (n - 1) as nat);
        assert(longer[n as int] == ops[n - 1]);
        if n - 1 == m {
            assert(longer[m] == det);
            assert(kind_count(longer, kind, n) == kind_count(longer, kind, m as nat));
        }
    }
}

/// Adding a deterministic operation anywhere in a scope leaves the stream
/// key of every other operation unchanged.
pub proof fn law_deterministic_ops_keep_keys(
    ops: Seq<ImageOp>,
    m: int,
    det: ImageOp,
    parent: Seq<(Seq<char>, u32)>,
    j: int,
)
    requires
        0 <= m <= ops.len(),
        0 <= j < ops.len(),
        random_kind_spec(det) is None,
    ensures
        key_in_scope(ops.insert(m, det), if j < m { j } else { j + 1 }, parent) == key_in_scope(
            ops,
            j,
            parent,
        ),
{
    let longer = ops.insert(m, det);
    let j2 = if j < m {
        j
    } else {
        j + 1
    };
    assert(longer[j2] == ops[j]);
    if let Some(k) = random_kind_spec(ops[j]) {
        lemma_kind_count_insert(ops, m, det, k, j as nat);
    }
}

} // verus!
