//! Explicit, backend-neutral logical optimization passes.
//!
//! Passes, fusion rules and physical-candidate providers are supplied by
//! domain code through traits; the driver here runs them in registration
//! order, validates the plan after each pass, and records a inspectable
//! snapshot of the plan per pass.

use vstd::prelude::*;
use crate::plan::{explain_text, ids_text, push_ids, LogicalNode, LogicalPlan, NodeId, PlanError, PlanPayload};
use crate::properties::{PropertyAnnotations, PropertyInference, ValueProperties, ValuePropertiesV};
use crate::text::{owned, push_str, str_equal};

verus! {

#[derive(Debug)]
pub struct Diagnostic {
    pub code: &'static str,
    pub message: String,
}

pub struct DiagnosticV {
    pub code: Seq<char>,
    pub message: Seq<char>,
}

impl View for Diagnostic {
    type V = DiagnosticV;

    open spec fn view(&self) -> DiagnosticV {
        DiagnosticV { code: self.code@, message: self.message@ }
    }
}

impl Clone for Diagnostic {
    fn clone(&self) -> (r: Self)
        ensures
            r@ == self@,
    {
        Diagnostic { code: self.code, message: self.message.clone() }
    }
}

pub open spec fn diagnostics_view(d: Seq<Diagnostic>) -> Seq<DiagnosticV> {
    d.map_values(|x: Diagnostic| x@)
}

/// A copy of a diagnostic list with the same views.
pub fn clone_diagnostics(d: &Vec<Diagnostic>) -> (r: Vec<Diagnostic>)
    ensures
        diagnostics_view(r@) == diagnostics_view(d@),
{
    let mut out: Vec<Diagnostic> = Vec::new();
    let mut i: usize = 0;
    while i < d.len()
        invariant
            0 <= i <= d@.len(),
            out@.len() == i,
            forall|k: int| 0 <= k < i ==> (#[trigger] out@[k])@ == d@[k]@,
        decreases d@.len() - i,
    {
        out.push(d[i].clone());
        i += 1;
    }
    assert(diagnostics_view(out@) =~= diagnostics_view(d@));
    out
}

/// Outcome of one pass: whether it rewrote the plan, and its notes.
#[derive(Debug)]
pub struct PassResult {
    pub changed: bool,
    pub diagnostics: Vec<Diagnostic>,
}

impl PassResult {
    pub fn unchanged() -> (r: Self)
        ensures
            !r.changed,
            r.diagnostics@.len() == 0,
    {
        PassResult { changed: false, diagnostics: Vec::new() }
    }

    pub fn changed() -> (r: Self)
        ensures
            r.changed,
            r.diagnostics@.len() == 0,
    {
        PassResult { changed: true, diagnostics: Vec::new() }
    }

    /// The same result with one more diagnostic at the end.
    pub fn diagnostic(self, code: &'static str, message: String) -> (r: Self)
        ensures
            r.changed == self.changed,
            diagnostics_view(r.diagnostics@) == diagnostics_view(self.diagnostics@).push(
                DiagnosticV { code: code@, message: message@ },
            ),
    {
        let mut out = self;
        out.diagnostics.push(Diagnostic { code, message });
        assert(diagnostics_view(out.diagnostics@) =~= diagnostics_view(self.diagnostics@).push(
            DiagnosticV { code: code@, message: message@ },
        ));
        out
    }
}

#[derive(Debug)]
pub enum OptimizerError {
    Pass { pass: String, message: String },
    NonConvergent { iterations: usize },
}

/// Shared state supplied to every pass so passes can inspect and update
/// inferred properties without coupling the core IR to a domain.
pub struct OptimizerContext {
    pub annotations: PropertyAnnotations,
    pub diagnostics: Vec<Diagnostic>,
    pub snapshots: Vec<(String, String)>,
}

impl Default for OptimizerContext {
    fn default() -> (r: Self)
        ensures
            fresh_context(r),
    {
        OptimizerContext::new()
    }
}

impl OptimizerContext {
    pub open spec fn spec_annotations(&self) -> Map<usize, ValuePropertiesV> {
        self.annotations@
    }

    /// A context with no annotations, diagnostics or snapshots.
    pub fn new() -> (r: Self)
        ensures
            r.spec_annotations() == Map::<usize, ValuePropertiesV>::empty(),
            r.diagnostics@.len() == 0,
            r.snapshots@.len() == 0,
    {
        OptimizerContext {
            annotations: PropertyAnnotations::new(),
            diagnostics: Vec::new(),
            snapshots: Vec::new(),
        }
    }

    pub fn annotations(&self) -> (r: &PropertyAnnotations)
        ensures
            r@ == self.spec_annotations(),
    {
        &self.annotations
    }

    /// Mutable access to the annotations.
    pub fn annotations_mut(&mut self) -> (r: &mut PropertyAnnotations)
        ensures
            r@ == old(self).spec_annotations(),
            final(self).spec_annotations() == final(r)@,
            final(self).diagnostics == old(self).diagnostics,
            final(self).snapshots == old(self).snapshots,
    {
        &mut self.annotations
    }

    pub fn set_annotations(&mut self, annotations: PropertyAnnotations)
        ensures
            final(self).spec_annotations() == annotations@,
            final(self).diagnostics == old(self).diagnostics,
            final(self).snapshots == old(self).snapshots,
    {
        self.annotations = annotations;
    }

    pub fn clear_annotations(&mut self)
        ensures
            final(self).spec_annotations() == Map::<usize, ValuePropertiesV>::empty(),
            final(self).diagnostics == old(self).diagnostics,
            final(self).snapshots == old(self).snapshots,
    {
        self.annotations = PropertyAnnotations::new();
    }
}

/// A rewrite or analysis pass over a logical plan.
pub trait OptimizerPass<P> {
    /// The pass's name, where its implementation states it; `None` says
    /// nothing.
    open spec fn spec_name(&self) -> Option<Seq<char>> {
        None
    }

    /// What one call of `run` does: from `plan` and `context` to
    /// `final_plan` and `final_context` with result `r`, as far as the
    /// implementation states it; by default it states nothing.
    open spec fn run_post(
        &self,
        plan: LogicalPlan<P>,
        context: OptimizerContext,
        final_plan: LogicalPlan<P>,
        final_context: OptimizerContext,
        r: Result<PassResult, String>,
    ) -> bool {
        true
    }

    fn name(&self) -> (r: &'static str)
        ensures
            self.spec_name() matches Some(n) ==> r@ == n,
    ;

    fn run(&self, plan: &mut LogicalPlan<P>, context: &mut OptimizerContext) -> (r: Result<
        PassResult,
        String,
    >)
        ensures
            self.run_post(*old(plan), *old(context), *final(plan), *final(context), r),
    ;
}

/// A candidate group of nodes that a fusion rule found.
#[derive(Debug)]
pub struct FusionCandidate {
    pub rule: &'static str,
    pub nodes: Vec<NodeId>,
    pub name: String,
    pub legal: bool,
    pub reason: String,
}

/// A fusion candidate as plain values.
pub struct FusionCandidateV {
    pub rule: Seq<char>,
    pub nodes: Seq<NodeId>,
    pub name: Seq<char>,
    pub legal: bool,
    pub reason: Seq<char>,
}

impl View for FusionCandidate {
    type V = FusionCandidateV;

    open spec fn view(&self) -> FusionCandidateV {
        FusionCandidateV {
            rule: self.rule@,
            nodes: self.nodes@,
            name: self.name@,
            legal: self.legal,
            reason: self.reason@,
        }
    }
}

/// A domain rule that discovers fusion candidates in a plan.
pub trait FusionRule<P> {
    /// The rule's name, where its implementation states it; `None` says
    /// nothing.
    open spec fn spec_name(&self) -> Option<Seq<char>> {
        None
    }

    /// `r` is a result `discover` may give for `plan` and `annotations`,
    /// as far as the implementation states it; by default it states
    /// nothing.
    open spec fn discover_post(
        &self,
        plan: LogicalPlan<P>,
        annotations: PropertyAnnotations,
        r: Result<Vec<FusionCandidate>, String>,
    ) -> bool {
        true
    }

    fn name(&self) -> (r: &'static str)
        ensures
            self.spec_name() matches Some(n) ==> r@ == n,
    ;

    fn discover(&self, plan: &LogicalPlan<P>, annotations: &PropertyAnnotations) -> (r: Result<
        Vec<FusionCandidate>,
        String,
    >)
        ensures
            self.discover_post(*plan, *annotations, r),
    ;
}

#[derive(Debug)]
pub struct PhysicalCandidate {
    pub name: String,
    pub backend: String,
}

/// A domain hook naming physical implementations for a node.
pub trait PhysicalCandidateProvider<P> {
    fn candidates(&self, node: &LogicalNode<P>, properties: Option<&ValueProperties>) -> Vec<
        PhysicalCandidate,
    >;
}

/// Domain hooks registered by the application composition root. A plugin
/// may contribute inference and ordered optimizer passes without global
/// state. Each hook's result is described by a predicate that an
/// implementation may state; by default it states nothing.
pub trait PlanPlugin<P> {
    /// `r` is a result `property_inference` may give.
    open spec fn inference_post(&self, r: Option<Box<dyn PropertyInference<P>>>) -> bool {
        true
    }

    /// `r` is a pass list `optimizer_passes` may give.
    open spec fn passes_post(&self, r: Seq<Box<dyn OptimizerPass<P>>>) -> bool {
        true
    }

    /// `r` is a rule list `fusion_rules` may give.
    open spec fn rules_post(&self, r: Seq<Box<dyn FusionRule<P>>>) -> bool {
        true
    }

    /// `r` is a provider list `physical_candidates` may give.
    open spec fn providers_post(&self, r: Seq<Box<dyn PhysicalCandidateProvider<P>>>) -> bool {
        true
    }

    fn name(&self) -> &'static str;

    fn property_inference(&self) -> (r: Option<Box<dyn PropertyInference<P>>>)
        ensures
            self.inference_post(r),
    ;

    fn optimizer_passes(&self) -> (r: Vec<Box<dyn OptimizerPass<P>>>)
        ensures
            self.passes_post(r@),
    ;

    fn fusion_rules(&self) -> (r: Vec<Box<dyn FusionRule<P>>>)
        ensures
            self.rules_post(r@),
    ;

    fn physical_candidates(&self) -> (r: Vec<Box<dyn PhysicalCandidateProvider<P>>>)
        ensures
            self.providers_post(r@),
    ;
}

#[verifier::reject_recursive_types(P)]
pub struct PlanRegistry<P> {
    inference: Option<Box<dyn PropertyInference<P>>>,
    passes: Vec<Box<dyn OptimizerPass<P>>>,
    fusion_rules: Vec<Box<dyn FusionRule<P>>>,
    physical_candidates: Vec<Box<dyn PhysicalCandidateProvider<P>>>,
}

impl<P> Default for PlanRegistry<P> {
    fn default() -> (r: Self)
        ensures
            r.spec_passes().len() == 0,
            r.spec_fusion_rules().len() == 0,
            r.spec_physical_candidates().len() == 0,
            r.spec_inference() is None,
    {
        PlanRegistry::new()
    }
}

impl<P> PlanRegistry<P> {
    pub closed spec fn spec_passes(&self) -> Seq<Box<dyn OptimizerPass<P>>> {
        self.passes@
    }

    pub closed spec fn spec_fusion_rules(&self) -> Seq<Box<dyn FusionRule<P>>> {
        self.fusion_rules@
    }

    pub closed spec fn spec_physical_candidates(&self) -> Seq<Box<dyn PhysicalCandidateProvider<P>>> {
        self.physical_candidates@
    }

    pub closed spec fn spec_inference(&self) -> Option<Box<dyn PropertyInference<P>>> {
        self.inference
    }

    /// An empty registry.
    pub fn new() -> (r: Self)
        ensures
            r.spec_passes().len() == 0,
            r.spec_fusion_rules().len() == 0,
            r.spec_physical_candidates().len() == 0,
            r.spec_inference() is None,
    {
        PlanRegistry {
            inference: None,
            passes: Vec::new(),
            fusion_rules: Vec::new(),
            physical_candidates: Vec::new(),
        }
    }

    /// Adds every hook of `plugin`, calling each hook once: its inference
    /// replaces the current one when it has one, and its passes, fusion
    /// rules and candidate providers are appended in the plugin's order.
    pub fn register_plugin(&mut self, plugin: &dyn PlanPlugin<P>)
        ensures
            exists|
                inference: Option<Box<dyn PropertyInference<P>>>,
                passes: Seq<Box<dyn OptimizerPass<P>>>,
                rules: Seq<Box<dyn FusionRule<P>>>,
                providers: Seq<Box<dyn PhysicalCandidateProvider<P>>>,
            |
                #![trigger plugin.inference_post(inference), plugin.passes_post(passes), plugin.rules_post(rules), plugin.providers_post(providers)]
                {
                    &&& plugin.inference_post(inference)
                    &&& plugin.passes_post(passes)
                    &&& plugin.rules_post(rules)
                    &&& plugin.providers_post(providers)
                    &&& final(self).spec_passes() == old(self).spec_passes() + passes
                    &&& final(self).spec_fusion_rules() == old(self).spec_fusion_rules() + rules
                    &&& final(self).spec_physical_candidates() == old(self).spec_physical_candidates()
                        + providers
                    &&& final(self).spec_inference() == if inference is Some {
                        inference
                    } else {
                        old(self).spec_inference()
                    }
                },
    {
        let inference = plugin.property_inference();
        let passes = plugin.optimizer_passes();
        let rules = plugin.fusion_rules();
        let providers = plugin.physical_candidates();
        let ghost (i, p, r, c) = (inference, passes@, rules@, providers@);
        self.install_hooks(inference, passes, rules, providers);
        assert(plugin.inference_post(i) && plugin.passes_post(p) && plugin.rules_post(r)
            && plugin.providers_post(c));
    }

    /// Installs a plugin's hooks: `inference` replaces the current one when
    /// it is present; `passes`, `rules` and `providers` are appended in
    /// order.
    pub fn install_hooks(
        &mut self,
        inference: Option<Box<dyn PropertyInference<P>>>,
        passes: Vec<Box<dyn OptimizerPass<P>>>,
        rules: Vec<Box<dyn FusionRule<P>>>,
        providers: Vec<Box<dyn PhysicalCandidateProvider<P>>>,
    )
        ensures
            final(self).spec_passes() == old(self).spec_passes() + passes@,
            final(self).spec_fusion_rules() == old(self).spec_fusion_rules() + rules@,
            final(self).spec_physical_candidates() == old(self).spec_physical_candidates() + providers@,
            final(self).spec_inference() == if inference is Some {
                inference
            } else {
                old(self).spec_inference()
            },
    {
        if inference.is_some() {
            self.inference = inference;
        }
        let mut passes = passes;
        self.passes.append(&mut passes);
        let mut rules = rules;
        self.fusion_rules.append(&mut rules);
        let mut providers = providers;
        self.physical_candidates.append(&mut providers);
    }

    pub fn register_pass(&mut self, pass: Box<dyn OptimizerPass<P>>)
        ensures
            final(self).spec_passes() == old(self).spec_passes().push(pass),
            final(self).spec_passes().len() == old(self).spec_passes().len() + 1,
            final(self).spec_fusion_rules() == old(self).spec_fusion_rules(),
            final(self).spec_physical_candidates() == old(self).spec_physical_candidates(),
            final(self).spec_inference() == old(self).spec_inference(),
    {
        proof {
            vstd::seq::axiom_seq_push_len(self.passes@, pass);
        }
        self.passes.push(pass);
    }

    pub fn passes(&self) -> (r: &[Box<dyn OptimizerPass<P>>])
        ensures
            r@ == self.spec_passes(),
    {
        self.passes.as_slice()
    }

    pub fn inference(&self) -> (r: Option<&Box<dyn PropertyInference<P>>>)
        ensures
            r is Some <==> self.spec_inference() is Some,
            r matches Some(i) ==> self.spec_inference() == Some(*i),
    {
        match &self.inference {
            Some(i) => Some(i),
            None => None,
        }
    }

    pub fn fusion_rules(&self) -> (r: &[Box<dyn FusionRule<P>>])
        ensures
            r@ == self.spec_fusion_rules(),
    {
        self.fusion_rules.as_slice()
    }

    pub fn register_fusion_rule(&mut self, rule: Box<dyn FusionRule<P>>)
        ensures
            final(self).spec_fusion_rules() == old(self).spec_fusion_rules().push(rule),
            final(self).spec_fusion_rules().len() == old(self).spec_fusion_rules().len() + 1,
            final(self).spec_passes() == old(self).spec_passes(),
            final(self).spec_physical_candidates() == old(self).spec_physical_candidates(),
            final(self).spec_inference() == old(self).spec_inference(),
    {
        proof {
            vstd::seq::axiom_seq_push_len(self.fusion_rules@, rule);
        }
        self.fusion_rules.push(rule);
    }

    pub fn register_physical_candidates(&mut self, provider: Box<dyn PhysicalCandidateProvider<P>>)
        ensures
            final(self).spec_physical_candidates() == old(self).spec_physical_candidates().push(
                provider,
            ),
            final(self).spec_physical_candidates().len() == old(self).spec_physical_candidates().len() + 1,
            final(self).spec_passes() == old(self).spec_passes(),
            final(self).spec_fusion_rules() == old(self).spec_fusion_rules(),
            final(self).spec_inference() == old(self).spec_inference(),
    {
        proof {
            vstd::seq::axiom_seq_push_len(self.physical_candidates@, provider);
        }
        self.physical_candidates.push(provider);
    }
}

#[derive(Debug)]
pub struct OptimizationReport {
    pub passes_run: Vec<&'static str>,
    pub diagnostics: Vec<Diagnostic>,
    pub iterations: usize,
    pub fusion_candidates: Vec<FusionCandidate>,
}

/// Snapshot line recorded for one fusion candidate.
pub open spec fn candidate_line(c: FusionCandidate) -> Seq<char> {
    "  FusionCandidate "@ + c.rule@ + " ["@ + ids_text(c.nodes@) + "] "@ + c.name@ + ": "@ + (
    if c.legal {
        "legal"@
    } else {
        "illegal"@
    }) + " ("@ + c.reason@ + ")\n"@
}

/// Diagnostic recorded for one fusion candidate.
pub open spec fn candidate_diagnostic(c: FusionCandidate) -> DiagnosticV {
    DiagnosticV {
        code: if c.legal {
            "fusion.legal"@
        } else {
            "fusion.illegal"@
        },
        message: c.rule@ + ": "@ + c.name@ + " ("@ + c.reason@ + ")"@,
    }
}

/// Lines of the first `n` candidates.
pub open spec fn candidate_lines(cs: Seq<FusionCandidate>, n: nat) -> Seq<char>
    decreases n,
{
    if n == 0 || n > cs.len() {
        Seq::empty()
    } else {
        candidate_lines(cs, (n - 1) as nat) + candidate_line(cs[n - 1])
    }
}

/// Appends the snapshot line of `c` to `snapshot` and its diagnostic to
/// `diagnostics`.
pub fn record_candidate(
    snapshot: &mut String,
    diagnostics: &mut Vec<Diagnostic>,
    c: &FusionCandidate,
)
    ensures
        final(snapshot)@ == old(snapshot)@ + candidate_line(*c),
        diagnostics_view(final(diagnostics)@) == diagnostics_view(old(diagnostics)@).push(
            candidate_diagnostic(*c),
        ),
{
    proof {
        reveal_strlit("  FusionCandidate ");
        reveal_strlit(" [");
        reveal_strlit("] ");
        reveal_strlit(": ");
        reveal_strlit("legal");
        reveal_strlit("illegal");
        reveal_strlit(" (");
        reveal_strlit(")\n");
        reveal_strlit(")");
        reveal_strlit("fusion.legal");
        reveal_strlit("fusion.illegal");
    }
    push_str(snapshot, "  FusionCandidate ");
    push_str(snapshot, c.rule);
    push_str(snapshot, " [");
    push_ids(snapshot, c.nodes.as_slice());
    push_str(snapshot, "] ");
    push_str(snapshot, c.name.as_str());
    push_str(snapshot, ": ");
    if c.legal {
        push_str(snapshot, "legal");
    } else {
        push_str(snapshot, "illegal");
    }
    push_str(snapshot, " (");
    push_str(snapshot, c.reason.as_str());
    push_str(snapshot, ")\n");
    assert(snapshot@ =~= old(snapshot)@ + candidate_line(*c));
    let mut message = owned(c.rule);
    push_str(&mut message, ": ");
    push_str(&mut message, c.name.as_str());
    push_str(&mut message, " (");
    push_str(&mut message, c.reason.as_str());
    push_str(&mut message, ")");
    let code: &'static str = if c.legal {
        "fusion.legal"
    } else {
        "fusion.illegal"
    };
    assert(message@ =~= candidate_diagnostic(*c).message);
    diagnostics.push(Diagnostic { code, message });
    assert(diagnostics_view(diagnostics@) =~= diagnostics_view(old(diagnostics)@).push(
        candidate_diagnostic(*c),
    ));
}

/// Validation failure of the plan after pass `pass`.
fn plan_failure(pass: &'static str, error: PlanError) -> (r: OptimizerError)
    ensures
        r matches OptimizerError::Pass { pass: p, message } && p@ == pass@ && message@ == plan_error_text(
            error,
        ),
{
    OptimizerError::Pass { pass: owned(pass), message: plan_error_message(error) }
}

/// Text of a plan error.
pub fn plan_error_message(error: PlanError) -> (r: String)
    ensures
        r@ == plan_error_text(error),
{
    proof {
        reveal_strlit("node %");
        reveal_strlit(" does not exist");
        reveal_strlit("plan has no root");
        reveal_strlit(" consumes %");
        reveal_strlit(", which is not an earlier node");
    }
    let mut s = String::new();
    match error {
        PlanError::UnknownNode { index } => {
            push_str(&mut s, "node %");
            crate::text::push_decimal(&mut s, index);
            push_str(&mut s, " does not exist");
        },
        PlanError::MissingRoot => {
            push_str(&mut s, "plan has no root");
        },
        PlanError::InvalidInput { node, input } => {
            push_str(&mut s, "node %");
            crate::text::push_decimal(&mut s, node);
            push_str(&mut s, " consumes %");
            crate::text::push_decimal(&mut s, input);
            push_str(&mut s, ", which is not an earlier node");
        },
    }
    assert(s@ =~= plan_error_text(error));
    s
}

pub open spec fn plan_error_text(error: PlanError) -> Seq<char> {
    match error {
        PlanError::UnknownNode { index } => "node %"@ + crate::text::decimal(index as nat)
            + " does not exist"@,
        PlanError::MissingRoot => "plan has no root"@,
        PlanError::InvalidInput { node, input } => "node %"@ + crate::text::decimal(node as nat)
            + " consumes %"@ + crate::text::decimal(input as nat)
            + ", which is not an earlier node"@,
    }
}

/// The error of pass `name` failing with `message`.
pub fn pass_error(name: &str, message: String) -> (r: OptimizerError)
    ensures
        r matches OptimizerError::Pass { pass, message: m } && pass@ == name@ && m == message,
{
    OptimizerError::Pass { pass: owned(name), message }
}

/// Fusion rules run right after the pass named `fusion-discovery`.
pub fn runs_fusion_rules(name: &str) -> (r: bool)
    ensures
        r == (name@ == "fusion-discovery"@),
{
    proof {
        reveal_strlit("fusion-discovery");
    }
    str_equal(name, "fusion-discovery")
}

/// Records a pass that succeeded and left a valid plan: its name is added
/// to `passes_run`; its own diagnostics, then those of the fusion
/// candidates found after it, are appended to the context; and a snapshot
/// named after the pass holds the plan's `explain` text followed by the
/// candidates' lines.
pub fn record_pass(
    context: &mut OptimizerContext,
    passes_run: &mut Vec<&'static str>,
    name: &'static str,
    result: PassResult,
    fusion_diagnostics: Vec<Diagnostic>,
    explain: String,
    candidate_lines: String,
)
    ensures
        final(passes_run)@ == old(passes_run)@.push(name),
        diagnostics_view(final(context).diagnostics@) == diagnostics_view(old(context).diagnostics@)
            + diagnostics_view(result.diagnostics@) + diagnostics_view(fusion_diagnostics@),
        final(context).snapshots@.len() == old(context).snapshots@.len() + 1,
        forall|k: int| 0 <= k < old(context).snapshots@.len() ==> #[trigger] final(context).snapshots@[k]
            == old(context).snapshots@[k],
        final(context).snapshots@.last().0@ == name@,
        final(context).snapshots@.last().1@ == explain@ + candidate_lines@,
        final(context).spec_annotations() == old(context).spec_annotations(),
{
    passes_run.push(name);
    let ghost before = diagnostics_view(context.diagnostics@);
    let mut own = result.diagnostics;
    let ghost own_view = diagnostics_view(own@);
    let mut fusion = fusion_diagnostics;
    let ghost fusion_view = diagnostics_view(fusion@);
    context.diagnostics.append(&mut own);
    let ghost mid = context.diagnostics@;
    context.diagnostics.append(&mut fusion);
    assert(diagnostics_view(mid) =~= before + own_view);
    assert(diagnostics_view(context.diagnostics@) =~= before + own_view + fusion_view);
    let mut snapshot = explain;
    push_str(&mut snapshot, candidate_lines.as_str());
    context.snapshots.push((owned(name), snapshot));
}

/// One call of a pass's `run`: the plan and context it was handed, those
/// it left behind, and what it returned.
pub struct PassCall<P> {
    pub plan: LogicalPlan<P>,
    pub context: OptimizerContext,
    pub final_plan: LogicalPlan<P>,
    pub final_context: OptimizerContext,
    pub result: Result<PassResult, String>,
}

/// The call returned `Ok` with a result that changed the plan.
pub open spec fn call_changed<P>(call: PassCall<P>) -> bool {
    call.result matches Ok(res) && res.changed
}

/// No annotations, diagnostics or snapshots.
pub open spec fn fresh_context(c: OptimizerContext) -> bool {
    &&& c.spec_annotations() == Map::<usize, ValuePropertiesV>::empty()
    &&& c.diagnostics@.len() == 0
    &&& c.snapshots@.len() == 0
}

/// `next` is the context that `optimize` hands on after `call`, a call
/// of the pass named `name` that returned `Ok` and left a valid plan: the
/// call's final context with the result's diagnostics appended (then,
/// after `fusion-discovery` only, those of the fusion candidates), and one
/// snapshot added, named after the pass, whose text is the plan's
/// `explain` text (followed, after `fusion-discovery` only, by the
/// candidates' lines); the annotations are left as they were.
pub open spec fn recorded_pass<P: PlanPayload>(call: PassCall<P>, name: Seq<char>, next: OptimizerContext) -> bool {
    match call.result {
        Ok(res) => {
            let own = diagnostics_view(call.final_context.diagnostics@) + diagnostics_view(
                res.diagnostics@,
            );
            let explained = explain_text(
                call.final_plan.spec_nodes(),
                call.final_plan.spec_root().unwrap().0,
            );
            let snapshot = next.snapshots@.last();
            &&& call.final_plan.valid()
            &&& next.spec_annotations() == call.final_context.spec_annotations()
            &&& own.is_prefix_of(diagnostics_view(next.diagnostics@))
            &&& name != "fusion-discovery"@ ==> diagnostics_view(next.diagnostics@) == own
            &&& next.snapshots@.len() == call.final_context.snapshots@.len() + 1
            &&& next.snapshots@.drop_last() == call.final_context.snapshots@
            &&& snapshot.0@ == name
            &&& explained.is_prefix_of(snapshot.1@)
            &&& name != "fusion-discovery"@ ==> snapshot.1@ == explained
        },
        Err(_) => false,
    }
}

/// Call `j` of `calls` follows call `j - 1`: it starts from the plan that
/// call left and the context `optimize` handed on after it.
pub open spec fn optimize_link<P: PlanPayload>(names: Seq<&'static str>, calls: Seq<PassCall<P>>, j: int) -> bool {
    &&& calls[j].plan == calls[j - 1].final_plan
    &&& recorded_pass(calls[j - 1], names[j - 1]@, calls[j].context)
}

/// `calls` are the first calls that `optimize` makes from `plan`, one per
/// pass of `passes` in order, and `names` the names those passes gave:
/// the first call starts from `plan` and a fresh context, each is a call
/// its pass allows, and each after the first follows the one before it.
pub open spec fn optimize_trace<P: PlanPayload>(
    passes: Seq<Box<dyn OptimizerPass<P>>>,
    names: Seq<&'static str>,
    calls: Seq<PassCall<P>>,
    plan: LogicalPlan<P>,
) -> bool {
    &&& calls.len() <= passes.len()
    &&& names.len() == calls.len()
    &&& calls.len() > 0 ==> calls[0].plan == plan && fresh_context(calls[0].context)
    &&& forall|j: int|
        #![trigger calls[j]]
        0 <= j < calls.len() ==> passes[j].run_post(
            calls[j].plan,
            calls[j].context,
            calls[j].final_plan,
            calls[j].final_context,
            calls[j].result,
        )
    &&& forall|j: int|
        0 <= j < calls.len() ==> (#[trigger] passes[j].spec_name() matches Some(n) ==> names[j]@ == n)
    &&& forall|j: int| 1 <= j < calls.len() ==> #[trigger] optimize_link(names, calls, j)
}

/// How the call `call` of the pass named `name` made `optimize` fail with
/// `e`: the pass returned `Err(m)` and `e` carries the pass's name and
/// `m`; or it returned `Ok` but left an invalid plan, and `e` carries the
/// pass's name and the validation error; or it was `fusion-discovery`,
/// left a valid plan, and one of `rules`, asked about that plan and the
/// call's annotations, returned `Err(m)`, and `e` carries `m` and the
/// rule's name.
pub open spec fn optimize_failure<P>(
    call: PassCall<P>,
    name: Seq<char>,
    rules: Seq<Box<dyn FusionRule<P>>>,
    e: OptimizerError,
) -> bool {
    match call.result {
        Err(m) => e matches OptimizerError::Pass { pass, message } && pass@ == name && message == m,
        Ok(_) => if !call.final_plan.valid() {
            e matches OptimizerError::Pass { pass, message } && pass@ == name && exists|v: PlanError|
                call.final_plan.validate_error(v) && message@ == plan_error_text(v)
        } else {
            &&& name == "fusion-discovery"@
            &&& exists|k: int, m: String|
                {
                    &&& 0 <= k < rules.len()
                    &&& #[trigger] rules[k].discover_post(
                        call.final_plan,
                        call.final_context.annotations,
                        Err(m),
                    )
                    &&& e matches OptimizerError::Pass { pass, message }
                    &&& message == m
                    &&& rules[k].spec_name() matches Some(n) ==> pass@ == n
                }
        },
    }
}

/// Before call `k` of an `optimize` trace whose passes leave the snapshots
/// alone, the context holds one snapshot per earlier pass, named after it.
proof fn lemma_snapshots_before<P: PlanPayload>(
    passes: Seq<Box<dyn OptimizerPass<P>>>,
    names: Seq<&'static str>,
    calls: Seq<PassCall<P>>,
    plan: LogicalPlan<P>,
    k: int,
)
    requires
        optimize_trace(passes, names, calls, plan),
        0 <= k < calls.len(),
        forall|j: int| 0 <= j < calls.len() ==> #[trigger] calls[j].final_context.snapshots
            == calls[j].context.snapshots,
    ensures
        calls[k].context.snapshots@.len() == k,
        forall|i: int| 0 <= i < k ==> #[trigger] calls[k].context.snapshots@[i].0@ == names[i]@,
    decreases k,
{
    if k > 0 {
        lemma_snapshots_before(passes, names, calls, plan, k - 1);
        assert(optimize_link(names, calls, k));
        let before = calls[k - 1].final_context.snapshots@;
        let after = calls[k].context.snapshots@;
        assert(before == calls[k - 1].context.snapshots@);
        assert forall|i: int| 0 <= i < k implies #[trigger] after[i].0@ == names[i]@ by {
            if i < k - 1 {
                assert(after.drop_last()[i] == after[i]);
            }
        }
    }
}

/// One snapshot per pass: when no pass of a successful `optimize` run
/// touches the snapshots itself, the context it returns holds exactly one
/// snapshot per pass, in registration order, each named after its pass.
pub proof fn law_one_snapshot_per_pass<P: PlanPayload>(
    passes: Seq<Box<dyn OptimizerPass<P>>>,
    names: Seq<&'static str>,
    calls: Seq<PassCall<P>>,
    plan: LogicalPlan<P>,
    context: OptimizerContext,
)
    requires
        optimize_trace(passes, names, calls, plan),
        calls.len() > 0,
        recorded_pass(calls.last(), names.last()@, context),
        forall|j: int| 0 <= j < calls.len() ==> #[trigger] calls[j].final_context.snapshots
            == calls[j].context.snapshots,
    ensures
        context.snapshots@.len() == calls.len(),
        forall|i: int| 0 <= i < calls.len() ==> #[trigger] context.snapshots@[i].0@ == names[i]@,
{
    let k = calls.len() - 1;
    lemma_snapshots_before(passes, names, calls, plan, k);
    let after = context.snapshots@;
    assert(calls[k].final_context.snapshots == calls[k].context.snapshots);
    assert forall|i: int| 0 <= i < calls.len() implies #[trigger] after[i].0@ == names[i]@ by {
        if i < k {
            assert(after.drop_last()[i] == after[i]);
        }
    }
}

/// Run the ordered pass list once. Each pass is followed by structural
/// validation and a snapshot, making rewrites inspectable in `explain`
/// output. Right after a pass named `fusion-discovery`, every registered
/// fusion rule is asked for candidates; each candidate is recorded as a
/// diagnostic and as a line appended to that pass's snapshot.
///
/// On success every pass was called once, in registration order, each on
/// the plan the one before it left; `passes_run` lists their names in that
/// order, and each call was recorded as `recorded_pass` says. On failure
/// the passes before the failing one ran in the same way, and the failing
/// call is described by `optimize_failure`.
pub fn optimize<P: PlanPayload>(plan: &mut LogicalPlan<P>, registry: &PlanRegistry<P>) -> (r: Result<
    (OptimizerContext, OptimizationReport),
    OptimizerError,
>)
    ensures
        registry.spec_passes().len() == 0 ==> r is Ok,
        r matches Ok((context, report)) ==> {
            &&& report.iterations == 1
            &&& diagnostics_view(report.diagnostics@) == diagnostics_view(context.diagnostics@)
            &&& report.passes_run@.len() == registry.spec_passes().len()
            &&& exists|calls: Seq<PassCall<P>>|
                {
                    &&& #[trigger] optimize_trace(
                        registry.spec_passes(),
                        report.passes_run@,
                        calls,
                        *old(plan),
                    )
                    &&& calls.len() == registry.spec_passes().len()
                    &&& calls.len() > 0 ==> *final(plan) == calls.last().final_plan && recorded_pass(
                        calls.last(),
                        report.passes_run@.last()@,
                        context,
                    )
                }
            &&& registry.spec_passes().len() == 0 ==> *final(plan) == *old(plan) && fresh_context(
                context,
            )
        },
        r matches Err(e) ==> exists|calls: Seq<PassCall<P>>, names: Seq<&'static str>|
            {
                &&& #[trigger] optimize_trace(registry.spec_passes(), names, calls, *old(plan))
                &&& calls.len() > 0
                &&& forall|j: int| 0 <= j < calls.len() - 1 ==> #[trigger] calls[j].result is Ok
                &&& *final(plan) == calls.last().final_plan
                &&& optimize_failure(calls.last(), names.last()@, registry.spec_fusion_rules(), e)
            },
{
    let mut context = OptimizerContext::new();
    let mut passes_run: Vec<&'static str> = Vec::new();
    let mut fusion_candidates: Vec<FusionCandidate> = Vec::new();
    let passes = registry.passes.as_slice();
    let ghost mut calls: Seq<PassCall<P>> = Seq::empty();
    let mut i: usize = 0;
    while i < passes.len()
        invariant
            passes@ == registry.passes@,
            0 <= i <= passes@.len(),
            calls.len() == i,
            optimize_trace(passes@, passes_run@, calls, *old(plan)),
            forall|j: int| 0 <= j < calls.len() ==> #[trigger] calls[j].result is Ok,
            i > 0 ==> *plan == calls.last().final_plan && recorded_pass(
                calls.last(),
                passes_run@.last()@,
                context,
            ),
            i == 0 ==> *plan == *old(plan) && fresh_context(context),
        decreases passes@.len() - i,
    {
        let pass = &passes[i];
        assert(*pass == passes@[i as int]);
        let name = pass.name();
        let ghost plan_before = *plan;
        let ghost context_before = context;
        let outcome = pass.run(plan, &mut context);
        let ghost call = PassCall {
            plan: plan_before,
            context: context_before,
            final_plan: *plan,
            final_context: context,
            result: outcome,
        };
        let ghost trace = calls.push(call);
        let ghost names = passes_run@.push(name);
        proof {
            assert(passes@[i as int].run_post(plan_before, context_before, call.final_plan, call.final_context, outcome));
            assert forall|j: int|
                #![trigger trace[j]]
                0 <= j < trace.len() implies passes@[j].run_post(
                trace[j].plan,
                trace[j].context,
                trace[j].final_plan,
                trace[j].final_context,
                trace[j].result,
            ) by {
                if j < i {
                    assert(trace[j] == calls[j]);
                }
            }
            assert forall|j: int|
                0 <= j < trace.len() implies (#[trigger] passes@[j].spec_name() matches Some(n)
                ==> names[j]@ == n) by {
                if j < i {
                    assert(names[j] == passes_run@[j]);
                }
            }
            assert forall|j: int| 1 <= j < trace.len() implies #[trigger] optimize_link(
                names,
                trace,
                j,
            ) by {
                if j < i {
                    assert(optimize_link(passes_run@, calls, j));
                } else {
                    assert(names[j - 1] == passes_run@.last());
                }
            }
            assert(optimize_trace(passes@, names, trace, *old(plan)));
        }
        let result = match outcome {
            Ok(result) => result,
            Err(message) => {
                let e = pass_error(name, message);
                proof {
                    assert(optimize_failure(trace.last(), names.last()@, registry.spec_fusion_rules(), e));
                    assert forall|j: int| 0 <= j < trace.len() - 1 implies #[trigger] trace[j].result is Ok by {
                        assert(trace[j] == calls[j]);
                    }
                    assert(*plan == trace.last().final_plan);
                    assert(optimize_trace(registry.spec_passes(), names, trace, *old(plan)));
                }
                return Err(e);
            },
        };
        match plan.validate() {
            Ok(()) => {},
            Err(error) => {
                let e = plan_failure(name, error);
                proof {
                    assert(optimize_failure(trace.last(), names.last()@, registry.spec_fusion_rules(), e));
                    assert forall|j: int| 0 <= j < trace.len() - 1 implies #[trigger] trace[j].result is Ok by {
                        assert(trace[j] == calls[j]);
                    }
                    assert(*plan == trace.last().final_plan);
                    assert(optimize_trace(registry.spec_passes(), names, trace, *old(plan)));
                }
                return Err(e);
            },
        }
        let mut fusion_snapshot = String::new();
        let mut fusion_diagnostics: Vec<Diagnostic> = Vec::new();
        let fusion = runs_fusion_rules(name);
        if fusion {
            let rules = registry.fusion_rules.as_slice();
            let mut k: usize = 0;
            #[verifier::loop_isolation(false)]
            while k < rules.len()
                invariant
                    0 <= k <= rules@.len(),
                    i < passes@.len(),
                    passes@ == registry.passes@,
                decreases rules@.len() - k,
            {
                let rule = &rules[k];
                assert(*rule == rules@[k as int]);
                let rule_name = rule.name();
                let found = rule.discover(plan, &context.annotations);
                let ghost outcome_found = found;
                let mut candidates = match found {
                    Ok(candidates) => candidates,
                    Err(message) => {
                        let e = pass_error(rule_name, message);
                        proof {
                            assert(rules@[k as int].discover_post(
                                trace.last().final_plan,
                                trace.last().final_context.annotations,
                                outcome_found,
                            ));
                            assert(optimize_failure(trace.last(), names.last()@, registry.spec_fusion_rules(), e));
                            assert forall|j: int| 0 <= j < trace.len() - 1 implies #[trigger] trace[j].result is Ok by {
                                assert(trace[j] == calls[j]);
                            }
                            assert(*plan == trace.last().final_plan);
                            assert(optimize_trace(registry.spec_passes(), names, trace, *old(plan)));
                        }
                        return Err(e);
                    },
                };
                let mut c: usize = 0;
                while c < candidates.len()
                    invariant
                        0 <= c <= candidates@.len(),
                    decreases candidates@.len() - c,
                {
                    record_candidate(&mut fusion_snapshot, &mut fusion_diagnostics, &candidates[c]);
                    c += 1;
                }
                fusion_candidates.append(&mut candidates);
                k += 1;
            }
        }
        let explain = match plan.explain() {
            Ok(text) => text,
            Err(error) => {
                return Err(plan_failure(name, error));
            },
        };
        let ghost explained = explain@;
        let ghost own = diagnostics_view(context.diagnostics@) + diagnostics_view(result.diagnostics@);
        let ghost fusion_view = diagnostics_view(fusion_diagnostics@);
        let ghost lines = fusion_snapshot@;
        let ghost snapshots_before = context.snapshots@;
        record_pass(&mut context, &mut passes_run, name, result, fusion_diagnostics, explain, fusion_snapshot);
        proof {
            assert(passes_run@ == names);
            assert(explained.is_prefix_of(context.snapshots@.last().1@)) by {
                assert(context.snapshots@.last().1@.subrange(0, explained.len() as int) =~= explained);
            }
            assert(own.is_prefix_of(diagnostics_view(context.diagnostics@))) by {
                assert(diagnostics_view(context.diagnostics@).subrange(0, own.len() as int) =~= own);
            }
            if !fusion {
                assert(fusion_view =~= Seq::<DiagnosticV>::empty());
                assert(diagnostics_view(context.diagnostics@) =~= own);
                assert(context.snapshots@.last().1@ =~= explained);
            }
            assert(context.snapshots@.drop_last() =~= snapshots_before);
            assert(recorded_pass(call, name@, context));
            calls = trace;
        }
        i += 1;
    }
    let diagnostics = clone_diagnostics(&context.diagnostics);
    let report = OptimizationReport {
        passes_run,
        diagnostics,
        iterations: 1,
        fusion_candidates,
    };
    Ok((context, report))
}

/// What the fixed-point loop does after a call of the pass.
#[derive(Clone, Copy, Debug, PartialEq, Eq, Structural)]
pub enum FixedPointStep {
    /// The pass reported no change at this (1-based) call: stop with it.
    Converged(usize),
    /// The pass changed the plan and calls remain: call it again.
    Again,
    /// The pass changed the plan at the last allowed call.
    Exhausted(usize),
}

pub open spec fn fixed_point_step_spec(changed: bool, iteration: nat, max_iterations: nat) -> FixedPointStep {
    if !changed {
        FixedPointStep::Converged(iteration as usize)
    } else if iteration >= max_iterations {
        FixedPointStep::Exhausted(max_iterations as usize)
    } else {
        FixedPointStep::Again
    }
}

/// The decision after call number `iteration` (from 1) of at most
/// `max_iterations`, given whether that call changed the plan.
pub fn fixed_point_step(changed: bool, iteration: usize, max_iterations: usize) -> (r: FixedPointStep)
    ensures
        r == fixed_point_step_spec(changed, iteration as nat, max_iterations as nat),
{
    if !changed {
        FixedPointStep::Converged(iteration)
    } else if iteration >= max_iterations {
        FixedPointStep::Exhausted(max_iterations)
    } else {
        FixedPointStep::Again
    }
}

/// The outcome of the loop from call `i` on, when the calls report the
/// changes `changed` in turn: `Ok(k)` for convergence at call `k`,
/// `Err(m)` for the limit `m`; `None` when more results are needed.
pub open spec fn fixed_point_from(changed: Seq<bool>, max_iterations: usize, i: nat) -> Option<Result<nat, nat>>
    decreases changed.len() + 1 - i,
{
    if max_iterations == 0 {
        Some(Err(0))
    } else if i == 0 || i > changed.len() {
        None
    } else {
        match fixed_point_step_spec(changed[i - 1], i, max_iterations as nat) {
            FixedPointStep::Converged(k) => Some(Ok(k as nat)),
            FixedPointStep::Exhausted(m) => Some(Err(m as nat)),
            FixedPointStep::Again => fixed_point_from(changed, max_iterations, i + 1),
        }
    }
}

/// The fixed-point law: when the calls report the changes `changed`, the
/// loop stops at the first call that reports none, if that comes within
/// the limit; otherwise it gives up after exactly `max_iterations` calls
/// that all changed the plan.
pub proof fn law_fixed_point(changed: Seq<bool>, max_iterations: usize, k: nat)
    requires
        1 <= k <= changed.len(),
        max_iterations > 0,
        forall|j: int| 0 <= j < k - 1 ==> #[trigger] changed[j],
        !changed[k - 1] || k == max_iterations,
        k <= max_iterations,
    ensures
        fixed_point_from(changed, max_iterations, 1) == if !changed[k - 1] {
            Some(Ok::<nat, nat>(k))
        } else {
            Some(Err::<nat, nat>(max_iterations as nat))
        },
{
    lemma_fixed_point_from(changed, max_iterations, 1, k);
}

proof fn lemma_fixed_point_from(changed: Seq<bool>, max_iterations: usize, i: nat, k: nat)
    requires
        1 <= i <= k <= changed.len(),
        max_iterations > 0,
        forall|j: int| 0 <= j < k - 1 ==> #[trigger] changed[j],
        !changed[k - 1] || k == max_iterations,
        k <= max_iterations,
    ensures
        fixed_point_from(changed, max_iterations, i) == if !changed[k - 1] {
            Some(Ok::<nat, nat>(k))
        } else {
            Some(Err::<nat, nat>(max_iterations as nat))
        },
    decreases k - i,
{
    if i < k {
        assert(changed[i - 1]);
        lemma_fixed_point_from(changed, max_iterations, i + 1, k);
    }
}

/// Takes in the result of one call of the pass: its diagnostics are
/// appended to the context in order, and whether it changed the plan is
/// returned.
pub fn absorb_result(context: &mut OptimizerContext, result: PassResult) -> (changed: bool)
    ensures
        changed == result.changed,
        diagnostics_view(final(context).diagnostics@) == diagnostics_view(old(context).diagnostics@)
            + diagnostics_view(result.diagnostics@),
        final(context).snapshots == old(context).snapshots,
        final(context).spec_annotations() == old(context).spec_annotations(),
{
    let ghost before = diagnostics_view(context.diagnostics@);
    let changed = result.changed;
    let mut own = result.diagnostics;
    let ghost own_view = diagnostics_view(own@);
    context.diagnostics.append(&mut own);
    assert(diagnostics_view(context.diagnostics@) =~= before + own_view);
    changed
}

/// `next` is the context that the fixed-point loop hands on after `call`,
/// a call that returned `Ok`: the call's final context with the result's
/// diagnostics appended, snapshots and annotations as they were.
pub open spec fn absorbed<P>(call: PassCall<P>, next: OptimizerContext) -> bool {
    match call.result {
        Ok(res) => {
            &&& diagnostics_view(next.diagnostics@) == diagnostics_view(call.final_context.diagnostics@)
                + diagnostics_view(res.diagnostics@)
            &&& next.snapshots == call.final_context.snapshots
            &&& next.spec_annotations() == call.final_context.spec_annotations()
        },
        Err(_) => false,
    }
}

/// Call `j` of `calls` follows call `j - 1` in the fixed-point loop: that
/// call changed the plan and left it valid, and call `j` starts from that
/// plan and from the context with its diagnostics absorbed.
pub open spec fn fixed_point_link<P>(calls: Seq<PassCall<P>>, j: int) -> bool {
    &&& call_changed(calls[j - 1])
    &&& calls[j - 1].final_plan.valid()
    &&& calls[j].plan == calls[j - 1].final_plan
    &&& absorbed(calls[j - 1], calls[j].context)
}

/// `calls` are calls that the fixed-point loop makes one after another
/// from `plan` and `context`: the first starts from them, and each after
/// the first follows the one before it. (That each is a call its pass
/// allows is stated beside this, where the pass is named.)
pub open spec fn fixed_point_trace<P>(calls: Seq<PassCall<P>>, plan: LogicalPlan<P>, context: OptimizerContext) -> bool {
    &&& calls.len() > 0 ==> calls[0].plan == plan && calls[0].context == context
    &&& forall|j: int| 1 <= j < calls.len() ==> #[trigger] fixed_point_link(calls, j)
}

/// Whether each call of `calls` changed the plan.
pub open spec fn changes_of<P>(calls: Seq<PassCall<P>>) -> Seq<bool> {
    calls.map_values(|c: PassCall<P>| call_changed(c))
}

/// How the call `call` made the fixed-point loop fail with `e`, leaving
/// the context `final_context`: the pass returned `Err(m)`, and `e` is a
/// `Pass` error carrying `m`; or it returned `Ok` but left an invalid plan,
/// its diagnostics were absorbed, and `e` is a `Pass` error carrying the
/// validation error. (The name that `e` carries is stated beside this,
/// where the pass is named.)
pub open spec fn fixed_point_failure<P>(call: PassCall<P>, final_context: OptimizerContext, e: OptimizerError) -> bool {
    &&& e is Pass
    &&& match call.result {
        Err(m) => e->message == m && final_context == call.final_context,
        Ok(_) => {
            &&& !call.final_plan.valid()
            &&& absorbed(call, final_context)
            &&& exists|v: PlanError| call.final_plan.validate_error(v) && e->message@ == plan_error_text(v)
        },
    }
}

/// Iterate a rewrite pass to a fixed point, stopping on the first unchanged
/// iteration and returning an explicit error on the configured limit. The
/// plan is validated after every iteration and each iteration's diagnostics
/// are appended to the context. Each call's result is taken in by
/// `absorb_result` and the next step decided by `fixed_point_step`.
///
/// With a limit above zero, the calls made are a `fixed_point_trace`: all
/// but the last changed the plan; `Ok(k)` means the `k`-th call was the
/// first to change nothing; `NonConvergent` means every one of the
/// `max_iterations` calls changed the plan; in both, the outcome is the
/// one `fixed_point_from` gives for the calls' changes.
pub fn run_fixed_point<P>(
    plan: &mut LogicalPlan<P>,
    pass: &dyn OptimizerPass<P>,
    context: &mut OptimizerContext,
    max_iterations: usize,
) -> (r: Result<usize, OptimizerError>)
    ensures
        max_iterations == 0 ==> (r matches Err(OptimizerError::NonConvergent { iterations })
            && iterations == 0 && *final(plan) == *old(plan) && *final(context) == *old(context)),
        max_iterations > 0 ==> exists|calls: Seq<PassCall<P>>|
            {
                &&& #[trigger] fixed_point_trace(calls, *old(plan), *old(context))
                &&& forall|j: int|
                    #![trigger calls[j]]
                    0 <= j < calls.len() ==> pass.run_post(
                        calls[j].plan,
                        calls[j].context,
                        calls[j].final_plan,
                        calls[j].final_context,
                        calls[j].result,
                    )
                &&& 1 <= calls.len() <= max_iterations
                &&& *final(plan) == calls.last().final_plan
                &&& match r {
                    Ok(k) => {
                        &&& k == calls.len()
                        &&& calls.last().result is Ok && !call_changed(calls.last())
                        &&& calls.last().final_plan.valid()
                        &&& absorbed(calls.last(), *final(context))
                        &&& fixed_point_from(changes_of(calls), max_iterations, 1) == Some(
                            Ok::<nat, nat>(k as nat),
                        )
                    },
                    Err(OptimizerError::NonConvergent { iterations }) => {
                        &&& iterations == max_iterations
                        &&& calls.len() == max_iterations
                        &&& call_changed(calls.last())
                        &&& calls.last().final_plan.valid()
                        &&& absorbed(calls.last(), *final(context))
                        &&& fixed_point_from(changes_of(calls), max_iterations, 1) == Some(
                            Err::<nat, nat>(max_iterations as nat),
                        )
                    },
                    Err(e) => {
                        &&& fixed_point_failure(calls.last(), *final(context), e)
                        &&& pass.spec_name() matches Some(n) ==> e->pass@ == n
                    },
                }
            },
{
    if max_iterations == 0 {
        return Err(OptimizerError::NonConvergent { iterations: max_iterations });
    }
    let ghost mut calls: Seq<PassCall<P>> = Seq::empty();
    let mut iteration: usize = 0;
    loop
        invariant
            0 <= iteration < max_iterations,
            calls.len() == iteration,
            fixed_point_trace(calls, *old(plan), *old(context)),
            forall|j: int|
                #![trigger calls[j]]
                0 <= j < calls.len() ==> pass.run_post(
                    calls[j].plan,
                    calls[j].context,
                    calls[j].final_plan,
                    calls[j].final_context,
                    calls[j].result,
                ),
            iteration > 0 ==> {
                &&& call_changed(calls.last())
                &&& calls.last().final_plan.valid()
                &&& *plan == calls.last().final_plan
                &&& absorbed(calls.last(), *context)
            },
            iteration == 0 ==> *plan == *old(plan) && *context == *old(context),
        decreases max_iterations - iteration,
    {
        iteration += 1;
        let name = pass.name();
        let ghost plan_before = *plan;
        let ghost context_before = *context;
        let outcome = pass.run(plan, context);
        let ghost call = PassCall {
            plan: plan_before,
            context: context_before,
            final_plan: *plan,
            final_context: *context,
            result: outcome,
        };
        let ghost trace = calls.push(call);
        proof {
            assert(trace.last() == call);
            assert forall|j: int|
                #![trigger trace[j]]
                0 <= j < trace.len() implies pass.run_post(
                trace[j].plan,
                trace[j].context,
                trace[j].final_plan,
                trace[j].final_context,
                trace[j].result,
            ) by {
                if j < calls.len() {
                    assert(trace[j] == calls[j]);
                } else {
                    assert(trace[j] == call);
                }
            }
            assert forall|j: int| 1 <= j < trace.len() implies #[trigger] fixed_point_link(trace, j) by {
                if j < calls.len() {
                    assert(fixed_point_link(calls, j));
                }
            }
            assert(fixed_point_trace(trace, *old(plan), *old(context)));
            assert forall|j: int| 0 <= j < trace.len() - 1 implies #[trigger] changes_of(trace)[j] by {
                assert(fixed_point_link(trace, j + 1));
            }
        }
        let result = match outcome {
            Ok(result) => result,
            Err(message) => {
                let e = pass_error(name, message);
                proof {
                    assert(fixed_point_failure(trace.last(), *context, e));
                }
                return Err(e);
            },
        };
        let changed = absorb_result(context, result);
        proof {
            assert(absorbed(call, *context));
        }
        match plan.validate() {
            Ok(()) => {},
            Err(error) => {
                let e = plan_failure(name, error);
                proof {
                    assert(fixed_point_failure(trace.last(), *context, e));
                }
                return Err(e);
            },
        }
        match fixed_point_step(changed, iteration, max_iterations) {
            FixedPointStep::Converged(k) => {
                proof {
                    lemma_fixed_point_from(changes_of(trace), max_iterations, 1, k as nat);
                }
                return Ok(k);
            },
            FixedPointStep::Exhausted(m) => {
                proof {
                    lemma_fixed_point_from(changes_of(trace), max_iterations, 1, m as nat);
                }
                return Err(OptimizerError::NonConvergent { iterations: m });
            },
            FixedPointStep::Again => {
                proof {
                    calls = trace;
                }
            },
        }
    }
}

} // verus!
