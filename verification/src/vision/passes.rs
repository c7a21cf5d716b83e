//! The vision domain's planning passes, fusion rule and physical
//! candidates, over vision logical plans.

use vstd::prelude::*;
use crate::optimizer::{
    Diagnostic, DiagnosticV, FusionCandidate, FusionCandidateV, FusionRule, OptimizerContext, OptimizerPass,
    PassResult, PhysicalCandidate, PhysicalCandidateProvider, PlanPlugin, diagnostics_view, plan_error_message,
    plan_error_text,
};
use crate::properties::PropertyInference;
use crate::plan::{
    LogicalNode, LogicalPlan, NodeId, NodeKind, PlanError, depth_first, pruned_plan,
    consumers, lemma_redirect_all_push, pruned_id, redirect_all,
};
use crate::properties::{PropertyAnnotations, ValueProperties, ValuePropertiesV, annotations_of, inferred_prefix};
use crate::text::{decimal, owned, push_decimal};
use crate::vision::image_op::ImageOp;
use crate::vision::inference::VisionPropertyInference;
use crate::vision::logical::VisionPayload;
use crate::vision::pipeline::{inference_error_message, inference_error_text};
use crate::vision::planner::{
    crop_resize_candidate, crop_resize_reason, flip_commutes_spec, flip_normalize_candidate,
    flip_normalize_reason, identity_layout_spec, index_pushdown, is_identity_layout,
    normalize_layout_candidate, normalize_layout_legal_spec, normalize_layout_reason,
    physical_candidate, physical_candidate_spec, pushdown_error_text, pushdown_message,
    pushdown_message_spec, pushdown_spec, rewrite_code_spec, rewrite_diagnostic,
    rewrite_message_spec, semantic_rewrite, semantic_rewrite_spec, SemanticRewrite,
};

verus! {

/// Infers and records the properties of every node; fails on a node whose
/// properties cannot be inferred.
pub struct InferProperties(pub VisionPropertyInference);

impl OptimizerPass<VisionPayload> for InferProperties {
    open spec fn spec_name(&self) -> Option<Seq<char>> {
        Some("property-inference-validation"@)
    }

    open spec fn run_post(
        &self,
        plan: LogicalPlan<VisionPayload>,
        context: OptimizerContext,
        final_plan: LogicalPlan<VisionPayload>,
        final_context: OptimizerContext,
        r: Result<PassResult, String>,
    ) -> bool {
        &&& final_plan == plan
        &&& !plan.valid() ==> r is Err
        &&& r matches Ok(res) ==> !res.changed && res.diagnostics@.len() == 0
        &&& r is Err ==> final_context.spec_annotations() == context.spec_annotations()
    }

    fn name(&self) -> (r: &'static str)
        ensures
            r@ == "property-inference-validation"@,
    {
        proof {
            reveal_strlit("property-inference-validation");
        }
        "property-inference-validation"
    }

    fn run(&self, plan: &mut LogicalPlan<VisionPayload>, context: &mut OptimizerContext) -> (r: Result<
        PassResult,
        String,
    >)
        ensures
            *final(plan) == *old(plan),
            r is Ok <==> old(plan).valid() && inferred_prefix(
                self.0,
                old(plan).spec_nodes(),
                old(plan).spec_nodes().len(),
            ) is Some,
            r matches Ok(res) ==> !res.changed && res.diagnostics@.len() == 0
                && final(context).spec_annotations() == annotations_of(
                inferred_prefix(self.0, old(plan).spec_nodes(), old(plan).spec_nodes().len()).unwrap(),
            ),
            r is Err ==> final(context).spec_annotations() == old(context).spec_annotations(),
    {
        match plan.infer_properties(&self.0) {
            Ok(properties) => {
                context.set_annotations(properties);
                Ok(PassResult::unchanged())
            },
            Err(e) => Err(inference_error_message(e)),
        }
    }
}

/// Marks the point where registered fusion rules run; changes nothing.
pub struct FusionDiscovery;

impl OptimizerPass<VisionPayload> for FusionDiscovery {
    open spec fn spec_name(&self) -> Option<Seq<char>> {
        Some("fusion-discovery"@)
    }

    open spec fn run_post(
        &self,
        plan: LogicalPlan<VisionPayload>,
        context: OptimizerContext,
        final_plan: LogicalPlan<VisionPayload>,
        final_context: OptimizerContext,
        r: Result<PassResult, String>,
    ) -> bool {
        &&& final_plan == plan
        &&& final_context == context
        &&& r matches Ok(res) && !res.changed && res.diagnostics@.len() == 0
    }

    fn name(&self) -> (r: &'static str)
        ensures
            r@ == "fusion-discovery"@,
    {
        proof {
            reveal_strlit("fusion-discovery");
        }
        "fusion-discovery"
    }

    fn run(&self, plan: &mut LogicalPlan<VisionPayload>, context: &mut OptimizerContext) -> (r: Result<
        PassResult,
        String,
    >)
        ensures
            *final(plan) == *old(plan),
            *final(context) == *old(context),
            r matches Ok(res) && !res.changed && res.diagnostics@.len() == 0,
    {
        Ok(PassResult::unchanged())
    }
}

/// Removes the nodes that the root does not reach, renumbering the rest;
/// annotations are dropped when any node moved or went away.
pub struct EliminateDeadNodes;

impl OptimizerPass<VisionPayload> for EliminateDeadNodes {
    open spec fn spec_name(&self) -> Option<Seq<char>> {
        Some("dead-node-elimination"@)
    }

    open spec fn run_post(
        &self,
        plan: LogicalPlan<VisionPayload>,
        context: OptimizerContext,
        final_plan: LogicalPlan<VisionPayload>,
        final_context: OptimizerContext,
        r: Result<PassResult, String>,
    ) -> bool {
        &&& (r is Ok <==> plan.valid())
        &&& (r is Err ==> final_plan == plan && final_context == context)
        &&& (r matches Ok(res) ==> {
            let nodes = plan.spec_nodes();
            let root = plan.spec_root().unwrap();
            &&& res.diagnostics@.len() == 0
            &&& final_plan.valid()
            &&& final_plan.spec_root() is Some
            &&& pruned_plan(nodes, root, final_plan.spec_nodes(), final_plan.spec_root().unwrap())
            &&& final_plan.spec_context() == plan.spec_context()
            &&& res.changed <==> exists|i: int|
                0 <= i < nodes.len() && #[trigger] pruned_id(nodes, root, i) != Some(NodeId(i as usize))
            &&& res.changed ==> final_context.spec_annotations() == Map::<usize, ValuePropertiesV>::empty()
            &&& !res.changed ==> final_context == context
        })
    }

    fn name(&self) -> (r: &'static str)
        ensures
            r@ == "dead-node-elimination"@,
    {
        proof {
            reveal_strlit("dead-node-elimination");
        }
        "dead-node-elimination"
    }

    fn run(&self, plan: &mut LogicalPlan<VisionPayload>, context: &mut OptimizerContext) -> (r: Result<
        PassResult,
        String,
    >)
    {
        let map = match plan.prune_unreachable() {
            Ok(map) => map,
            Err(e) => return Err(plan_error_message(e)),
        };
        let ghost nodes = old(plan).spec_nodes();
        let ghost root = old(plan).spec_root().unwrap();
        let mut changed = false;
        let mut i: usize = 0;
        while i < map.len()
            invariant
                0 <= i <= map@.len(),
                map@.len() == nodes.len(),
                forall|t: int| 0 <= t < nodes.len() ==> #[trigger] map@[t] == pruned_id(nodes, root, t),
                changed <==> exists|t: int| 0 <= t < i && #[trigger] pruned_id(nodes, root, t) != Some(NodeId(t as usize)),
            decreases map@.len() - i,
        {
            let moved = match map[i] {
                None => true,
                Some(id) => id.0 != i,
            };
            proof {
                assert(map@[i as int] == pruned_id(nodes, root, i as int));
            }
            if moved {
                changed = true;
            }
            i += 1;
        }
        if changed {
            context.clear_annotations();
        }
        Ok(PassResult { changed, diagnostics: Vec::new() })
    }
}

/// The rows `index_pushdown` reads: the nodes of `order` from last to
/// first, each with its kind and whether it carries an index operation.
pub open spec fn pushdown_rows(nodes: Seq<LogicalNode<VisionPayload>>, order: Seq<NodeId>) -> Seq<(NodeId, NodeKind, bool)> {
    Seq::new(
        order.len(),
        |j: int|
            {
                let id = order[order.len() - 1 - j];
                (id, nodes[id.0 as int].kind, nodes[id.0 as int].payload matches Some(VisionPayload::Index(_)))
            },
    )
}

/// Checks that index operations come before image operations, so the
/// sampler selects indices before any source read.
pub struct IndexSourcePushdown;

impl OptimizerPass<VisionPayload> for IndexSourcePushdown {
    open spec fn spec_name(&self) -> Option<Seq<char>> {
        Some("source-index-pushdown"@)
    }

    open spec fn run_post(
        &self,
        plan: LogicalPlan<VisionPayload>,
        context: OptimizerContext,
        final_plan: LogicalPlan<VisionPayload>,
        final_context: OptimizerContext,
        r: Result<PassResult, String>,
    ) -> bool {
        &&& (final_plan == plan)
        &&& (!plan.valid() ==> (r matches Err(m) && exists|e: PlanError|
            plan.validate_error(e) && m@ == plan_error_text(e)))
        &&& (plan.valid() ==> {
            let rows = pushdown_rows(
                plan.spec_nodes(),
                depth_first(plan.spec_nodes(), plan.spec_root().unwrap()),
            );
            match pushdown_spec(rows, rows.len()) {
                Ok((count, _)) => (r matches Ok(res) && !res.changed && diagnostics_view(res.diagnostics@)
                    =~= if count > 0 {
                    seq![(DiagnosticV { code: "rewrite.index-source-pushdown"@, message: pushdown_message_spec(count) })]
                } else {
                    Seq::<DiagnosticV>::empty()
                }),
                Err((node, missing)) => (r matches Err(m) && m@ == pushdown_error_text(node, missing)),
            }
        })
    }

    fn name(&self) -> (r: &'static str)
        ensures
            r@ == "source-index-pushdown"@,
    {
        proof {
            reveal_strlit("source-index-pushdown");
        }
        "source-index-pushdown"
    }

    fn run(&self, plan: &mut LogicalPlan<VisionPayload>, context: &mut OptimizerContext) -> (r: Result<
        PassResult,
        String,
    >)
    {
        let order = match plan.preorder() {
            Ok(order) => order,
            Err(e) => return Err(plan_error_message(e)),
        };
        let mut nodes: Vec<(NodeId, NodeKind, bool)> = Vec::new();
        let mut k: usize = order.len();
        while k > 0
            invariant
                0 <= k <= order@.len(),
                forall|i: int| 0 <= i < order@.len() ==> (#[trigger] order@[i]).0 < plan.spec_nodes().len(),
                nodes@ == pushdown_rows(plan.spec_nodes(), order@).subrange(0, order@.len() - k),
            decreases k,
        {
            let id = order[k - 1];
            let node = match plan.node(id) {
                Ok(node) => node,
                Err(e) => return Err(plan_error_message(e)),
            };
            let has_index = match &node.payload {
                Some(VisionPayload::Index(_)) => true,
                _ => false,
            };
            nodes.push((id, node.kind, has_index));
            proof {
                assert(nodes@ =~= pushdown_rows(plan.spec_nodes(), order@).subrange(0, order@.len() - k + 1));
            }
            k -= 1;
        }
        proof {
            assert(nodes@ =~= pushdown_rows(plan.spec_nodes(), order@));
        }
        let count = match index_pushdown(&nodes) {
            Ok(count) => count,
            Err(message) => return Err(message),
        };
        let mut result = PassResult::unchanged();
        if count > 0 {
            proof {
                reveal_strlit("rewrite.index-source-pushdown");
            }
            result = result.diagnostic("rewrite.index-source-pushdown", pushdown_message(count));
            assert(result.diagnostics@.len() == crate::optimizer::diagnostics_view(result.diagnostics@).len());
        }
        Ok(result)
    }
}

/// The annotation recorded for `id`, if any.
pub open spec fn annotation_of(ann: Map<usize, ValuePropertiesV>, id: NodeId) -> Option<ValuePropertiesV> {
    if ann.contains_key(id.0) {
        Some(ann[id.0])
    } else {
        None
    }
}

/// The redirects the identity-layout pass makes over the first `k` nodes
/// of `order`: a layout node whose current first input already has the
/// target axis order hands its consumers to that input.
pub open spec fn layout_redirects(
    nodes: Seq<LogicalNode<VisionPayload>>,
    order: Seq<NodeId>,
    ann: Map<usize, ValuePropertiesV>,
    k: nat,
) -> Seq<(NodeId, NodeId)>
    decreases k,
{
    if k == 0 || k > order.len() {
        Seq::empty()
    } else {
        let rs = layout_redirects(nodes, order, ann, (k - 1) as nat);
        let id = order[k - 1];
        let node = nodes[id.0 as int];
        if node.inputs@.len() > 0 && (node.payload matches Some(VisionPayload::Image(op))
            && identity_layout_spec(op, annotation_of(ann, redirect_all(node.inputs@[0], rs)))) {
            rs.push((id, redirect_all(node.inputs@[0], rs)))
        } else {
            rs
        }
    }
}

/// The diagnostics recorded for a sequence of redirects of layout nodes.
pub open spec fn layout_diagnostics(rs: Seq<(NodeId, NodeId)>) -> Seq<DiagnosticV> {
    rs.map_values(
        |p: (NodeId, NodeId)| (DiagnosticV { code: "rewrite.identity-layout"@, message: identity_layout_message(p.0.0) }),
    )
}

pub open spec fn identity_layout_message(node: usize) -> Seq<char> {
    "removed redundant Layout at node %"@ + decimal(node as nat)
}

/// Removes layout nodes whose input already has the target axis order:
/// their consumers read the input instead.
pub struct EliminateIdentityLayout;

impl OptimizerPass<VisionPayload> for EliminateIdentityLayout {
    open spec fn spec_name(&self) -> Option<Seq<char>> {
        Some("simplify-identity-layout"@)
    }

    open spec fn run_post(
        &self,
        plan: LogicalPlan<VisionPayload>,
        context: OptimizerContext,
        final_plan: LogicalPlan<VisionPayload>,
        final_context: OptimizerContext,
        r: Result<PassResult, String>,
    ) -> bool {
        &&& (r is Ok <==> plan.valid())
        &&& (r is Err ==> final_plan == plan && final_context == context)
        &&& (r matches Ok(res) ==> {
            let nodes = plan.spec_nodes();
            let order = depth_first(nodes, plan.spec_root().unwrap());
            let rs = layout_redirects(nodes, order, context.spec_annotations(), order.len());
            &&& final_plan.valid()
            &&& final_plan.spec_nodes().len() == nodes.len()
            &&& forall|t: int|
                0 <= t < nodes.len() ==> {
                    &&& (#[trigger] final_plan.spec_nodes()[t]).kind == nodes[t].kind
                    &&& final_plan.spec_nodes()[t].payload == nodes[t].payload
                    &&& final_plan.spec_nodes()[t].inputs@ == nodes[t].inputs@.map_values(
                        |x: NodeId| redirect_all(x, rs),
                    )
                }
            &&& final_plan.spec_root() == Some(redirect_all(plan.spec_root().unwrap(), rs))
            &&& final_plan.spec_context() == plan.spec_context()
            &&& res.changed <==> rs.len() > 0
            &&& res.diagnostics@.len() == 0
            &&& diagnostics_view(final_context.diagnostics@) == diagnostics_view(context.diagnostics@)
                + layout_diagnostics(rs)
            &&& final_context.spec_annotations() == if res.changed {
                Map::<usize, ValuePropertiesV>::empty()
            } else {
                context.spec_annotations()
            }
        })
    }

    fn name(&self) -> (r: &'static str)
        ensures
            r@ == "simplify-identity-layout"@,
    {
        proof {
            reveal_strlit("simplify-identity-layout");
        }
        "simplify-identity-layout"
    }

    fn run(&self, plan: &mut LogicalPlan<VisionPayload>, context: &mut OptimizerContext) -> (r: Result<
        PassResult,
        String,
    >)
    {
        let order = match plan.preorder() {
            Ok(order) => order,
            Err(e) => return Err(plan_error_message(e)),
        };
        let ghost nodes = plan.spec_nodes();
        let ghost root = plan.spec_root().unwrap();
        let ghost ann = context.spec_annotations();
        let ghost diags = diagnostics_view(context.diagnostics@);
        let ghost len = nodes.len();
        let mut changed = false;
        let mut i: usize = 0;
        proof {
            assert(forall|t: int| 0 <= t < len ==> nodes[t].inputs@.map_values(|x: NodeId| redirect_all(x, Seq::<(NodeId, NodeId)>::empty())) =~= #[trigger] nodes[t].inputs@);
            assert(layout_diagnostics(Seq::<(NodeId, NodeId)>::empty()) =~= Seq::<DiagnosticV>::empty());
            assert(diags + Seq::<DiagnosticV>::empty() =~= diags);
        }
        while i < order.len()
            invariant
                0 <= i <= order@.len(),
                order@ == depth_first(nodes, root),
                nodes == old(plan).spec_nodes(),
                root == old(plan).spec_root().unwrap(),
                ann == old(context).spec_annotations(),
                diags == diagnostics_view(old(context).diagnostics@),
                len == nodes.len(),
                plan.valid(),
                plan.spec_nodes().len() == len,
                forall|t: int| 0 <= t < order@.len() ==> (#[trigger] order@[t]).0 < len,
                forall|t: int|
                    0 <= t < len ==> {
                        &&& (#[trigger] plan.spec_nodes()[t]).kind == nodes[t].kind
                        &&& plan.spec_nodes()[t].payload == nodes[t].payload
                        &&& plan.spec_nodes()[t].inputs@ == nodes[t].inputs@.map_values(
                            |x: NodeId| redirect_all(x, layout_redirects(nodes, order@, ann, i as nat)),
                        )
                    },
                plan.spec_root() == Some(redirect_all(root, layout_redirects(nodes, order@, ann, i as nat))),
                plan.spec_context() == old(plan).spec_context(),
                context.spec_annotations() == ann,
                diagnostics_view(context.diagnostics@) == diags + layout_diagnostics(
                    layout_redirects(nodes, order@, ann, i as nat),
                ),
                changed <==> layout_redirects(nodes, order@, ann, i as nat).len() > 0,
            decreases order@.len() - i,
        {
            let ghost rs = layout_redirects(nodes, order@, ann, i as nat);
            let id = order[i];
            let node = match plan.node(id) {
                Ok(node) => node,
                Err(e) => return Err(plan_error_message(e)),
            };
            let mut target = false;
            let mut input = id;
            if node.inputs.len() > 0 {
                input = node.inputs[0];
                target = match &node.payload {
                    Some(VisionPayload::Image(op)) => is_identity_layout(op, context.annotations.get(input)),
                    _ => false,
                };
            }
            proof {
                assert(node.inputs@.len() == nodes[id.0 as int].inputs@.len());
                if node.inputs@.len() > 0 {
                    assert(input == redirect_all(nodes[id.0 as int].inputs@[0], rs));
                }
                assert(target == (layout_redirects(nodes, order@, ann, (i + 1) as nat).len() > rs.len()));
            }
            if target {
                proof {
                    assert(plan.spec_nodes()[id.0 as int].inputs@[0] == input);
                    assert(input.0 < id.0);
                }
                let ghost before = plan.spec_nodes();
                match plan.redirect_uses(id, input) {
                    Ok(()) => {},
                    Err(e) => return Err(plan_error_message(e)),
                }
                proof {
                    reveal_strlit("rewrite.identity-layout");
                    reveal_strlit("removed redundant Layout at node %");
                    let rs2 = rs.push((id, input));
                    assert(layout_redirects(nodes, order@, ann, (i + 1) as nat) == rs2);
                    assert forall|t: int| 0 <= t < len implies (#[trigger] plan.spec_nodes()[t]).inputs@ =~= nodes[t].inputs@.map_values(
                        |x: NodeId| redirect_all(x, rs2),
                    ) by {
                        assert forall|j: int| 0 <= j < nodes[t].inputs@.len() implies plan.spec_nodes()[t].inputs@[j] == redirect_all(nodes[t].inputs@[j], rs2) by {
                            lemma_redirect_all_push(nodes[t].inputs@[j], rs, (id, input));
                        }
                    }
                    lemma_redirect_all_push(root, rs, (id, input));
                }
                let mut message = owned("removed redundant Layout at node %");
                push_decimal(&mut message, id.0);
                let ghost dbefore = diagnostics_view(context.diagnostics@);
                context.diagnostics.push(Diagnostic { code: "rewrite.identity-layout", message });
                proof {
                    let rs2 = rs.push((id, input));
                    assert(layout_diagnostics(rs2) =~= layout_diagnostics(rs).push(
                        DiagnosticV { code: "rewrite.identity-layout"@, message: identity_layout_message(id.0) },
                    ));
                    assert(diagnostics_view(context.diagnostics@) =~= dbefore.push(
                        DiagnosticV { code: "rewrite.identity-layout"@, message: identity_layout_message(id.0) },
                    ));
                    assert(diagnostics_view(context.diagnostics@) =~= diags + layout_diagnostics(rs2));
                }
                changed = true;
            } else {
                proof {
                    assert(layout_redirects(nodes, order@, ann, (i + 1) as nat) == rs);
                }
            }
            i += 1;
        }
        if changed {
            context.clear_annotations();
            proof {
                assert(context.spec_annotations() =~= Map::<usize, ValuePropertiesV>::empty());
            }
        }
        Ok(PassResult { changed, diagnostics: Vec::new() })
    }
}

/// `id`'s only consumer is a `Normalize` that reads it as first input.
pub open spec fn feeds_only_normalize_spec(nodes: Seq<LogicalNode<VisionPayload>>, id: NodeId) -> bool {
    let cs = consumers(nodes, id, nodes.len());
    &&& cs.len() == 1
    &&& cs[0].0 < nodes.len()
    &&& nodes[cs[0].0 as int].payload matches Some(VisionPayload::Image(ImageOp::Normalize { .. }))
    &&& nodes[cs[0].0 as int].inputs@.len() > 0
    &&& nodes[cs[0].0 as int].inputs@[0] == id
}

/// The consumers of `id` among the first `n` nodes once the redirects `rs`
/// have been made.
pub open spec fn consumers_after(
    nodes: Seq<LogicalNode<VisionPayload>>,
    rs: Seq<(NodeId, NodeId)>,
    id: NodeId,
    n: nat,
) -> Seq<NodeId>
    decreases n,
{
    if n == 0 || n > nodes.len() {
        Seq::empty()
    } else if nodes[n - 1].inputs@.map_values(|x: NodeId| redirect_all(x, rs)).contains(id) {
        consumers_after(nodes, rs, id, (n - 1) as nat).push(NodeId((n - 1) as usize))
    } else {
        consumers_after(nodes, rs, id, (n - 1) as nat)
    }
}

/// `feeds_only_normalize_spec` of the plan that the redirects `rs` make.
pub open spec fn feeds_normalize_after(
    nodes: Seq<LogicalNode<VisionPayload>>,
    rs: Seq<(NodeId, NodeId)>,
    id: NodeId,
) -> bool {
    let cs = consumers_after(nodes, rs, id, nodes.len());
    &&& cs.len() == 1
    &&& cs[0].0 < nodes.len()
    &&& nodes[cs[0].0 as int].payload matches Some(VisionPayload::Image(ImageOp::Normalize { .. }))
    &&& nodes[cs[0].0 as int].inputs@.len() > 0
    &&& redirect_all(nodes[cs[0].0 as int].inputs@[0], rs) == id
}

/// `nodes` after the redirects `rs`: the same kinds and payloads, each
/// input renamed.
pub open spec fn redirected_nodes(
    cur: Seq<LogicalNode<VisionPayload>>,
    nodes: Seq<LogicalNode<VisionPayload>>,
    rs: Seq<(NodeId, NodeId)>,
) -> bool {
    &&& cur.len() == nodes.len()
    &&& forall|t: int|
        0 <= t < nodes.len() ==> {
            &&& (#[trigger] cur[t]).kind == nodes[t].kind
            &&& cur[t].payload == nodes[t].payload
            &&& cur[t].inputs@ == nodes[t].inputs@.map_values(|x: NodeId| redirect_all(x, rs))
        }
}

proof fn lemma_consumers_after(
    cur: Seq<LogicalNode<VisionPayload>>,
    nodes: Seq<LogicalNode<VisionPayload>>,
    rs: Seq<(NodeId, NodeId)>,
    id: NodeId,
    n: nat,
)
    requires
        redirected_nodes(cur, nodes, rs),
    ensures
        consumers(cur, id, n) == consumers_after(nodes, rs, id, n),
        forall|k: int| 0 <= k < consumers(cur, id, n).len() ==> (#[trigger] consumers(cur, id, n)[k]).0 < n,
    decreases n,
{
    if n > 0 && n <= nodes.len() {
        lemma_consumers_after(cur, nodes, rs, id, (n - 1) as nat);
        assert(cur[n - 1].inputs@ == nodes[n - 1].inputs@.map_values(|x: NodeId| redirect_all(x, rs)));
    }
}

/// The pairs `(from, to)` of a list of rewrites.
pub open spec fn rewrite_pairs(rs: Seq<(NodeId, NodeId, SemanticRewrite)>) -> Seq<(NodeId, NodeId)> {
    rs.map_values(|r: (NodeId, NodeId, SemanticRewrite)| (r.0, r.1))
}

/// The rewrites the semantic pass makes over the first `k` nodes of
/// `order`: each node that `semantic_rewrite_spec` rewrites, given its
/// current first input and the plan as the earlier rewrites left it, hands
/// its consumers to that input.
pub open spec fn semantic_rewrites(
    nodes: Seq<LogicalNode<VisionPayload>>,
    order: Seq<NodeId>,
    ann: Map<usize, ValuePropertiesV>,
    workers: nat,
    k: nat,
) -> Seq<(NodeId, NodeId, SemanticRewrite)>
    decreases k,
{
    if k == 0 || k > order.len() {
        Seq::empty()
    } else {
        let rs = semantic_rewrites(nodes, order, ann, workers, (k - 1) as nat);
        let pairs = rewrite_pairs(rs);
        let id = order[k - 1];
        let node = nodes[id.0 as int];
        if node.inputs@.len() == 0 {
            rs
        } else {
            let input = redirect_all(node.inputs@[0], pairs);
            match node.payload {
                Some(VisionPayload::Image(op)) => match semantic_rewrite_spec(
                    op,
                    annotation_of(ann, input),
                    workers,
                    feeds_normalize_after(nodes, pairs, id),
                ) {
                    Some(kind) => rs.push((id, input, kind)),
                    None => rs,
                },
                _ => rs,
            }
        }
    }
}

/// The diagnostics recorded for a list of semantic rewrites.
pub open spec fn rewrite_diagnostics(rs: Seq<(NodeId, NodeId, SemanticRewrite)>) -> Seq<DiagnosticV> {
    rs.map_values(
        |r: (NodeId, NodeId, SemanticRewrite)| (DiagnosticV { code: rewrite_code_spec(r.2), message: rewrite_message_spec(r.2, r.0.0) }),
    )
}

/// Removes crops that keep the whole image and dtype conversions that
/// change nothing, and lets a `Normalize` read uint8 values directly when
/// a uint8-to-float conversion only feeds it.
pub struct SemanticRewritePass {
    pub workers: usize,
}

impl SemanticRewritePass {
    /// Whether `id`'s only consumer is a `Normalize` reading it first.
    fn feeds_only_normalize(plan: &LogicalPlan<VisionPayload>, id: NodeId) -> (r: Result<bool, String>)
        ensures
            r is Ok <==> id.0 < plan.spec_nodes().len(),
            r matches Ok(b) ==> b == feeds_only_normalize_spec(plan.spec_nodes(), id),
            r matches Err(m) ==> m@ == plan_error_text(PlanError::UnknownNode { index: id.0 }),
    {
        let children = match plan.children(id) {
            Ok(c) => c,
            Err(e) => return Err(plan_error_message(e)),
        };
        if children.len() != 1 {
            return Ok(false);
        }
        let consumer = match plan.node(children[0]) {
            Ok(node) => node,
            Err(_) => return Ok(false),
        };
        let is_normalize = match &consumer.payload {
            Some(VisionPayload::Image(ImageOp::Normalize { .. })) => true,
            _ => false,
        };
        Ok(is_normalize && consumer.inputs.len() > 0 && consumer.inputs[0] == id)
    }
}

impl OptimizerPass<VisionPayload> for SemanticRewritePass {
    open spec fn spec_name(&self) -> Option<Seq<char>> {
        Some("semantic-rewrite"@)
    }

    open spec fn run_post(
        &self,
        plan: LogicalPlan<VisionPayload>,
        context: OptimizerContext,
        final_plan: LogicalPlan<VisionPayload>,
        final_context: OptimizerContext,
        r: Result<PassResult, String>,
    ) -> bool {
        &&& (r is Ok <==> plan.valid())
        &&& (r is Err ==> final_plan == plan && final_context == context)
        &&& (r matches Ok(res) ==> {
            let nodes = plan.spec_nodes();
            let order = depth_first(nodes, plan.spec_root().unwrap());
            let rs = semantic_rewrites(
                nodes,
                order,
                context.spec_annotations(),
                self.workers as nat,
                order.len(),
            );
            &&& final_plan.valid()
            &&& redirected_nodes(final_plan.spec_nodes(), nodes, rewrite_pairs(rs))
            &&& final_plan.spec_root() == Some(redirect_all(plan.spec_root().unwrap(), rewrite_pairs(rs)))
            &&& final_plan.spec_context() == plan.spec_context()
            &&& res.changed <==> rs.len() > 0
            &&& res.diagnostics@.len() == 0
            &&& diagnostics_view(final_context.diagnostics@) == diagnostics_view(context.diagnostics@)
                + rewrite_diagnostics(rs)
            &&& final_context.spec_annotations() == if res.changed {
                Map::<usize, ValuePropertiesV>::empty()
            } else {
                context.spec_annotations()
            }
        })
    }

    fn name(&self) -> (r: &'static str)
        ensures
            r@ == "semantic-rewrite"@,
    {
        proof {
            reveal_strlit("semantic-rewrite");
        }
        "semantic-rewrite"
    }

    fn run(&self, plan: &mut LogicalPlan<VisionPayload>, context: &mut OptimizerContext) -> (r: Result<
        PassResult,
        String,
    >)
    {
        let order = match plan.preorder() {
            Ok(order) => order,
            Err(e) => return Err(plan_error_message(e)),
        };
        let ghost nodes = plan.spec_nodes();
        let ghost root = plan.spec_root().unwrap();
        let ghost ann = context.spec_annotations();
        let ghost diags = diagnostics_view(context.diagnostics@);
        let ghost len = nodes.len();
        let ghost workers = self.workers as nat;
        let mut changed = false;
        let mut i: usize = 0;
        proof {
            let e = Seq::<(NodeId, NodeId, SemanticRewrite)>::empty();
            assert(rewrite_pairs(e) =~= Seq::<(NodeId, NodeId)>::empty());
            assert(forall|t: int| 0 <= t < len ==> nodes[t].inputs@.map_values(|x: NodeId| redirect_all(x, rewrite_pairs(e))) =~= #[trigger] nodes[t].inputs@);
            assert(rewrite_diagnostics(e) =~= Seq::<DiagnosticV>::empty());
            assert(diags + Seq::<DiagnosticV>::empty() =~= diags);
        }
        while i < order.len()
            invariant
                0 <= i <= order@.len(),
                order@ == depth_first(nodes, root),
                nodes == old(plan).spec_nodes(),
                root == old(plan).spec_root().unwrap(),
                ann == old(context).spec_annotations(),
                diags == diagnostics_view(old(context).diagnostics@),
                workers == self.workers as nat,
                len == nodes.len(),
                plan.valid(),
                forall|t: int| 0 <= t < order@.len() ==> (#[trigger] order@[t]).0 < len,
                redirected_nodes(plan.spec_nodes(), nodes, rewrite_pairs(semantic_rewrites(nodes, order@, ann, workers, i as nat))),
                plan.spec_root() == Some(redirect_all(root, rewrite_pairs(semantic_rewrites(nodes, order@, ann, workers, i as nat)))),
                plan.spec_context() == old(plan).spec_context(),
                context.spec_annotations() == ann,
                diagnostics_view(context.diagnostics@) == diags + rewrite_diagnostics(
                    semantic_rewrites(nodes, order@, ann, workers, i as nat),
                ),
                changed <==> semantic_rewrites(nodes, order@, ann, workers, i as nat).len() > 0,
            decreases order@.len() - i,
        {
            let ghost rs = semantic_rewrites(nodes, order@, ann, workers, i as nat);
            let ghost pairs = rewrite_pairs(rs);
            let id = order[i];
            let feeds = match Self::feeds_only_normalize(plan, id) {
                Ok(b) => b,
                Err(e) => return Err(e),
            };
            proof {
                lemma_consumers_after(plan.spec_nodes(), nodes, pairs, id, len);
                assert(feeds == feeds_normalize_after(nodes, pairs, id)) by {
                    let cs = consumers(plan.spec_nodes(), id, len);
                    if cs.len() == 1 {
                        assert(cs[0].0 < len);
                        let c = cs[0].0 as int;
                        assert(plan.spec_nodes()[c].inputs@ == nodes[c].inputs@.map_values(|x: NodeId| redirect_all(x, pairs)));
                    }
                }
            }
            let node = match plan.node(id) {
                Ok(node) => node,
                Err(e) => return Err(plan_error_message(e)),
            };
            let mut rewrite: Option<SemanticRewrite> = None;
            let mut input = id;
            if node.inputs.len() > 0 {
                input = node.inputs[0];
                rewrite = match &node.payload {
                    Some(VisionPayload::Image(op)) => semantic_rewrite(
                        op,
                        context.annotations.get(input),
                        self.workers,
                        feeds,
                    ),
                    _ => None,
                };
            }
            proof {
                assert(node.inputs@ == nodes[id.0 as int].inputs@.map_values(|x: NodeId| redirect_all(x, pairs)));
                if node.inputs@.len() > 0 {
                    assert(input == redirect_all(nodes[id.0 as int].inputs@[0], pairs));
                }
            }
            match rewrite {
                Some(kind) => {
                    proof {
                        assert(semantic_rewrites(nodes, order@, ann, workers, (i + 1) as nat) == rs.push((id, input, kind)));
                        assert(plan.spec_nodes()[id.0 as int].inputs@[0] == input);
                        assert(input.0 < id.0);
                    }
                    match plan.redirect_uses(id, input) {
                        Ok(()) => {},
                        Err(e) => return Err(plan_error_message(e)),
                    }
                    proof {
                        let rs2 = rs.push((id, input, kind));
                        let pairs2 = rewrite_pairs(rs2);
                        assert(pairs2 =~= pairs.push((id, input)));
                        assert forall|t: int| 0 <= t < len implies (#[trigger] plan.spec_nodes()[t]).inputs@ =~= nodes[t].inputs@.map_values(
                            |x: NodeId| redirect_all(x, pairs2),
                        ) by {
                            assert forall|j: int| 0 <= j < nodes[t].inputs@.len() implies plan.spec_nodes()[t].inputs@[j] == redirect_all(nodes[t].inputs@[j], pairs2) by {
                                lemma_redirect_all_push(nodes[t].inputs@[j], pairs, (id, input));
                            }
                        }
                        lemma_redirect_all_push(root, pairs, (id, input));
                    }
                    let (code, message) = rewrite_diagnostic(kind, id);
                    let ghost dbefore = diagnostics_view(context.diagnostics@);
                    context.diagnostics.push(Diagnostic { code, message });
                    proof {
                        let rs2 = rs.push((id, input, kind));
                        let d = DiagnosticV { code: rewrite_code_spec(kind), message: rewrite_message_spec(kind, id.0) };
                        assert(rewrite_diagnostics(rs2) =~= rewrite_diagnostics(rs).push(d));
                        assert(diagnostics_view(context.diagnostics@) =~= dbefore.push(d));
                        assert(diagnostics_view(context.diagnostics@) =~= diags + rewrite_diagnostics(rs2));
                    }
                    changed = true;
                },
                None => {
                    proof {
                        assert(semantic_rewrites(nodes, order@, ann, workers, (i + 1) as nat) == rs);
                    }
                },
            }
            i += 1;
        }
        if changed {
            context.clear_annotations();
            proof {
                assert(context.spec_annotations() =~= Map::<usize, ValuePropertiesV>::empty());
            }
        }
        Ok(PassResult { changed, diagnostics: Vec::new() })
    }
}

/// The candidate, if any, that the normalize-layout rule finds at node
/// `id`, which reads `nodes[id].inputs[0]` first.
pub open spec fn fusion_at(
    nodes: Seq<LogicalNode<VisionPayload>>,
    id: NodeId,
    ann: Map<usize, ValuePropertiesV>,
    workers: nat,
) -> Option<FusionCandidateV> {
    let node = nodes[id.0 as int];
    if node.inputs@.len() == 0 {
        None
    } else {
        let input_id = node.inputs@[0];
        let input = nodes[input_id.0 as int];
        match node.payload {
            Some(VisionPayload::Image(ImageOp::Layout { axis_order })) => if (input.payload matches Some(
                VisionPayload::Image(ImageOp::Normalize { .. }),
            )) && input.inputs@.len() > 0 {
                let legal = normalize_layout_legal_spec(annotation_of(ann, input.inputs@[0]), axis_order, workers);
                Some(
                    FusionCandidateV {
                        rule: "normalize-layout"@,
                        nodes: seq![input_id, id],
                        name: "NormalizeToChw"@,
                        legal,
                        reason: normalize_layout_reason(legal),
                    },
                )
            } else {
                None
            },
            Some(VisionPayload::Image(ImageOp::Resize(_))) => if (input.payload matches Some(
                VisionPayload::Image(ImageOp::Crop(_)),
            )) || (input.payload matches Some(VisionPayload::Image(ImageOp::CenterCrop(_)))) {
                Some(
                    FusionCandidateV {
                        rule: "normalize-layout"@,
                        nodes: seq![input_id, id],
                        name: "CropResize"@,
                        legal: false,
                        reason: crop_resize_reason(),
                    },
                )
            } else {
                None
            },
            Some(VisionPayload::Image(ImageOp::Normalize { .. })) => if input.payload matches Some(
                VisionPayload::Image(ImageOp::Flip(_)),
            ) {
                let props = if input.inputs@.len() > 0 {
                    annotation_of(ann, input.inputs@[0])
                } else {
                    None
                };
                Some(
                    FusionCandidateV {
                        rule: "normalize-layout"@,
                        nodes: seq![input_id, id],
                        name: "FlipNormalize"@,
                        legal: false,
                        reason: flip_normalize_reason(flip_commutes_spec(props)),
                    },
                )
            } else {
                None
            },
            _ => None,
        }
    }
}

/// The candidates found at the first `k` nodes of `order`, in that order.
pub open spec fn fusions_in(
    nodes: Seq<LogicalNode<VisionPayload>>,
    order: Seq<NodeId>,
    ann: Map<usize, ValuePropertiesV>,
    workers: nat,
    k: nat,
) -> Seq<FusionCandidateV>
    decreases k,
{
    if k == 0 || k > order.len() {
        Seq::empty()
    } else {
        let before = fusions_in(nodes, order, ann, workers, (k - 1) as nat);
        match fusion_at(nodes, order[k - 1], ann, workers) {
            Some(c) => before.push(c),
            None => before,
        }
    }
}

/// Discovers normalize-layout fusions, and records crop-resize and
/// flip-normalize pairs that cannot be fused.
pub struct NormalizeLayoutFusion {
    pub workers: usize,
}

impl FusionRule<VisionPayload> for NormalizeLayoutFusion {
    open spec fn spec_name(&self) -> Option<Seq<char>> {
        Some("normalize-layout"@)
    }

    open spec fn discover_post(
        &self,
        plan: LogicalPlan<VisionPayload>,
        annotations: PropertyAnnotations,
        r: Result<Vec<FusionCandidate>, String>,
    ) -> bool {
        &&& r is Ok <==> plan.valid()
        &&& r matches Err(m) ==> exists|e: PlanError| plan.validate_error(e) && m@ == plan_error_text(e)
        &&& r matches Ok(c) ==> c@.map_values(|x: FusionCandidate| x@) =~= fusions_in(
            plan.spec_nodes(),
            depth_first(plan.spec_nodes(), plan.spec_root().unwrap()),
            annotations@,
            self.workers as nat,
            depth_first(plan.spec_nodes(), plan.spec_root().unwrap()).len(),
        )
    }

    fn name(&self) -> (r: &'static str)
        ensures
            r@ == "normalize-layout"@,
    {
        proof {
            reveal_strlit("normalize-layout");
        }
        "normalize-layout"
    }

    fn discover(&self, plan: &LogicalPlan<VisionPayload>, annotations: &PropertyAnnotations) -> (r: Result<
        Vec<FusionCandidate>,
        String,
    >)
        ensures
            r is Ok <==> plan.valid(),
            r matches Err(m) ==> exists|e: PlanError| plan.validate_error(e) && m@ == plan_error_text(e),
            r matches Ok(c) ==> c@.map_values(|x: FusionCandidate| x@) == fusions_in(
                plan.spec_nodes(),
                depth_first(plan.spec_nodes(), plan.spec_root().unwrap()),
                annotations@,
                self.workers as nat,
                depth_first(plan.spec_nodes(), plan.spec_root().unwrap()).len(),
            ),
    {
        let order = match plan.preorder() {
            Ok(order) => order,
            Err(e) => return Err(plan_error_message(e)),
        };
        let ghost len = plan.spec_nodes().len();
        let mut candidates: Vec<FusionCandidate> = Vec::new();
        let mut i: usize = 0;
        while i < order.len()
            invariant
                0 <= i <= order@.len(),
                plan.valid(),
                len == plan.spec_nodes().len(),
                forall|t: int| 0 <= t < order@.len() ==> (#[trigger] order@[t]).0 < len,
                order@ == depth_first(plan.spec_nodes(), plan.spec_root().unwrap()),
                candidates@.map_values(|x: FusionCandidate| x@) == fusions_in(
                    plan.spec_nodes(),
                    order@,
                    annotations@,
                    self.workers as nat,
                    i as nat,
                ),
            decreases order@.len() - i,
        {
            let id = order[i];
            let mut found: Option<FusionCandidate> = None;
            let node = match plan.node(id) {
                Ok(node) => node,
                Err(e) => return Err(plan_error_message(e)),
            };
            if node.inputs.len() > 0 {
                let input_id = node.inputs[0];
                proof {
                    assert(plan.spec_nodes()[id.0 as int].inputs@[0] == input_id);
                }
                let input = match plan.node(input_id) {
                    Ok(n) => n,
                    Err(e) => return Err(plan_error_message(e)),
                };
                match &node.payload {
                    Some(VisionPayload::Image(ImageOp::Layout { axis_order })) => {
                        let input_is_normalize = match &input.payload {
                            Some(VisionPayload::Image(ImageOp::Normalize { .. })) => true,
                            _ => false,
                        };
                        if input_is_normalize && input.inputs.len() > 0 {
                            let source = input.inputs[0];
                            found = Some(
                                normalize_layout_candidate(
                                    input_id,
                                    id,
                                    *axis_order,
                                    annotations.get(source),
                                    self.workers,
                                ),
                            );
                        }
                    },
                    Some(VisionPayload::Image(ImageOp::Resize(_))) => {
                        let input_is_crop = match &input.payload {
                            Some(VisionPayload::Image(ImageOp::Crop(_))) => true,
                            Some(VisionPayload::Image(ImageOp::CenterCrop(_))) => true,
                            _ => false,
                        };
                        if input_is_crop {
                            found = Some(crop_resize_candidate(input_id, id));
                        }
                    },
                    Some(VisionPayload::Image(ImageOp::Normalize { .. })) => {
                        let input_is_flip = match &input.payload {
                            Some(VisionPayload::Image(ImageOp::Flip(_))) => true,
                            _ => false,
                        };
                        if input_is_flip {
                            let props = if input.inputs.len() > 0 {
                                annotations.get(input.inputs[0])
                            } else {
                                None
                            };
                            found = Some(flip_normalize_candidate(input_id, id, props));
                        }
                    },
                    _ => {},
                }
            }
            proof {
                let f = fusion_at(plan.spec_nodes(), id, annotations@, self.workers as nat);
                assert(found is Some <==> f is Some);
                assert(found matches Some(c) ==> c@ == f.unwrap());
            }
            let ghost before = candidates@;
            match found {
                Some(c) => {
                    candidates.push(c);
                },
                None => {},
            }
            proof {
                assert(candidates@.map_values(|x: FusionCandidate| x@) =~= fusions_in(
                    plan.spec_nodes(),
                    order@,
                    annotations@,
                    self.workers as nat,
                    (i + 1) as nat,
                ));
            }
            i += 1;
        }
        Ok(candidates)
    }
}

/// The CPU physical candidates of vision nodes.
pub struct VisionPhysicalCandidates;

impl PhysicalCandidateProvider<VisionPayload> for VisionPhysicalCandidates {
    fn candidates(&self, node: &LogicalNode<VisionPayload>, properties: Option<&ValueProperties>) -> (r: Vec<
        PhysicalCandidate,
    >)
        ensures
            match physical_candidate_spec(
                node.kind,
                node.payload,
                match properties {
                    Some(p) => Some(p@),
                    None => None,
                },
            ) {
                Some(name) => r@.len() == 1 && r@[0].name@ == name && r@[0].backend@ == "cpu"@,
                None => r@.len() == 0,
            },
    {
        let payload = match &node.payload {
            Some(p) => Some(p),
            None => None,
        };
        let mut out: Vec<PhysicalCandidate> = Vec::new();
        match physical_candidate(node.kind, payload, properties) {
            Some(name) => {
                proof {
                    reveal_strlit("cpu");
                }
                out.push(PhysicalCandidate { name: owned(name), backend: owned("cpu") });
            },
            None => {},
        }
        out
    }
}

/// Appends `x` to `v`, which grows by one.
fn push_hook<T>(v: &mut Vec<T>, x: T)
    ensures
        final(v)@.len() == old(v)@.len() + 1,
{
    proof {
        vstd::seq::axiom_seq_push_len(v@, x);
    }
    v.push(x);
}

/// The vision domain's ordered planning passes, up to placement: inference
/// around each rewrite, identity-layout simplification, semantic rewrites,
/// dead-node elimination, index pushdown, fusion discovery, and a final
/// cleanup and inference.
pub fn vision_passes(workers: usize) -> (r: Vec<Box<dyn OptimizerPass<VisionPayload>>>)
    ensures
        r@.len() == 10,
{
    let mut passes: Vec<Box<dyn OptimizerPass<VisionPayload>>> = Vec::new();
    push_hook(&mut passes, Box::new(InferProperties(VisionPropertyInference::new(workers))));
    push_hook(&mut passes, Box::new(EliminateIdentityLayout));
    push_hook(&mut passes, Box::new(InferProperties(VisionPropertyInference::new(workers))));
    push_hook(&mut passes, Box::new(SemanticRewritePass { workers }));
    push_hook(&mut passes, Box::new(EliminateDeadNodes));
    push_hook(&mut passes, Box::new(InferProperties(VisionPropertyInference::new(workers))));
    push_hook(&mut passes, Box::new(IndexSourcePushdown));
    push_hook(&mut passes, Box::new(FusionDiscovery));
    push_hook(&mut passes, Box::new(EliminateDeadNodes));
    push_hook(&mut passes, Box::new(InferProperties(VisionPropertyInference::new(workers))));
    passes
}

/// The vision domain's planning hooks without placement: its inference,
/// `vision_passes`, the normalize/layout fusion rule and the physical
/// candidates.
pub struct VisionPlanningPlugin {
    pub workers: usize,
}

impl PlanPlugin<VisionPayload> for VisionPlanningPlugin {
    open spec fn inference_post(&self, r: Option<Box<dyn PropertyInference<VisionPayload>>>) -> bool {
        r is Some
    }

    open spec fn passes_post(&self, r: Seq<Box<dyn OptimizerPass<VisionPayload>>>) -> bool {
        r.len() == 10
    }

    open spec fn rules_post(&self, r: Seq<Box<dyn FusionRule<VisionPayload>>>) -> bool {
        r.len() == 1
    }

    open spec fn providers_post(&self, r: Seq<Box<dyn PhysicalCandidateProvider<VisionPayload>>>) -> bool {
        r.len() == 1
    }

    fn name(&self) -> &'static str {
        "vision"
    }

    fn property_inference(&self) -> (r: Option<Box<dyn PropertyInference<VisionPayload>>>) {
        Some(Box::new(VisionPropertyInference::new(self.workers)))
    }

    fn optimizer_passes(&self) -> (r: Vec<Box<dyn OptimizerPass<VisionPayload>>>) {
        vision_passes(self.workers)
    }

    fn fusion_rules(&self) -> (r: Vec<Box<dyn FusionRule<VisionPayload>>>) {
        let mut rules: Vec<Box<dyn FusionRule<VisionPayload>>> = Vec::new();
        push_hook(&mut rules, Box::new(NormalizeLayoutFusion { workers: self.workers }));
        rules
    }

    fn physical_candidates(&self) -> (r: Vec<Box<dyn PhysicalCandidateProvider<VisionPayload>>>) {
        let mut providers: Vec<Box<dyn PhysicalCandidateProvider<VisionPayload>>> = Vec::new();
        push_hook(&mut providers, Box::new(VisionPhysicalCandidates));
        providers
    }
}

} // verus!
