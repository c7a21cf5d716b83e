//! Backend-independent logical IR: a DAG of typed nodes with one root.
//!
//! Nodes are appended in order and may only consume values of nodes added
//! before them, so a plan that validates is acyclic by construction.

use vstd::prelude::*;
use crate::text::{decimal, push_decimal, push_str};

verus! {

/// Index of a node inside a logical plan.
#[derive(Clone, Copy, Debug, PartialEq, Eq, Structural, Hash)]
pub struct NodeId(pub usize);

impl NodeId {
    pub fn index(&self) -> (r: usize)
        ensures
            r == self.0,
    {
        self.0
    }
}

/// Structural role of a logical node.
#[derive(Clone, Copy, Debug, PartialEq, Eq, Structural, Hash)]
pub enum NodeKind {
    Source,
    Index,
    Op,
    Batch,
    DeviceCut,
    Cache,
    Sink,
}

/// Domain payload attached to a node. `domain` and `name` identify the
/// operation family, e.g. `vision` and `ImageOp`.
pub trait PlanPayload {
    /// The payload's domain as text.
    spec fn domain_text(&self) -> Seq<char>;

    /// The payload's name as text.
    spec fn name_text(&self) -> Seq<char>;

    fn domain(&self) -> (r: &'static str)
        ensures
            r@ == self.domain_text(),
    ;

    fn name(&self) -> (r: &'static str)
        ensures
            r@ == self.name_text(),
    ;
}

/// A payload-free marker for plans that carry no domain operations.
#[derive(Clone, Copy, Debug, PartialEq, Eq, Structural)]
pub struct NoPayload;

impl PlanPayload for NoPayload {
    open spec fn domain_text(&self) -> Seq<char> {
        "rivet"@
    }

    open spec fn name_text(&self) -> Seq<char> {
        "None"@
    }

    fn domain(&self) -> (r: &'static str) {
        proof {
            reveal_strlit("rivet");
        }
        "rivet"
    }

    fn name(&self) -> (r: &'static str) {
        proof {
            reveal_strlit("None");
        }
        "None"
    }
}

pub struct LogicalNode<P> {
    pub kind: NodeKind,
    pub inputs: Vec<NodeId>,
    pub payload: Option<P>,
}

impl<P> LogicalNode<P> {
    pub fn new(kind: NodeKind, inputs: Vec<NodeId>, payload: Option<P>) -> (r: Self)
        ensures
            r.kind == kind,
            r.inputs@ == inputs@,
            r.payload == payload,
    {
        LogicalNode { kind, inputs, payload }
    }

    pub fn kind(&self) -> (r: NodeKind)
        ensures
            r == self.kind,
    {
        self.kind
    }

    pub fn inputs(&self) -> (r: &[NodeId])
        ensures
            r@ == self.inputs@,
    {
        self.inputs.as_slice()
    }

    pub fn payload(&self) -> (r: Option<&P>)
        ensures
            r matches Some(p) ==> self.payload == Some(*p),
            r is None <==> self.payload is None,
    {
        match &self.payload {
            Some(p) => Some(p),
            None => None,
        }
    }
}

/// Structural errors of a logical plan.
#[derive(Clone, Copy, Debug, PartialEq, Eq, Structural)]
pub enum PlanError {
    /// A node id does not name a node of the plan.
    UnknownNode { index: usize },
    /// The plan has no root.
    MissingRoot,
    /// Node `node` consumes `input`, which is not an earlier node.
    InvalidInput { node: usize, input: usize },
}

pub struct LogicalPlan<P> {
    nodes: Vec<LogicalNode<P>>,
    root: Option<NodeId>,
    context: Option<P>,
}

/// Every input of node `i` names a node added before `i`.
pub open spec fn inputs_precede<P>(nodes: Seq<LogicalNode<P>>) -> bool {
    forall|i: int, j: int|
        0 <= i < nodes.len() && 0 <= j < nodes[i].inputs@.len() ==> (
        #[trigger] nodes[i].inputs@[j]).0 < i
}

/// The first structural defect of the plan, in the order `validate` checks.
pub open spec fn first_input_defect<P>(nodes: Seq<LogicalNode<P>>, upto: int) -> Option<(usize, usize)>
    decreases upto,
{
    if upto <= 0 {
        None
    } else {
        match first_input_defect(nodes, upto - 1) {
            Some(d) => Some(d),
            None => node_input_defect(nodes, upto - 1, nodes[upto - 1].inputs@.len() as int),
        }
    }
}

/// The first input of node `i`, among its first `upto` inputs, that does not
/// precede it.
pub open spec fn node_input_defect<P>(nodes: Seq<LogicalNode<P>>, i: int, upto: int) -> Option<(usize, usize)>
    decreases upto,
{
    if upto <= 0 {
        None
    } else {
        match node_input_defect(nodes, i, upto - 1) {
            Some(d) => Some(d),
            None => if nodes[i].inputs@[upto - 1].0 >= i {
                Some((i as usize, nodes[i].inputs@[upto - 1].0))
            } else {
                None
            },
        }
    }
}

proof fn lemma_node_defect<P>(nodes: Seq<LogicalNode<P>>, i: int, upto: int)
    requires
        0 <= i < nodes.len(),
        0 <= upto <= nodes[i].inputs@.len(),
    ensures
        node_input_defect(nodes, i, upto) is None <==> (forall|j: int|
            0 <= j < upto ==> (#[trigger] nodes[i].inputs@[j]).0 < i),
    decreases upto,
{
    if upto > 0 {
        lemma_node_defect(nodes, i, upto - 1);
    }
}

proof fn lemma_first_defect<P>(nodes: Seq<LogicalNode<P>>, upto: int)
    requires
        0 <= upto <= nodes.len(),
    ensures
        first_input_defect(nodes, upto) is None <==> (forall|i: int, j: int|
            0 <= i < upto && 0 <= j < nodes[i].inputs@.len() ==> (
            #[trigger] nodes[i].inputs@[j]).0 < i),
    decreases upto,
{
    if upto > 0 {
        lemma_first_defect(nodes, upto - 1);
        lemma_node_defect(nodes, upto - 1, nodes[upto - 1].inputs@.len() as int);
        if first_input_defect(nodes, upto) is None {
            assert forall|i: int, j: int|
                0 <= i < upto && 0 <= j < nodes[i].inputs@.len() implies (
                #[trigger] nodes[i].inputs@[j]).0 < i by {
                if i < upto - 1 {
                } else {
                }
            }
        }
    }
}

proof fn lemma_node_defect_stable<P>(nodes: Seq<LogicalNode<P>>, i: int, a: int, b: int)
    requires
        0 <= a <= b,
        node_input_defect(nodes, i, a) is Some,
    ensures
        node_input_defect(nodes, i, b) == node_input_defect(nodes, i, a),
    decreases b - a,
{
    if b > a {
        lemma_node_defect_stable(nodes, i, a, b - 1);
    }
}

proof fn lemma_first_defect_stable<P>(nodes: Seq<LogicalNode<P>>, a: int, b: int)
    requires
        0 <= a <= b,
        first_input_defect(nodes, a) is Some,
    ensures
        first_input_defect(nodes, b) == first_input_defect(nodes, a),
    decreases b - a,
{
    if b > a {
        lemma_first_defect_stable(nodes, a, b - 1);
    }
}

/// Text of the node-kind name used by `explain`.
pub open spec fn kind_text(kind: NodeKind) -> Seq<char> {
    match kind {
        NodeKind::Source => "Source"@,
        NodeKind::Index => "Index"@,
        NodeKind::Op => "Op"@,
        NodeKind::Batch => "Batch"@,
        NodeKind::DeviceCut => "DeviceCut"@,
        NodeKind::Cache => "Cache"@,
        NodeKind::Sink => "Sink"@,
    }
}

/// `%a, %b, ...` for a list of node ids.
pub open spec fn ids_text(ids: Seq<NodeId>) -> Seq<char>
    decreases ids.len(),
{
    if ids.len() == 0 {
        Seq::empty()
    } else if ids.len() == 1 {
        "%"@ + decimal(ids[0].0 as nat)
    } else {
        ids_text(ids.drop_last()) + ", %"@ + decimal(ids.last().0 as nat)
    }
}

/// ` domain::name` of a node's payload; empty without one.
pub open spec fn payload_text<P: PlanPayload>(payload: Option<P>) -> Seq<char> {
    match payload {
        Some(p) => " "@ + p.domain_text() + "::"@ + p.name_text(),
        None => Seq::empty(),
    }
}

/// ` <- %a, %b` for a node's inputs; empty without any.
pub open spec fn inputs_text(ids: Seq<NodeId>) -> Seq<char> {
    if ids.len() == 0 {
        Seq::empty()
    } else {
        " <- "@ + ids_text(ids)
    }
}

/// One `explain` line: `  %i Kind domain::name <- %a, %b` and a newline.
pub open spec fn node_text<P: PlanPayload>(i: nat, node: LogicalNode<P>) -> Seq<char> {
    "  %"@ + decimal(i) + " "@ + kind_text(node.kind) + payload_text(node.payload) + inputs_text(
        node.inputs@,
    ) + "\n"@
}

/// Lines of the first `n` nodes.
pub open spec fn nodes_text<P: PlanPayload>(nodes: Seq<LogicalNode<P>>, n: nat) -> Seq<char>
    decreases n,
{
    if n == 0 || n > nodes.len() {
        Seq::empty()
    } else {
        nodes_text(nodes, (n - 1) as nat) + node_text((n - 1) as nat, nodes[n - 1])
    }
}

/// Full `explain` rendering of a plan whose root is `root`.
pub open spec fn explain_text<P: PlanPayload>(nodes: Seq<LogicalNode<P>>, root: usize) -> Seq<char> {
    "LogicalPlan(root=%"@ + decimal(root as nat) + ")\n"@ + nodes_text(nodes, nodes.len())
}

impl<P> LogicalPlan<P> {
    pub closed spec fn spec_nodes(&self) -> Seq<LogicalNode<P>> {
        self.nodes@
    }

    pub closed spec fn spec_root(&self) -> Option<NodeId> {
        self.root
    }

    /// A plan holds at most `usize::MAX` nodes.
    pub proof fn lemma_len_bound(&self)
        ensures
            self.spec_nodes().len() <= usize::MAX,
    {
        assert(self.nodes@.len() == self.nodes.len());
    }

    /// Plan-wide domain data that belongs to no node.
    pub closed spec fn spec_context(&self) -> Option<P> {
        self.context
    }

    /// A plan is valid when it has a root naming one of its nodes and every
    /// input precedes its consumer.
    pub open spec fn valid(&self) -> bool {
        &&& self.spec_root() matches Some(r) && r.0 < self.spec_nodes().len()
        &&& inputs_precede(self.spec_nodes())
    }

    pub fn new() -> (r: Self)
        ensures
            r.spec_nodes() == Seq::<LogicalNode<P>>::empty(),
            r.spec_root() is None,
            r.spec_context() is None,
    {
        LogicalPlan { nodes: Vec::new(), root: None, context: None }
    }

    /// Attaches plan-wide domain data.
    pub fn set_context(&mut self, context: P)
        ensures
            final(self).spec_context() == Some(context),
            final(self).spec_nodes() == old(self).spec_nodes(),
            final(self).spec_root() == old(self).spec_root(),
    {
        self.context = Some(context);
    }

    pub fn context(&self) -> (r: Option<&P>)
        ensures
            match r {
                Some(c) => self.spec_context() == Some(*c),
                None => self.spec_context() is None,
            },
    {
        match &self.context {
            Some(c) => Some(c),
            None => None,
        }
    }

    pub fn len(&self) -> (r: usize)
        ensures
            r == self.spec_nodes().len(),
    {
        self.nodes.len()
    }

    /// Appends `node` and returns its id, the previous node count.
    pub fn add_node(&mut self, node: LogicalNode<P>) -> (id: NodeId)
        ensures
            id.0 == old(self).spec_nodes().len(),
            final(self).spec_nodes() == old(self).spec_nodes().push(node),
            final(self).spec_root() == old(self).spec_root(),
            final(self).spec_context() == old(self).spec_context(),
    {
        let id = NodeId(self.nodes.len());
        self.nodes.push(node);
        id
    }

    /// Makes `id` the root when it names a node.
    pub fn set_root(&mut self, id: NodeId) -> (r: Result<(), PlanError>)
        ensures
            final(self).spec_nodes() == old(self).spec_nodes(),
            final(self).spec_context() == old(self).spec_context(),
            r is Ok <==> id.0 < old(self).spec_nodes().len(),
            r is Ok ==> final(self).spec_root() == Some(id),
            r matches Err(e) ==> e == (PlanError::UnknownNode { index: id.0 })
                && final(self).spec_root() == old(self).spec_root(),
    {
        if id.0 < self.nodes.len() {
            self.root = Some(id);
            Ok(())
        } else {
            Err(PlanError::UnknownNode { index: id.0 })
        }
    }

    pub fn root(&self) -> (r: Option<NodeId>)
        ensures
            r == self.spec_root(),
    {
        self.root
    }

    /// The node named by `id`.
    pub fn node(&self, id: NodeId) -> (r: Result<&LogicalNode<P>, PlanError>)
        ensures
            r is Ok <==> id.0 < self.spec_nodes().len(),
            r matches Ok(n) ==> *n == self.spec_nodes()[id.0 as int],
            r matches Err(e) ==> e == (PlanError::UnknownNode { index: id.0 }),
    {
        if id.0 < self.nodes.len() {
            Ok(&self.nodes[id.0])
        } else {
            Err(PlanError::UnknownNode { index: id.0 })
        }
    }

    /// Checks the plan: a root naming a node, then every input preceding
    /// its consumer, reporting the first defect in node and input order.
    pub fn validate(&self) -> (r: Result<(), PlanError>)
        ensures
            r is Ok <==> self.valid(),
            r matches Err(e) ==> self.validate_error(e),
    {
        let root = match self.root {
            None => return Err(PlanError::MissingRoot),
            Some(root) => root,
        };
        if root.0 >= self.nodes.len() {
            return Err(PlanError::UnknownNode { index: root.0 });
        }
        let mut i: usize = 0;
        while i < self.nodes.len()
            invariant
                0 <= i <= self.nodes@.len(),
                self.root == Some(root),
                root.0 < self.nodes@.len(),
                first_input_defect(self.nodes@, i as int) is None,
            decreases self.nodes@.len() - i,
        {
            let inputs = &self.nodes[i].inputs;
            let mut j: usize = 0;
            while j < inputs.len()
                invariant
                    0 <= i < self.nodes@.len(),
                    self.root == Some(root),
                    root.0 < self.nodes@.len(),
                    *inputs == self.nodes@[i as int].inputs,
                    0 <= j <= inputs@.len(),
                    first_input_defect(self.nodes@, i as int) is None,
                    node_input_defect(self.nodes@, i as int, j as int) is None,
                decreases inputs@.len() - j,
            {
                if inputs[j].0 >= i {
                    proof {
                        let nodes = self.nodes@;
                        assert(node_input_defect(nodes, i as int, j + 1) == Some((i, inputs@[j as int].0)));
                        lemma_node_defect_stable(nodes, i as int, j + 1, nodes[i as int].inputs@.len() as int);
                        assert(first_input_defect(nodes, i + 1) == Some((i, inputs@[j as int].0)));
                        lemma_first_defect_stable(nodes, i + 1, nodes.len() as int);
                    }
                    return Err(PlanError::InvalidInput { node: i, input: inputs[j].0 });
                }
                j += 1;
            }
            i += 1;
        }
        proof {
            lemma_first_defect(self.nodes@, self.nodes@.len() as int);
        }
        Ok(())
    }

    /// The error `validate` reports for this plan, when it is invalid.
    pub open spec fn validate_error(&self, e: PlanError) -> bool {
        match self.spec_root() {
            None => e == PlanError::MissingRoot,
            Some(root) => if root.0 >= self.spec_nodes().len() {
                e == (PlanError::UnknownNode { index: root.0 })
            } else {
                first_input_defect(self.spec_nodes(), self.spec_nodes().len() as int)
                    == Some((e->node, e->input)) && e is InvalidInput
            },
        }
    }
}

impl<P: PlanPayload> LogicalPlan<P> {
    /// Deterministic text rendering of a valid plan: a header naming the
    /// root, then one line per node in id order.
    pub fn explain(&self) -> (r: Result<String, PlanError>)
        ensures
            r is Ok <==> self.valid(),
            r matches Ok(s) ==> s@ == explain_text(self.spec_nodes(), self.spec_root().unwrap().0),
            r matches Err(e) ==> self.validate_error(e),
    {
        match self.validate() {
            Err(e) => return Err(e),
            Ok(()) => {},
        }
        let root = self.root.unwrap();
        let mut out = String::new();
        push_str(&mut out, "LogicalPlan(root=%");
        push_decimal(&mut out, root.0);
        push_str(&mut out, ")\n");
        proof {
            reveal_strlit("LogicalPlan(root=%");
            reveal_strlit(")\n");
        }
        let ghost header = out@;
        let mut i: usize = 0;
        while i < self.nodes.len()
            invariant
                0 <= i <= self.nodes@.len(),
                out@ == header + nodes_text(self.nodes@, i as nat),
            decreases self.nodes@.len() - i,
        {
            let ghost before = out@;
            push_node_line(&mut out, i, &self.nodes[i]);
            assert(out@ =~= header + nodes_text(self.nodes@, (i + 1) as nat));
            i += 1;
        }
        Ok(out)
    }
}

/// Name of a node kind.
pub fn kind_name(kind: NodeKind) -> (r: &'static str)
    ensures
        r@ == kind_text(kind),
{
    proof {
        reveal_strlit("Source");
        reveal_strlit("Index");
        reveal_strlit("Op");
        reveal_strlit("Batch");
        reveal_strlit("DeviceCut");
        reveal_strlit("Cache");
        reveal_strlit("Sink");
    }
    match kind {
        NodeKind::Source => "Source",
        NodeKind::Index => "Index",
        NodeKind::Op => "Op",
        NodeKind::Batch => "Batch",
        NodeKind::DeviceCut => "DeviceCut",
        NodeKind::Cache => "Cache",
        NodeKind::Sink => "Sink",
    }
}

/// Appends `%a, %b, ...`.
pub fn push_ids(out: &mut String, ids: &[NodeId])
    ensures
        final(out)@ == old(out)@ + ids_text(ids@),
{
    proof {
        reveal_strlit("%");
        reveal_strlit(", %");
    }
    let mut k: usize = 0;
    while k < ids.len()
        invariant
            0 <= k <= ids@.len(),
            out@ == old(out)@ + ids_text(ids@.subrange(0, k as int)),
        decreases ids@.len() - k,
    {
        if k == 0 {
            push_str(out, "%");
        } else {
            push_str(out, ", %");
        }
        push_decimal(out, ids[k].0);
        proof {
            let s = ids@.subrange(0, k + 1);
            assert(s.drop_last() =~= ids@.subrange(0, k as int));
            if k == 0 {
                assert(ids_text(ids@.subrange(0, 0)) =~= Seq::<char>::empty());
            }
        }
        k += 1;
    }
    assert(ids@.subrange(0, ids@.len() as int) =~= ids@);
}

fn push_node_line<P: PlanPayload>(out: &mut String, i: usize, node: &LogicalNode<P>)
    ensures
        final(out)@ == old(out)@ + node_text(i as nat, *node),
{
    proof {
        reveal_strlit("  %");
        reveal_strlit(" ");
        reveal_strlit("::");
        reveal_strlit(" <- ");
        reveal_strlit("\n");
    }
    push_str(out, "  %");
    push_decimal(out, i);
    push_str(out, " ");
    push_str(out, kind_name(node.kind));
    match &node.payload {
        Some(p) => {
            push_str(out, " ");
            push_str(out, p.domain());
            push_str(out, "::");
            push_str(out, p.name());
        },
        None => {},
    }
    if node.inputs.len() > 0 {
        push_str(out, " <- ");
        push_ids(out, node.inputs.as_slice());
    }
    push_str(out, "\n");
    assert(out@ =~= old(out)@ + node_text(i as nat, *node));
}


impl<P> LogicalPlan<P> {
    /// Nodes reachable from the root, each listed once, in depth-first
    /// order from the root: a node before its inputs, inputs in order.
    pub fn preorder(&self) -> (r: Result<Vec<NodeId>, PlanError>)
        ensures
            r is Ok <==> self.valid(),
            r matches Err(e) ==> self.validate_error(e),
            r matches Ok(order) ==> {
                &&& order@ == depth_first(self.spec_nodes(), self.spec_root().unwrap())
                &&& order@.len() > 0
                &&& order@[0] == self.spec_root().unwrap()
                &&& forall|i: int| 0 <= i < order@.len() ==> (#[trigger] order@[i]).0 < self.spec_nodes().len()
                &&& forall|i: int, j: int| 0 <= i < j < order@.len() ==> order@[i] != order@[j]
                &&& forall|i: int, k: int|
                    0 <= i < order@.len() && 0 <= k < self.spec_nodes()[order@[i].0 as int].inputs@.len()
                        ==> order@.contains(#[trigger] self.spec_nodes()[order@[i].0 as int].inputs@[k])
                &&& forall|i: int|
                    0 <= i < self.spec_nodes().len() ==> (order@.contains(NodeId(i as usize)) <==> #[trigger] reaches(
                        self.spec_nodes(),
                        self.spec_root().unwrap(),
                        i,
                    ))
            },
    {
        match self.validate() {
            Err(e) => return Err(e),
            Ok(()) => {},
        }
        let ghost nodes = self.spec_nodes();
        let n = self.nodes.len();
        let root = self.root.unwrap();
        let mut visited: Vec<bool> = Vec::new();
        let mut v: usize = 0;
        while v < n
            invariant
                0 <= v <= n,
                visited@.len() == v,
                forall|t: int| 0 <= t < v ==> !visited@[t],
            decreases n - v,
        {
            visited.push(false);
            v += 1;
        }
        let mut order: Vec<NodeId> = Vec::new();
        let mut stack: Vec<NodeId> = Vec::new();
        stack.push(root);
        assert(visited@ =~= Seq::new(n as nat, |t: int| false));
        assert(order@ + dfs_order(nodes, visited@, stack@) =~= dfs_order(nodes, visited@, stack@));
        while stack.len() > 0
            invariant
                n == nodes.len(),
                nodes == self.spec_nodes(),
                self.valid(),
                visited@.len() == n,
                root == self.spec_root().unwrap(),
                order@.len() == 0 ==> stack@ == seq![root],
                order@.len() > 0 ==> order@[0] == root,
                order@ + dfs_order(nodes, visited@, stack@) == dfs_order(
                    nodes,
                    Seq::new(n as nat, |t: int| false),
                    seq![root],
                ),
                forall|i: int| 0 <= i < stack@.len() ==> reaches(nodes, root, (#[trigger] stack@[i]).0 as int),
                forall|i: int| 0 <= i < order@.len() ==> reaches(nodes, root, (#[trigger] order@[i]).0 as int),
                forall|i: int| 0 <= i < stack@.len() ==> (#[trigger] stack@[i]).0 < n,
                forall|i: int| 0 <= i < order@.len() ==> (#[trigger] order@[i]).0 < n,
                forall|t: int| 0 <= t < n ==> (visited@[t] <==> order@.contains(NodeId(t as usize))),
                forall|i: int, j: int| 0 <= i < j < order@.len() ==> order@[i] != order@[j],
                forall|i: int, k: int|
                    0 <= i < order@.len() && 0 <= k < nodes[order@[i].0 as int].inputs@.len() ==> (
                    order@.contains(#[trigger] nodes[order@[i].0 as int].inputs@[k])
                        || stack@.contains(nodes[order@[i].0 as int].inputs@[k])),
            decreases unvisited(visited@), stack@.len(),
        {
            let ghost stack_before = stack@;
            let id = stack.pop().unwrap();
            let ghost stack_after_pop = stack@;
            proof {
                assert(stack_before =~= stack_after_pop.push(id));
                assert(stack_before.drop_last() =~= stack_after_pop);
            }
            if visited[id.0] {
                proof {
                    assert(dfs_order(nodes, visited@, stack_before) == dfs_order(nodes, visited@, stack_after_pop));
                    assert(order@.contains(id));
                    assert forall|i: int, k: int|
                        0 <= i < order@.len() && 0 <= k < nodes[order@[i].0 as int].inputs@.len() implies (
                        order@.contains(#[trigger] nodes[order@[i].0 as int].inputs@[k])
                            || stack@.contains(nodes[order@[i].0 as int].inputs@[k])) by {
                        let x = nodes[order@[i].0 as int].inputs@[k];
                        if !order@.contains(x) {
                            lemma_pop_contains(stack_before, stack_after_pop, id, x);
                        }
                    }
                }
                continue;
            }
            let ghost order_before = order@;
            let ghost visited_before = visited@;
            proof {
                lemma_unvisited_mark(visited@, id.0 as int);
            }
            visited.set(id.0, true);
            order.push(id);
            proof {
                assert forall|t: int| 0 <= t < n implies (visited@[t] <==> order@.contains(NodeId(t as usize))) by {
                    if t == id.0 {
                        assert(order@[order@.len() - 1] == id);
                    } else {
                        if order_before.contains(NodeId(t as usize)) {
                            let w = choose|w: int| 0 <= w < order_before.len() && order_before[w] == NodeId(t as usize);
                            assert(order@[w] == NodeId(t as usize));
                        }
                        if order@.contains(NodeId(t as usize)) {
                            let w = choose|w: int| 0 <= w < order@.len() && order@[w] == NodeId(t as usize);
                            assert(w < order_before.len());
                            assert(order_before[w] == NodeId(t as usize));
                        }
                    }
                }
            }
            let node = &self.nodes[id.0];
            let count = node.inputs.len();
            let mut k: usize = count;
            while k > 0
                invariant
                    0 <= k <= count,
                    count == nodes[id.0 as int].inputs@.len(),
                    *node == nodes[id.0 as int],
                    nodes == self.spec_nodes(),
                    id.0 < n,
                    n == nodes.len(),
                    self.valid(),
                    forall|i: int| 0 <= i < stack@.len() ==> (#[trigger] stack@[i]).0 < n,
                    forall|i: int| 0 <= i < stack@.len() ==> reaches(nodes, root, (#[trigger] stack@[i]).0 as int),
                    reaches(nodes, root, id.0 as int),
                    forall|j: int| k <= j < count ==> stack@.contains(#[trigger] nodes[id.0 as int].inputs@[j]),
                    stack@ == stack_after_pop + reversed(nodes[id.0 as int].inputs@).subrange(0, count - k),
                    forall|x: NodeId| stack_after_pop.contains(x) ==> #[trigger] stack@.contains(x),
                decreases k,
            {
                let input = node.inputs[k - 1];
                proof {
                    assert(nodes[id.0 as int].inputs@[k - 1] == input);
                    assert(input.0 < id.0);
                    lemma_reaches_step(nodes, root, id.0 as int, (k - 1) as int);
                }
                let ghost before = stack@;
                stack.push(input);
                proof {
                    assert(stack@ =~= stack_after_pop + reversed(nodes[id.0 as int].inputs@).subrange(0, count - k + 1));
                    assert(stack@[stack@.len() - 1] == input);
                    assert forall|x: NodeId| before.contains(x) implies #[trigger] stack@.contains(x) by {
                        let w = choose|w: int| 0 <= w < before.len() && before[w] == x;
                        assert(stack@[w] == x);
                    }
                }
                k -= 1;
            }
            proof {
                assert(stack@ =~= stack_after_pop + reversed(nodes[id.0 as int].inputs@));
                assert(dfs_order(nodes, visited_before, stack_before) == seq![id] + dfs_order(nodes, visited@, stack@));
                assert(order@ + dfs_order(nodes, visited@, stack@) =~= order_before + (seq![id] + dfs_order(nodes, visited@, stack@)));
                assert forall|i: int, kk: int|
                    0 <= i < order@.len() && 0 <= kk < nodes[order@[i].0 as int].inputs@.len() implies (
                    order@.contains(#[trigger] nodes[order@[i].0 as int].inputs@[kk])
                        || stack@.contains(nodes[order@[i].0 as int].inputs@[kk])) by {
                    let x = nodes[order@[i].0 as int].inputs@[kk];
                    if i == order@.len() - 1 {
                        assert(order@[i] == id);
                    } else {
                        assert(order@[i] == order_before[i]);
                        if order_before.contains(x) {
                            let w = choose|w: int| 0 <= w < order_before.len() && order_before[w] == x;
                            assert(order@[w] == x);
                        } else if x == id {
                            assert(order@[order@.len() - 1] == x);
                        } else {
                            lemma_pop_contains(stack_before, stack_after_pop, id, x);
                        }
                    }
                }
            }
        }
        proof {
            assert forall|i: int|
                0 <= i < nodes.len() implies (order@.contains(NodeId(i as usize)) <==> #[trigger] reaches(
                nodes,
                root,
                i,
            )) by {
                if order@.contains(NodeId(i as usize)) {
                    let w = choose|w: int| 0 <= w < order@.len() && order@[w] == NodeId(i as usize);
                    assert(reaches(nodes, root, order@[w].0 as int));
                }
                if reaches(nodes, root, i) {
                    lemma_reaches_listed(nodes, root, order@, i);
                }
            }
        }
        Ok(order)
    }
}

/// Every node reachable from the root is listed, when the list holds the
/// root and every input of a listed node.
proof fn lemma_reaches_listed<P>(nodes: Seq<LogicalNode<P>>, root: NodeId, order: Seq<NodeId>, i: int)
    requires
        reaches(nodes, root, i),
        order.len() > 0,
        order[0] == root,
        forall|a: int, k: int|
            0 <= a < order.len() && 0 <= k < nodes[order[a].0 as int].inputs@.len() ==> order.contains(
                #[trigger] nodes[order[a].0 as int].inputs@[k],
            ),
    ensures
        order.contains(NodeId(i as usize)),
{
    let s = Set::new(|x: int| exists|a: int| 0 <= a < order.len() && order[a].0 == x);
    assert(s.contains(root.0 as int)) by {
        assert(order[0].0 == root.0);
    }
    assert forall|j: int, k: int|
        0 <= j < nodes.len() && s.contains(j) && 0 <= k < nodes[j].inputs@.len() implies s.contains(
        (#[trigger] nodes[j].inputs@[k]).0 as int,
    ) by {
        let a = choose|a: int| 0 <= a < order.len() && order[a].0 == j;
        assert(nodes[order[a].0 as int].inputs@[k] == nodes[j].inputs@[k]);
        assert(order.contains(nodes[j].inputs@[k]));
        let b = choose|b: int| 0 <= b < order.len() && order[b] == nodes[j].inputs@[k];
        assert(order[b].0 == nodes[j].inputs@[k].0);
    }
    assert(closed_under_inputs(nodes, root, s));
    assert(s.contains(i));
    let a = choose|a: int| 0 <= a < order.len() && order[a].0 == i;
    assert(order[a] == NodeId(i as usize));
}

/// Number of nodes not yet visited.
pub open spec fn unvisited(visited: Seq<bool>) -> nat
    decreases visited.len(),
{
    if visited.len() == 0 {
        0
    } else {
        unvisited(visited.drop_last()) + if visited.last() {
            0nat
        } else {
            1nat
        }
    }
}

/// The nodes reachable from `root`, in the depth-first order `preorder`
/// lists them.
pub open spec fn depth_first<P>(nodes: Seq<LogicalNode<P>>, root: NodeId) -> Seq<NodeId> {
    dfs_order(nodes, Seq::new(nodes.len(), |t: int| false), seq![root])
}

/// `ids` last to first: pushing them in this order onto a stack makes the
/// first of them the next one taken.
pub open spec fn reversed(ids: Seq<NodeId>) -> Seq<NodeId> {
    Seq::new(ids.len(), |j: int| ids[ids.len() - 1 - j])
}

/// The depth-first walk from a stack of pending nodes: the top is taken
/// first; a node not yet visited is listed and marked, and its inputs are
/// pushed so that its first input is taken next. Visited nodes are skipped.
pub open spec fn dfs_order<P>(nodes: Seq<LogicalNode<P>>, visited: Seq<bool>, stack: Seq<NodeId>) -> Seq<NodeId>
    decreases unvisited(visited), stack.len(),
{
    if stack.len() == 0 {
        Seq::empty()
    } else {
        let id = stack.last();
        let rest = stack.drop_last();
        if id.0 >= visited.len() || visited[id.0 as int] || id.0 >= nodes.len() {
            dfs_order(nodes, visited, rest)
        } else {
            proof {
                lemma_unvisited_mark(visited, id.0 as int);
            }
            seq![id] + dfs_order(nodes, visited.update(id.0 as int, true), rest + reversed(nodes[id.0 as int].inputs@))
        }
    }
}

/// Marking a slot not yet visited leaves one fewer unvisited.
pub proof fn lemma_unvisited_mark(visited: Seq<bool>, j: int)
    requires
        0 <= j < visited.len(),
        !visited[j],
    ensures
        unvisited(visited.update(j, true)) + 1 == unvisited(visited),
    decreases visited.len(),
{
    let u = visited.update(j, true);
    if j == visited.len() - 1 {
        assert(u.drop_last() =~= visited.drop_last());
    } else {
        assert(u.drop_last() =~= visited.drop_last().update(j, true));
        lemma_unvisited_mark(visited.drop_last(), j);
    }
}

proof fn lemma_pop_contains(before: Seq<NodeId>, after: Seq<NodeId>, top: NodeId, x: NodeId)
    requires
        before == after.push(top),
        before.contains(x),
        x != top,
    ensures
        after.contains(x),
{
    let w = choose|w: int| 0 <= w < before.len() && before[w] == x;
    assert(w < after.len());
    assert(after[w] == x);
}


/// Where `x` ends up after redirecting each `(from, to)` of `rs` in turn.
pub open spec fn redirect_all(x: NodeId, rs: Seq<(NodeId, NodeId)>) -> NodeId
    decreases rs.len(),
{
    if rs.len() == 0 {
        x
    } else {
        redirected(redirect_all(x, rs.drop_last()), rs.last().0, rs.last().1)
    }
}

/// Redirecting one more pair acts on the result of the earlier ones.
pub proof fn lemma_redirect_all_push(x: NodeId, rs: Seq<(NodeId, NodeId)>, p: (NodeId, NodeId))
    ensures
        redirect_all(x, rs.push(p)) == redirected(redirect_all(x, rs), p.0, p.1),
{
    assert(rs.push(p).drop_last() =~= rs);
}

pub open spec fn redirected(x: NodeId, from: NodeId, to: NodeId) -> NodeId {
    if x == from {
        to
    } else {
        x
    }
}

impl<P> LogicalPlan<P> {
    /// Makes every consumer of `from`, and the root if it is `from`, use
    /// `to` instead. Both must name nodes.
    pub fn redirect_uses(&mut self, from: NodeId, to: NodeId) -> (r: Result<(), PlanError>)
        ensures
            r is Ok <==> from.0 < old(self).spec_nodes().len() && to.0 < old(self).spec_nodes().len(),
            r matches Err(e) ==> e == (PlanError::UnknownNode {
                index: if from.0 >= old(self).spec_nodes().len() {
                    from.0
                } else {
                    to.0
                },
            }) && *final(self) == *old(self),
            r is Ok ==> {
                &&& final(self).spec_nodes().len() == old(self).spec_nodes().len()
                &&& forall|i: int|
                    0 <= i < old(self).spec_nodes().len() ==> {
                        &&& (#[trigger] final(self).spec_nodes()[i]).kind == old(self).spec_nodes()[i].kind
                        &&& final(self).spec_nodes()[i].payload == old(self).spec_nodes()[i].payload
                        &&& final(self).spec_nodes()[i].inputs@ == old(self).spec_nodes()[i].inputs@.map_values(
                            |x: NodeId| redirected(x, from, to),
                        )
                    }
                &&& final(self).spec_root() == match old(self).spec_root() {
                    Some(root) => Some(redirected(root, from, to)),
                    None => None,
                }
                &&& final(self).spec_context() == old(self).spec_context()
            },
            r is Ok && old(self).valid() && to.0 < from.0 ==> final(self).valid(),
    {
        if from.0 >= self.nodes.len() {
            return Err(PlanError::UnknownNode { index: from.0 });
        }
        if to.0 >= self.nodes.len() {
            return Err(PlanError::UnknownNode { index: to.0 });
        }
        let ghost before = self.nodes@;
        let n = self.nodes.len();
        let mut i: usize = 0;
        while i < n
            invariant
                0 <= i <= n,
                n == before.len(),
                self.nodes@.len() == n,
                self.root == old(self).root,
                self.context == old(self).context,
                before == old(self).nodes@,
                forall|t: int|
                    0 <= t < n ==> (#[trigger] self.nodes@[t]).kind == before[t].kind
                        && self.nodes@[t].payload == before[t].payload,
                forall|t: int|
                    0 <= t < i ==> (#[trigger] self.nodes@[t]).inputs@ == before[t].inputs@.map_values(
                        |x: NodeId| redirected(x, from, to),
                    ),
                forall|t: int| i <= t < n ==> (#[trigger] self.nodes@[t]).inputs@ == before[t].inputs@,
            decreases n - i,
        {
            let m = self.nodes[i].inputs.len();
            let mut j: usize = 0;
            while j < m
                invariant
                    0 <= j <= m,
                    i < n,
                    n == before.len(),
                    self.nodes@.len() == n,
                    self.root == old(self).root,
                    self.context == old(self).context,
                    m == before[i as int].inputs@.len(),
                    self.nodes@[i as int].inputs@.len() == m,
                    forall|t: int|
                        0 <= t < n ==> (#[trigger] self.nodes@[t]).kind == before[t].kind
                            && self.nodes@[t].payload == before[t].payload,
                    forall|t: int|
                        0 <= t < i ==> (#[trigger] self.nodes@[t]).inputs@ == before[t].inputs@.map_values(
                            |x: NodeId| redirected(x, from, to),
                        ),
                    forall|t: int| i < t < n ==> (#[trigger] self.nodes@[t]).inputs@ == before[t].inputs@,
                    forall|k: int|
                        0 <= k < j ==> self.nodes@[i as int].inputs@[k] == redirected(
                            before[i as int].inputs@[k],
                            from,
                            to,
                        ),
                    forall|k: int| j <= k < m ==> self.nodes@[i as int].inputs@[k] == before[i as int].inputs@[k],
                decreases m - j,
            {
                if self.nodes[i].inputs[j] == from {
                    self.nodes[i].inputs.set(j, to);
                }
                j += 1;
            }
            assert(self.nodes@[i as int].inputs@ =~= before[i as int].inputs@.map_values(
                |x: NodeId| redirected(x, from, to),
            ));
            i += 1;
        }
        match self.root {
            Some(root) => {
                if root == from {
                    self.root = Some(to);
                }
            },
            None => {},
        }
        proof {
            if old(self).valid() && to.0 < from.0 {
                assert forall|i: int, j: int|
                    0 <= i < self.nodes@.len() && 0 <= j < self.nodes@[i].inputs@.len() implies (
                    #[trigger] self.nodes@[i].inputs@[j]).0 < i by {
                    assert(before[i].inputs@[j].0 < i);
                }
            }
        }
        Ok(())
    }

    /// Nodes that read `id`, in id order.
    pub fn children(&self, id: NodeId) -> (r: Result<Vec<NodeId>, PlanError>)
        ensures
            r is Ok <==> id.0 < self.spec_nodes().len(),
            r matches Err(e) ==> e == (PlanError::UnknownNode { index: id.0 }),
            r matches Ok(c) ==> c@ == consumers(self.spec_nodes(), id, self.spec_nodes().len()),
    {
        if id.0 >= self.nodes.len() {
            return Err(PlanError::UnknownNode { index: id.0 });
        }
        let mut out: Vec<NodeId> = Vec::new();
        let mut i: usize = 0;
        while i < self.nodes.len()
            invariant
                0 <= i <= self.nodes@.len(),
                out@ == consumers(self.nodes@, id, i as nat),
            decreases self.nodes@.len() - i,
        {
            let node = &self.nodes[i];
            let mut reads = false;
            let mut j: usize = 0;
            while j < node.inputs.len()
                invariant
                    0 <= j <= node.inputs@.len(),
                    reads == exists|k: int| 0 <= k < j && node.inputs@[k] == id,
                decreases node.inputs@.len() - j,
            {
                if node.inputs[j] == id {
                    reads = true;
                }
                j += 1;
            }
            proof {
                assert(reads == node.inputs@.contains(id));
            }
            if reads {
                out.push(NodeId(i));
            }
            i += 1;
        }
        Ok(out)
    }
}

/// The nodes among the first `n` whose inputs include `id`, in id order.
pub open spec fn consumers<P>(nodes: Seq<LogicalNode<P>>, id: NodeId, n: nat) -> Seq<NodeId>
    decreases n,
{
    if n == 0 || n > nodes.len() {
        Seq::empty()
    } else if nodes[n - 1].inputs@.contains(id) {
        consumers(nodes, id, (n - 1) as nat).push(NodeId((n - 1) as usize))
    } else {
        consumers(nodes, id, (n - 1) as nat)
    }
}


/// A set of node indices that holds the root and, with each node of the
/// plan in it, every input of that node.
pub open spec fn closed_under_inputs<P>(nodes: Seq<LogicalNode<P>>, root: NodeId, s: Set<int>) -> bool {
    &&& s.contains(root.0 as int)
    &&& forall|j: int, k: int|
        0 <= j < nodes.len() && s.contains(j) && 0 <= k < nodes[j].inputs@.len() ==> s.contains(
            (#[trigger] nodes[j].inputs@[k]).0 as int,
        )
}

/// Node `i` is reachable from `root`: it lies in every set of nodes that
/// holds the root and is closed under taking inputs.
pub open spec fn reaches<P>(nodes: Seq<LogicalNode<P>>, root: NodeId, i: int) -> bool {
    &&& 0 <= i < nodes.len()
    &&& forall|s: Set<int>| #[trigger] closed_under_inputs(nodes, root, s) ==> s.contains(i)
}

proof fn lemma_reaches_step<P>(nodes: Seq<LogicalNode<P>>, root: NodeId, j: int, k: int)
    requires
        reaches(nodes, root, j),
        0 <= k < nodes[j].inputs@.len(),
        nodes[j].inputs@[k].0 < nodes.len(),
    ensures
        reaches(nodes, root, nodes[j].inputs@[k].0 as int),
{
    assert forall|s: Set<int>| #[trigger] closed_under_inputs(nodes, root, s) implies s.contains(
        nodes[j].inputs@[k].0 as int,
    ) by {
        assert(s.contains(j));
    }
}

/// Number of reachable nodes before `i`: the new index of a kept node.
pub open spec fn kept_before<P>(nodes: Seq<LogicalNode<P>>, root: NodeId, i: int) -> nat
    decreases i,
{
    if i <= 0 {
        0
    } else {
        kept_before(nodes, root, i - 1) + if reaches(nodes, root, i - 1) {
            1nat
        } else {
            0nat
        }
    }
}

/// Where pruning moves node `i`: its rank among the reachable nodes, or
/// nowhere when the root does not reach it.
pub open spec fn pruned_id<P>(nodes: Seq<LogicalNode<P>>, root: NodeId, i: int) -> Option<NodeId> {
    if reaches(nodes, root, i) {
        Some(NodeId(kept_before(nodes, root, i) as usize))
    } else {
        None
    }
}

/// `new` is `old` with each input renamed to its id after pruning.
pub open spec fn is_relabeled<P>(nodes: Seq<LogicalNode<P>>, root: NodeId, old: LogicalNode<P>, new: LogicalNode<P>) -> bool {
    &&& new.kind == old.kind
    &&& new.payload == old.payload
    &&& new.inputs@ == old.inputs@.map_values(|x: NodeId| NodeId(kept_before(nodes, root, x.0 as int) as usize))
}

/// `new_nodes` rooted at `new_root` is what pruning makes of `nodes` rooted
/// at `root`: the reachable nodes in id order, each relabeled.
pub open spec fn pruned_plan<P>(
    nodes: Seq<LogicalNode<P>>,
    root: NodeId,
    new_nodes: Seq<LogicalNode<P>>,
    new_root: NodeId,
) -> bool {
    &&& new_nodes.len() == kept_before(nodes, root, nodes.len() as int)
    &&& forall|i: int|
        #![trigger reaches(nodes, root, i)]
        0 <= i < nodes.len() && reaches(nodes, root, i) ==> is_relabeled(
            nodes,
            root,
            nodes[i],
            new_nodes[kept_before(nodes, root, i) as int],
        )
    &&& new_root == NodeId(kept_before(nodes, root, root.0 as int) as usize)
}

/// Ranks grow with the index, by at most one per node, and strictly past
/// a reachable node.
proof fn lemma_kept_before_grows<P>(nodes: Seq<LogicalNode<P>>, root: NodeId, a: int, b: int)
    requires
        0 <= a <= b,
    ensures
        kept_before(nodes, root, a) <= kept_before(nodes, root, b),
        kept_before(nodes, root, b) - kept_before(nodes, root, a) <= b - a,
        a < b && reaches(nodes, root, a) ==> kept_before(nodes, root, a) < kept_before(nodes, root, b),
    decreases b - a,
{
    if a < b {
        lemma_kept_before_grows(nodes, root, a, b - 1);
    }
}

impl<P> LogicalPlan<P> {
    /// Removes every node that the root does not reach. The kept nodes stay
    /// in id order, their inputs and the root renamed to match; the result
    /// gives, for each former node, its new id, or `None` when removed.
    pub fn prune_unreachable(&mut self) -> (r: Result<Vec<Option<NodeId>>, PlanError>)
        ensures
            r is Ok <==> old(self).valid(),
            r matches Err(e) ==> old(self).validate_error(e) && *final(self) == *old(self),
            r matches Ok(map) ==> {
                let nodes = old(self).spec_nodes();
                let root = old(self).spec_root().unwrap();
                &&& map@.len() == nodes.len()
                &&& forall|i: int| 0 <= i < nodes.len() ==> #[trigger] map@[i] == pruned_id(nodes, root, i)
                &&& final(self).spec_root() is Some
                &&& pruned_plan(nodes, root, final(self).spec_nodes(), final(self).spec_root().unwrap())
                &&& final(self).spec_context() == old(self).spec_context()
                &&& final(self).valid()
            },
    {
        let order = match self.preorder() {
            Err(e) => return Err(e),
            Ok(order) => order,
        };
        let ghost nodes = self.nodes@;
        let root = self.root.unwrap();
        let n = self.nodes.len();
        let mut keep: Vec<bool> = Vec::new();
        let mut v: usize = 0;
        while v < n
            invariant
                0 <= v <= n,
                keep@.len() == v,
                forall|t: int| 0 <= t < v ==> !keep@[t],
            decreases n - v,
        {
            keep.push(false);
            v += 1;
        }
        let mut w: usize = 0;
        while w < order.len()
            invariant
                0 <= w <= order@.len(),
                keep@.len() == n,
                n == nodes.len(),
                forall|i: int| 0 <= i < order@.len() ==> (#[trigger] order@[i]).0 < n,
                forall|t: int|
                    0 <= t < n ==> (keep@[t] <==> exists|a: int| 0 <= a < w && (#[trigger] order@[a]).0 == t),
            decreases order@.len() - w,
        {
            let id = order[w];
            keep.set(id.0, true);
            proof {
                assert forall|t: int|
                    0 <= t < n implies (keep@[t] <==> exists|a: int| 0 <= a < w + 1 && (#[trigger] order@[a]).0 == t) by {
                    if t == id.0 {
                        assert(order@[w as int].0 == t);
                    }
                }
            }
            w += 1;
        }
        proof {
            assert forall|t: int| 0 <= t < n implies (keep@[t] <==> reaches(nodes, root, t)) by {
                assert(order@.contains(NodeId(t as usize)) <==> reaches(nodes, root, t));
                if keep@[t] {
                    let a = choose|a: int| 0 <= a < order@.len() && (#[trigger] order@[a]).0 == t;
                    assert(order@[a] == NodeId(t as usize));
                }
                if order@.contains(NodeId(t as usize)) {
                    let a = choose|a: int| 0 <= a < order@.len() && order@[a] == NodeId(t as usize);
                    assert(order@[a].0 == t);
                }
            }
        }
        let mut map: Vec<Option<NodeId>> = Vec::new();
        let mut count: usize = 0;
        let mut i: usize = 0;
        while i < n
            invariant
                0 <= i <= n,
                n == nodes.len(),
                keep@.len() == n,
                forall|t: int| 0 <= t < n ==> (keep@[t] <==> reaches(nodes, root, t)),
                map@.len() == i,
                count == kept_before(nodes, root, i as int),
                count <= i,
                forall|t: int| 0 <= t < i ==> #[trigger] map@[t] == pruned_id(nodes, root, t),
            decreases n - i,
        {
            if keep[i] {
                map.push(Some(NodeId(count)));
                count += 1;
            } else {
                map.push(None);
            }
            i += 1;
        }
        let mut rest: Vec<LogicalNode<P>> = Vec::new();
        std::mem::swap(&mut rest, &mut self.nodes);
        let mut i: usize = 0;
        while i < n
            invariant
                0 <= i <= n,
                n == nodes.len(),
                inputs_precede(nodes),
                root.0 < n,
                reaches(nodes, root, root.0 as int),
                rest@ == nodes.subrange(i as int, n as int),
                keep@.len() == n,
                map@.len() == n,
                forall|t: int| 0 <= t < n ==> (keep@[t] <==> reaches(nodes, root, t)),
                forall|t: int| 0 <= t < n ==> #[trigger] map@[t] == pruned_id(nodes, root, t),
                self.nodes@.len() == kept_before(nodes, root, i as int),
                forall|t: int|
                    #![trigger reaches(nodes, root, t)]
                    0 <= t < i && reaches(nodes, root, t) ==> is_relabeled(
                        nodes,
                        root,
                        nodes[t],
                        self.nodes@[kept_before(nodes, root, t) as int],
                    ),
                inputs_precede(self.nodes@),
                self.context == old(self).context,
            decreases n - i,
        {
            let node = rest.remove(0);
            proof {
                assert(node == nodes[i as int]);
                assert(rest@ =~= nodes.subrange(i + 1, n as int));
            }
            if keep[i] {
                let ghost t = kept_before(nodes, root, i as int) as int;
                let m = node.inputs.len();
                let mut inputs: Vec<NodeId> = Vec::new();
                let mut k: usize = 0;
                while k < m
                    invariant
                        0 <= k <= m,
                        m == node.inputs@.len(),
                        node == nodes[i as int],
                        i < n,
                        n == nodes.len(),
                        inputs_precede(nodes),
                        reaches(nodes, root, i as int),
                        map@.len() == n,
                        forall|t: int| 0 <= t < n ==> #[trigger] map@[t] == pruned_id(nodes, root, t),
                        inputs@.len() == k,
                        forall|j: int|
                            0 <= j < k ==> #[trigger] inputs@[j] == NodeId(
                                kept_before(nodes, root, node.inputs@[j].0 as int) as usize,
                            ),
                        forall|j: int|
                            0 <= j < k ==> (#[trigger] inputs@[j]).0 < kept_before(nodes, root, i as int),
                    decreases m - k,
                {
                    let x = node.inputs[k];
                    proof {
                        assert(nodes[i as int].inputs@[k as int] == x);
                        assert(x.0 < i);
                        lemma_reaches_step(nodes, root, i as int, k as int);
                        lemma_kept_before_grows(nodes, root, x.0 as int, i as int);
                        lemma_kept_before_grows(nodes, root, 0, x.0 as int);
                    }
                    let new_id = match map[x.0] {
                        Some(id) => id,
                        None => {
                            proof {
                                assert(map@[x.0 as int] == pruned_id(nodes, root, x.0 as int));
                            }
                            x
                        },
                    };
                    inputs.push(new_id);
                    k += 1;
                }
                proof {
                    assert(inputs@ =~= node.inputs@.map_values(
                        |x: NodeId| NodeId(kept_before(nodes, root, x.0 as int) as usize),
                    ));
                }
                let ghost before = self.nodes@;
                self.nodes.push(LogicalNode { kind: node.kind, inputs, payload: node.payload });
                proof {
                    assert forall|a: int, b: int|
                        0 <= a < self.nodes@.len() && 0 <= b < self.nodes@[a].inputs@.len() implies (
                        #[trigger] self.nodes@[a].inputs@[b]).0 < a by {
                        if a < before.len() {
                            assert(self.nodes@[a] == before[a]);
                        }
                    }
                    assert forall|u: int|
                        #![trigger reaches(nodes, root, u)]
                        0 <= u < i + 1 && reaches(nodes, root, u) implies is_relabeled(
                        nodes,
                        root,
                        nodes[u],
                        self.nodes@[kept_before(nodes, root, u) as int],
                    ) by {
                        if u < i {
                            lemma_kept_before_grows(nodes, root, u, i as int);
                            assert(self.nodes@[kept_before(nodes, root, u) as int] == before[kept_before(
                                nodes,
                                root,
                                u,
                            ) as int]);
                        }
                    }
                }
            } else {
                proof {
                    assert forall|u: int|
                        #![trigger reaches(nodes, root, u)]
                        0 <= u < i + 1 && reaches(nodes, root, u) implies is_relabeled(
                        nodes,
                        root,
                        nodes[u],
                        self.nodes@[kept_before(nodes, root, u) as int],
                    ) by {
                    }
                }
            }
            i += 1;
        }
        let new_root = match map[root.0] {
            Some(id) => id,
            None => root,
        };
        proof {
            assert(map@[root.0 as int] == pruned_id(nodes, root, root.0 as int));
            lemma_kept_before_grows(nodes, root, root.0 as int, n as int);
        }
        self.root = Some(new_root);
        Ok(map)
    }
}

/// Below `kept_before(n)`, every rank is the rank of a reachable node
/// before `n`.
proof fn lemma_kept_before_hits<P>(nodes: Seq<LogicalNode<P>>, root: NodeId, n: int, t: int)
    requires
        0 <= n,
        0 <= t < kept_before(nodes, root, n),
    ensures
        exists|i: int| 0 <= i < n && reaches(nodes, root, i) && kept_before(nodes, root, i) == t,
    decreases n,
{
    if t < kept_before(nodes, root, n - 1) {
        lemma_kept_before_hits(nodes, root, n - 1, t);
        let i = choose|i: int| 0 <= i < n - 1 && reaches(nodes, root, i) && kept_before(nodes, root, i) == t;
        assert(0 <= i < n);
    } else {
        assert(reaches(nodes, root, n - 1) && kept_before(nodes, root, n - 1) == t);
    }
}

/// When every node before `t` is reachable, `t` of them come before it.
proof fn lemma_kept_before_all<P>(nodes: Seq<LogicalNode<P>>, root: NodeId, t: int)
    requires
        0 <= t <= nodes.len(),
        forall|x: int| 0 <= x < nodes.len() ==> #[trigger] reaches(nodes, root, x),
    ensures
        kept_before(nodes, root, t) == t,
    decreases t,
{
    if t > 0 {
        lemma_kept_before_all(nodes, root, t - 1);
        assert(reaches(nodes, root, t - 1));
    }
}

/// A node reachable before pruning is reachable, under its new id, after.
proof fn lemma_pruned_reaches<P>(
    nodes: Seq<LogicalNode<P>>,
    root: NodeId,
    new_nodes: Seq<LogicalNode<P>>,
    new_root: NodeId,
    i: int,
)
    requires
        root.0 < nodes.len(),
        inputs_precede(nodes),
        pruned_plan(nodes, root, new_nodes, new_root),
        reaches(nodes, root, i),
    ensures
        reaches(new_nodes, new_root, kept_before(nodes, root, i) as int),
{
    let n = nodes.len() as int;
    lemma_kept_before_grows(nodes, root, i, n);
    assert forall|sp: Set<int>| #[trigger] closed_under_inputs(new_nodes, new_root, sp) implies sp.contains(
        kept_before(nodes, root, i) as int,
    ) by {
        let s = Set::new(|x: int| reaches(nodes, root, x) && sp.contains(kept_before(nodes, root, x) as int));
        assert(reaches(nodes, root, root.0 as int)) by {
            assert forall|q: Set<int>| #[trigger] closed_under_inputs(nodes, root, q) implies q.contains(root.0 as int) by {
            }
        }
        lemma_kept_before_grows(nodes, root, 0, root.0 as int);
        assert(s.contains(root.0 as int));
        assert forall|j: int, k: int|
            0 <= j < nodes.len() && s.contains(j) && 0 <= k < nodes[j].inputs@.len() implies s.contains(
            (#[trigger] nodes[j].inputs@[k]).0 as int,
        ) by {
            let y = nodes[j].inputs@[k];
            assert(y.0 < j);
            lemma_reaches_step(nodes, root, j, k);
            lemma_kept_before_grows(nodes, root, j, n);
            lemma_kept_before_grows(nodes, root, y.0 as int, j);
            lemma_kept_before_grows(nodes, root, 0, y.0 as int);
            let kj = kept_before(nodes, root, j) as int;
            assert(is_relabeled(nodes, root, nodes[j], new_nodes[kj]));
            assert(new_nodes[kj].inputs@[k] == NodeId(kept_before(nodes, root, y.0 as int) as usize));
            assert(sp.contains(new_nodes[kj].inputs@[k].0 as int));
        }
        assert(closed_under_inputs(nodes, root, s));
        assert(s.contains(i));
    }
}

/// Pruning leaves only nodes the root reaches, so pruning the result again
/// keeps every node under its own id.
pub proof fn law_prune_idempotent<P>(
    nodes: Seq<LogicalNode<P>>,
    root: NodeId,
    new_nodes: Seq<LogicalNode<P>>,
    new_root: NodeId,
)
    requires
        root.0 < nodes.len(),
        inputs_precede(nodes),
        pruned_plan(nodes, root, new_nodes, new_root),
    ensures
        forall|t: int| 0 <= t < new_nodes.len() ==> #[trigger] reaches(new_nodes, new_root, t),
        forall|t: int| 0 <= t < new_nodes.len() ==> #[trigger] pruned_id(new_nodes, new_root, t) == Some(NodeId(t as usize)),
{
    let n = nodes.len() as int;
    assert forall|t: int| 0 <= t < new_nodes.len() implies #[trigger] reaches(new_nodes, new_root, t) by {
        lemma_kept_before_hits(nodes, root, n, t);
        let i = choose|i: int| 0 <= i < n && reaches(nodes, root, i) && kept_before(nodes, root, i) == t;
        lemma_pruned_reaches(nodes, root, new_nodes, new_root, i);
    }
    assert forall|t: int| 0 <= t < new_nodes.len() implies #[trigger] pruned_id(new_nodes, new_root, t) == Some(
        NodeId(t as usize),
    ) by {
        lemma_kept_before_all(new_nodes, new_root, t);
        assert(reaches(new_nodes, new_root, t));
    }
}

} // verus!
