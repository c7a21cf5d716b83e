use lib::optimizer::{
    optimize, run_fixed_point, OptimizerContext, OptimizerError, OptimizerPass, PassResult,
    PlanRegistry,
};
use lib::plan::{LogicalNode, LogicalPlan, NoPayload, NodeKind};

struct CountDown(usize);

impl OptimizerPass<NoPayload> for CountDown {
    fn name(&self) -> &'static str {
        "count-down"
    }

    fn run(
        &self,
        _plan: &mut LogicalPlan<NoPayload>,
        _context: &mut OptimizerContext,
    ) -> Result<PassResult, String> {
        let _ = self.0;
        Ok(PassResult::unchanged())
    }
}

struct AlwaysChanges;

impl OptimizerPass<NoPayload> for AlwaysChanges {
    fn name(&self) -> &'static str {
        "always-changes"
    }

    fn run(
        &self,
        _plan: &mut LogicalPlan<NoPayload>,
        _context: &mut OptimizerContext,
    ) -> Result<PassResult, String> {
        Ok(PassResult::changed())
    }
}

fn single_source_plan() -> LogicalPlan<NoPayload> {
    let mut plan = LogicalPlan::new();
    let root = plan.add_node(LogicalNode::new(NodeKind::Source, vec![], None));
    plan.set_root(root).unwrap();
    plan
}

#[test]
fn fixed_point_stops_when_pass_reports_unchanged() {
    let mut plan = single_source_plan();
    assert_eq!(
        run_fixed_point(&mut plan, &CountDown(0), &mut OptimizerContext::default(), 4).unwrap(),
        1
    );
}

#[test]
fn snapshots_include_pass_name_and_plan_explain() {
    let mut plan = single_source_plan();
    let mut registry = PlanRegistry::default();
    registry.register_pass(Box::new(CountDown(0)));
    let (context, report) = optimize(&mut plan, &registry).unwrap();
    assert_eq!(report.passes_run, ["count-down"]);
    assert!(context.snapshots[0].1.contains("LogicalPlan(root="));
}

#[test]
fn fixed_point_reports_iteration_limit() {
    let mut plan = single_source_plan();
    let error = run_fixed_point(&mut plan, &AlwaysChanges, &mut OptimizerContext::default(), 3)
        .unwrap_err();
    assert!(matches!(error, OptimizerError::NonConvergent { iterations: 3 }));
}

struct Noting(&'static str);

impl OptimizerPass<NoPayload> for Noting {
    fn name(&self) -> &'static str {
        self.0
    }

    fn run(
        &self,
        _plan: &mut LogicalPlan<NoPayload>,
        _context: &mut OptimizerContext,
    ) -> Result<PassResult, String> {
        Ok(PassResult::unchanged().diagnostic("note", self.0.to_string()))
    }
}

struct Failing;

impl OptimizerPass<NoPayload> for Failing {
    fn name(&self) -> &'static str {
        "failing"
    }

    fn run(
        &self,
        _plan: &mut LogicalPlan<NoPayload>,
        _context: &mut OptimizerContext,
    ) -> Result<PassResult, String> {
        Err("boom".to_string())
    }
}

struct ChangesTwice(std::cell::Cell<usize>);

impl OptimizerPass<NoPayload> for ChangesTwice {
    fn name(&self) -> &'static str {
        "changes-twice"
    }

    fn run(
        &self,
        _plan: &mut LogicalPlan<NoPayload>,
        _context: &mut OptimizerContext,
    ) -> Result<PassResult, String> {
        let call = self.0.get() + 1;
        self.0.set(call);
        let result = if call <= 2 { PassResult::changed() } else { PassResult::unchanged() };
        Ok(result.diagnostic("call", call.to_string()))
    }
}

#[test]
fn optimize_runs_passes_in_registration_order() {
    let mut plan = single_source_plan();
    let mut registry = PlanRegistry::default();
    registry.register_pass(Box::new(Noting("first")));
    registry.register_pass(Box::new(Noting("second")));
    let (context, report) = optimize(&mut plan, &registry).unwrap();
    assert_eq!(report.passes_run, ["first", "second"]);
    assert_eq!(report.iterations, 1);
    let names: Vec<&str> = context.snapshots.iter().map(|s| s.0.as_str()).collect();
    assert_eq!(names, ["first", "second"]);
    assert_eq!(context.snapshots[1].1, plan.explain().unwrap());
    let messages: Vec<&str> = report.diagnostics.iter().map(|d| d.message.as_str()).collect();
    assert_eq!(messages, ["first", "second"]);
}

#[test]
fn optimize_reports_the_failing_pass() {
    let mut plan = single_source_plan();
    let mut registry = PlanRegistry::default();
    registry.register_pass(Box::new(Noting("first")));
    registry.register_pass(Box::new(Failing));
    match optimize(&mut plan, &registry) {
        Err(OptimizerError::Pass { pass, message }) => {
            assert_eq!(pass, "failing");
            assert_eq!(message, "boom");
        }
        other => panic!("unexpected outcome: {:?}", other.map(|(_, report)| report)),
    }
}

#[test]
fn optimize_with_no_passes_leaves_the_plan() {
    let mut plan = single_source_plan();
    let registry: PlanRegistry<NoPayload> = PlanRegistry::default();
    let (context, report) = optimize(&mut plan, &registry).unwrap();
    assert!(report.passes_run.is_empty());
    assert!(context.snapshots.is_empty());
    assert!(context.diagnostics.is_empty());
    assert_eq!(plan.explain().unwrap(), single_source_plan().explain().unwrap());
}

#[test]
fn fixed_point_converges_at_first_unchanged_call() {
    let mut plan = single_source_plan();
    let pass = ChangesTwice(std::cell::Cell::new(0));
    let mut context = OptimizerContext::default();
    assert_eq!(run_fixed_point(&mut plan, &pass, &mut context, 5).unwrap(), 3);
    assert_eq!(pass.0.get(), 3);
    let messages: Vec<&str> = context.diagnostics.iter().map(|d| d.message.as_str()).collect();
    assert_eq!(messages, ["1", "2", "3"]);
}

#[test]
fn fixed_point_gives_up_after_the_limit() {
    let mut plan = single_source_plan();
    let pass = ChangesTwice(std::cell::Cell::new(0));
    let mut context = OptimizerContext::default();
    let error = run_fixed_point(&mut plan, &pass, &mut context, 2).unwrap_err();
    assert!(matches!(error, OptimizerError::NonConvergent { iterations: 2 }));
    assert_eq!(pass.0.get(), 2);
    assert_eq!(context.diagnostics.len(), 2);
}

#[test]
fn fixed_point_with_no_limit_never_calls_the_pass() {
    let mut plan = single_source_plan();
    let pass = ChangesTwice(std::cell::Cell::new(0));
    let error = run_fixed_point(&mut plan, &pass, &mut OptimizerContext::default(), 0).unwrap_err();
    assert!(matches!(error, OptimizerError::NonConvergent { iterations: 0 }));
    assert_eq!(pass.0.get(), 0);
}

#[test]
fn fixed_point_reports_a_failing_pass() {
    let mut plan = single_source_plan();
    match run_fixed_point(&mut plan, &Failing, &mut OptimizerContext::default(), 3) {
        Err(OptimizerError::Pass { pass, message }) => {
            assert_eq!(pass, "failing");
            assert_eq!(message, "boom");
        }
        other => panic!("unexpected outcome: {:?}", other),
    }
}
