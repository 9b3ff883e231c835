//! The contexts that are built for a unit are fit to emit it.

use vstd::prelude::*;

use crate::c_emitter;
use crate::c_emitter::{ReplacementView, Source};
use crate::c_expression;
use crate::c_expression::SceneView;
use crate::c_instruction;
use crate::c_instruction::FunctionView;
use crate::c_source;
use crate::c_source::TaskView;
use crate::c_static_plan::{CStaticAwaitPlan, FunctionPlanView};
use crate::c_symbols;
use crate::c_task;
use crate::c_terminator;
use crate::config::{OptimizationLevel, TargetConfig};
use crate::context_layout::{LayoutView, LogicalFieldId};
use crate::context_soundness;
use crate::control_flow::{BasicBlock, CfgInstruction, CfgTerminator, CfgValue};
use crate::identity_layout;
use crate::layout_check;
use crate::layout_check_laws;
use crate::layout_knowledge;
use crate::layout_passes;
use crate::layout_soundness;
use crate::level_laws;
use crate::liveness::{LivenessFunction, LivenessUnit};
use crate::order;
use crate::semantic::{HirExpr, HirExprKind};
use crate::size_layout;
use crate::slot_liveness::SlotLivenessUnit;
use crate::speed_layout;
use crate::symbol_index::FunctionId;
use crate::syntax;
use crate::syntax::DiagnosticSeverity;
use crate::target_layout;
use crate::target_layout::TargetLayoutModel;
use crate::text;

verus! {

/// Whether all that one scene has a place for, another one has a place for.
spec fn places_more(a: SceneView, b: SceneView) -> bool {
    match (a.task, b.task) {
        (Some(x), Some(y)) => forall|field: LogicalFieldId|
            c_source::placed(x, field) ==> #[trigger] c_source::placed(y, field),
        (None, None) => true,
        _ => false,
    }
}

proof fn expression_stays_ready(e: HirExpr, a: SceneView, b: SceneView)
    requires
        places_more(a, b),
        c_expression::expression_ready(e, a),
    ensures
        c_expression::expression_ready(e, b),
    decreases e,
{
    match e.kind {
        HirExprKind::Source(source) => {},
        HirExprKind::AwaitResultRef(slot) => {},
        HirExprKind::Composite { source, extensions } => {
            expressions_stay_ready(extensions@, a, b);
        },
        HirExprKind::TaskRef { declaration, name } => {},
        HirExprKind::Call { function, arguments } => {
            expression_stays_ready(*function, a, b);
            expressions_stay_ready(arguments@, a, b);
        },
        HirExprKind::AsyncCall { target, callee, arguments, result_type } => {
            expressions_stay_ready(arguments@, a, b);
        },
        HirExprKind::Binary { left, operator, right } => {
            expression_stays_ready(*left, a, b);
            expression_stays_ready(*right, a, b);
        },
        HirExprKind::Conditional { condition, consequence, alternative } => {
            expression_stays_ready(*condition, a, b);
            expression_stays_ready(*consequence, a, b);
            expression_stays_ready(*alternative, a, b);
        },
        HirExprKind::Comma { left, right } => {
            expression_stays_ready(*left, a, b);
            expression_stays_ready(*right, a, b);
        },
        HirExprKind::Assignment { left, operator, right } => {
            expression_stays_ready(*left, a, b);
            expression_stays_ready(*right, a, b);
        },
        HirExprKind::Unary { operator, operand } => {
            expression_stays_ready(*operand, a, b);
        },
        HirExprKind::Await(operand) => {
            expression_stays_ready(*operand, a, b);
        },
        HirExprKind::Yield(value) => {
            if let Some(own) = value {
                expression_stays_ready(*own, a, b);
            }
        },
    }
}

proof fn expressions_stay_ready(list: Seq<HirExpr>, a: SceneView, b: SceneView)
    requires
        places_more(a, b),
        c_expression::expressions_ready(list, a),
    ensures
        c_expression::expressions_ready(list, b),
    decreases list,
{
    assert forall|i: int| 0 <= i < list.len() implies c_expression::expression_ready(
        #[trigger] list[i],
        b,
    ) by {
        expression_stays_ready(list[i], a, b);
    }
}

/// Whether two functions as they are written differ in their contexts alone, and
/// the second has a place for all that the first has a place for.
spec fn view_more(a: FunctionView, b: FunctionView) -> bool {
    &&& places_more(a.scene, b.scene)
    &&& a.scene.fields == b.scene.fields
    &&& a.function == b.function
    &&& a.plan == b.plan
    &&& a.await_types == b.await_types
}

proof fn terminator_stays_ready(terminator: CfgTerminator, a: FunctionView, b: FunctionView)
    requires
        view_more(a, b),
        c_terminator::terminator_ready(terminator, a),
    ensures
        c_terminator::terminator_ready(terminator, b),
{
    match terminator {
        CfgTerminator::Branch { condition, consequence, alternative } => {
            expression_stays_ready(condition, a.scene, b.scene);
        },
        CfgTerminator::Switch { expression, cases, default } => {
            expression_stays_ready(expression, a.scene, b.scene);
            assert forall|i: int| 0 <= i < cases@.len() implies c_expression::expression_ready(
                (#[trigger] cases@[i]).value,
                b.scene,
            ) by {
                expression_stays_ready(cases@[i].value, a.scene, b.scene);
            }
        },
        CfgTerminator::Suspend { edge, operand, slot, continuation, span } => {
            if a.scene.task is Some {
                let arguments = c_terminator::call_arguments(operand);
                if c_expression::expressions_ready(arguments, a.scene) {
                    expressions_stay_ready(arguments, a.scene, b.scene);
                }
                if c_expression::expression_ready(operand, a.scene) {
                    expression_stays_ready(operand, a.scene, b.scene);
                }
            }
        },
        CfgTerminator::Yield { value, continuation, span } => {
            if let (Some(own), Some(task)) = (value, a.scene.task) {
                value_stays_ready(own, a.scene, b.scene);
            }
        },
        CfgTerminator::Return { value, span } => {
            if let Some(own) = value {
                value_stays_ready(own, a.scene, b.scene);
            }
        },
        _ => {},
    }
}

proof fn value_stays_ready(value: CfgValue, a: SceneView, b: SceneView)
    requires
        places_more(a, b),
        c_expression::value_ready(value, a),
    ensures
        c_expression::value_ready(value, b),
{
    if let CfgValue::Expression(expression) = value {
        expression_stays_ready(expression, a, b);
    }
}

proof fn instruction_stays_ready(
    instruction: CfgInstruction,
    a: SceneView,
    b: SceneView,
)
    requires
        places_more(a, b),
        c_instruction::instruction_ready(instruction, a),
    ensures
        c_instruction::instruction_ready(instruction, b),
{
    match instruction {
        CfgInstruction::Declaration(declaration) => {
            if let Some(initializer) = declaration.initializer {
                expression_stays_ready(initializer, a, b);
            }
        },
        CfgInstruction::AssignExpression { destination, expression, span } => {
            expression_stays_ready(expression, a, b);
        },
        CfgInstruction::AssignExpressionSlot { slot, ty, expression, span } => {
            if a.task is Some {
                expression_stays_ready(expression, a, b);
            }
        },
        CfgInstruction::Evaluate(expression) => {
            expression_stays_ready(expression, a, b);
        },
        CfgInstruction::PushCleanup(registration) => {
            expressions_stay_ready(registration.arguments@, a, b);
        },
        _ => {},
    }
}

proof fn blocks_stay_ready(a: FunctionView, b: FunctionView)
    requires
        view_more(a, b),
        c_terminator::blocks_ready(a),
    ensures
        c_terminator::blocks_ready(b),
{
    let cfg = a.function.coroutine.cfg;
    assert forall|i: int|
        0 <= i < cfg.blocks@.len() && c_symbols::block_reached(
            cfg,
            (#[trigger] cfg.blocks@[i]).id,
        ) implies c_terminator::block_ready(cfg.blocks@[i], b) by {
        let block: BasicBlock = cfg.blocks@[i];
        assert(c_terminator::block_ready(block, a));
        assert forall|k: int|
            0 <= k < block.instructions@.len() implies c_instruction::instruction_ready(
            #[trigger] block.instructions@[k],
            b.scene,
        ) by {
            instruction_stays_ready(block.instructions@[k], a.scene, b.scene);
        }
        terminator_stays_ready(block.terminator, a, b);
    }
}

/// Whether no two functions of a plan start at one place.
pub open spec fn plans_apart(plan: Option<&CStaticAwaitPlan>) -> bool {
    let functions = c_emitter::planned_functions(plan);
    forall|i: int, j: int|
        0 <= i < j < functions.len() ==> (#[trigger] functions[i]).1.source_start != (
        #[trigger] functions[j]).1.source_start
}

proof fn last_plan_is_first(
    functions: Seq<(FunctionId, FunctionPlanView)>,
    start: usize,
    i: int,
    n: int,
)
    requires
        0 <= i <= n <= functions.len(),
        forall|a: int, b: int|
            0 <= a < b < functions.len() ==> (#[trigger] functions[a]).1.source_start != (
            #[trigger] functions[b]).1.source_start,
        forall|a: int|
            0 <= a < functions.len() && !(i <= a < n) ==> (
            #[trigger] functions[a]).1.source_start != start,
    ensures
        c_emitter::plan_last(functions, start, n) == identity_layout::plan_at(
            functions,
            start,
            i,
        ),
    decreases n - i,
{
    if i < functions.len() && functions[i].1.source_start == start {
        found_plan_is_last(functions, start, i, n);
    } else if i < n {
        last_plan_is_first(functions, start, i + 1, n);
    } else {
        no_plan_last(functions, start, n);
        no_plan_first(functions, start, i);
    }
}

proof fn found_plan_is_last(
    functions: Seq<(FunctionId, FunctionPlanView)>,
    start: usize,
    i: int,
    n: int,
)
    requires
        0 <= i < n <= functions.len(),
        functions[i].1.source_start == start,
        forall|a: int|
            i < a < functions.len() ==> (#[trigger] functions[a]).1.source_start != start,
    ensures
        c_emitter::plan_last(functions, start, n) == Some(functions[i].1),
    decreases n,
{
    if i < n - 1 {
        found_plan_is_last(functions, start, i, n - 1);
    }
}

proof fn no_plan_last(functions: Seq<(FunctionId, FunctionPlanView)>, start: usize, n: int)
    requires
        n <= functions.len(),
        forall|a: int|
            0 <= a < functions.len() ==> (#[trigger] functions[a]).1.source_start != start,
    ensures
        c_emitter::plan_last(functions, start, n) is None,
    decreases n,
{
    if n > 0 {
        no_plan_last(functions, start, n - 1);
    }
}

proof fn no_plan_first(functions: Seq<(FunctionId, FunctionPlanView)>, start: usize, i: int)
    requires
        forall|a: int|
            0 <= a < functions.len() ==> (#[trigger] functions[a]).1.source_start != start,
    ensures
        identity_layout::plan_at(functions, start, i) is None,
    decreases functions.len() - i,
{
    if 0 <= i < functions.len() {
        no_plan_first(functions, start, i + 1);
    }
}

/// The plan that C code follows is the one that contexts follow.
proof fn plans_agree(plan: Option<&CStaticAwaitPlan>, start: usize)
    requires
        plans_apart(plan),
    ensures
        c_emitter::plan_for(plan, start) == identity_layout::planned_at(plan, start),
{
    let functions = c_emitter::planned_functions(plan);
    last_plan_is_first(functions, start, 0, functions.len() as int);
}

/// Whether a function brings along what its C code needs besides a context: it
/// starts and ends between characters, and its code refers to nothing that is
/// missing when every field of its context stands alone.
pub open spec fn function_prepared(source: Source<'_>, i: int) -> bool {
    let function = source.unit[i];
    let span = function.coroutine.cfg.span;
    let plan = identity_layout::planned_at(source.plan, span.start_byte);
    let children = c_emitter::plan_children(source.plan);
    &&& text::is_boundary(source.original, span.start_byte as int)
    &&& text::is_boundary(source.original, span.end_byte as int)
    &&& if function.coroutine.cfg.is_async {
        &&& text::trimmed(function.coroutine.cfg.return_type.text@) != "void"@
        &&& c_terminator::blocks_ready(
            c_task::async_view(
                function,
                plan,
                identity_layout::identity_layout(function, plan),
                children,
                source.config,
            ),
        )
    } else {
        c_task::sync_ready(
            c_task::sync_view(function, plan, children, source.config),
            source.original,
        )
    }
}

proof fn problems_are_errors(
    functions: Seq<LivenessFunction>,
    slot_liveness: SlotLivenessUnit,
    n: int,
)
    ensures
        forall|k: int|
            0 <= k < identity_layout::identity_problems(functions, slot_liveness, n).len() ==> (
            #[trigger] identity_layout::identity_problems(
                functions,
                slot_liveness,
                n,
            )[k]).severity == DiagnosticSeverity::Error,
        identity_layout::identity_problems(functions, slot_liveness, n).len() == 0
            ==> forall|i: int|
            #![trigger functions[i]]
            0 <= i < n && functions[i].coroutine.cfg.is_async ==> identity_layout::has_context(
                functions,
                slot_liveness,
                i,
            ),
    decreases n,
{
    if n > 0 {
        problems_are_errors(functions, slot_liveness, n - 1);
    }
}

/// The replacements stand where the functions stand.
proof fn replacements_stand(
    source: Source<'_>,
    problems: Seq<crate::syntax::DiagnosticView>,
    n: int,
)
    requires
        0 <= n <= source.unit.len(),
    ensures
        c_emitter::replacements_of(source, problems, n).list.len() == n,
        forall|i: int|
            0 <= i < n ==> (#[trigger] c_emitter::replacements_of(
                source,
                problems,
                n,
            ).list[i]).start == source.unit[i].coroutine.cfg.span.start_byte
                && c_emitter::replacements_of(source, problems, n).list[i].end
                == source.unit[i].coroutine.cfg.span.end_byte,
    decreases n,
{
    if n > 0 {
        replacements_stand(source, problems, n - 1);
    }
}

proof fn splicing_ready(source: Source<'_>, unit: LivenessUnit)
    requires
        source.unit == unit.functions@,
        forall|i: int|
            #![trigger source.unit[i]]
            0 <= i < source.unit.len() ==> function_prepared(source, i),
    ensures
        ({
            let replaced = c_emitter::replacements_of(
                source,
                syntax::views(unit.diagnostics@),
                source.unit.len() as int,
            );
            c_emitter::splice_ready(
                c_emitter::source_head(source.original, replaced.list.len() > 0),
                source.original,
                c_emitter::ordered_replacements(replaced.list),
            )
        }),
{
    let problems = syntax::views(unit.diagnostics@);
    let n = source.unit.len() as int;
    let list: Seq<ReplacementView> = c_emitter::replacements_of(source, problems, n).list;
    replacements_stand(source, problems, n);
    assert(n == unit.functions.len());
    let keys = c_emitter::replacement_keys(list);
    let places = order::stable_order(keys, keys.len() as int);
    order::stable_order_sorts(keys, keys.len() as int);
    let ordered = c_emitter::ordered_replacements(list);
    assert forall|k: int| 0 <= k < ordered.len() implies text::is_boundary(
        source.original,
        (#[trigger] ordered[k]).start as int,
    ) && text::is_boundary(source.original, ordered[k].end as int) by {
        let i = places[k];
        assert(ordered[k] == list[i]);
        assert(function_prepared(source, i));
    }
}

/// A function with a fine context can be emitted.
proof fn function_with_context(
    source: Source<'_>,
    slot_liveness: SlotLivenessUnit,
    layout: LayoutView,
    i: int,
)
    requires
        identity_layout::contexts_distinct(source.unit, source.plan, slot_liveness),
        context_soundness::contexts_fit(source.unit, source.plan, slot_liveness),
        plans_apart(source.plan),
        0 <= i < source.unit.len(),
        identity_layout::has_context(source.unit, slot_liveness, i),
        function_prepared(source, i),
        order::lookup(source.layouts, context_soundness::start_of(source.unit, i)) == Some(layout),
        ({
            let plan = identity_layout::planned_at(
                source.plan,
                context_soundness::start_of(source.unit, i),
            );
            let lone = identity_layout::identity_layout(source.unit[i], plan);
            &&& context_soundness::layout_fine(
                layout,
                lone.fields,
                plan,
                source.unit[i],
                identity_layout::lifetimes_of(slot_liveness.functions@, i, 0)->0,
            )
            &&& layout.await_result_types == lone.await_result_types
        }),
    ensures
        c_emitter::function_emittable(source, i),
{
    let function = source.unit[i];
    let start = context_soundness::start_of(source.unit, i);
    let plan = identity_layout::planned_at(source.plan, start);
    let lone = identity_layout::identity_layout(function, plan);
    let lifetimes = identity_layout::lifetimes_of(slot_liveness.functions@, i, 0)->0;
    let children = c_emitter::plan_children(source.plan);
    let before = c_task::async_view(function, plan, lone, children, source.config);
    let after = c_task::async_view(function, plan, layout, children, source.config);
    let task: TaskView = after.scene.task->0;
    plans_agree(source.plan, start);
    context_soundness::lone_layout_fine(source.unit, source.plan, slot_liveness, i);
    level_laws::fine_slots(layout, lone.fields, plan, function, lifetimes);
    layout_soundness::sound_layouts_pass(
        Seq::empty(),
        lone.fields,
        layout,
        plan,
        function,
        lifetimes,
    );
    assert(identity_layout::fields_distinct(identity_layout::context_fields(function, plan)));
    layout_check_laws::checked_layouts_place_what_code_uses(
        after,
        task,
        lifetimes,
        Seq::empty(),
    );
    blocks_stay_ready(before, after);
}

/// Whether every layout is listed where its function starts.
spec fn listed_at_starts(layouts: Seq<(usize, LayoutView)>) -> bool {
    forall|k: int| 0 <= k < layouts.len() ==> (#[trigger] layouts[k]).1.source_start == layouts[k].0
}

proof fn put_at_start(layouts: Seq<(usize, LayoutView)>, start: usize, layout: LayoutView)
    requires
        listed_at_starts(layouts),
        layout.source_start == start,
    ensures
        listed_at_starts(order::put(layouts, start, layout)),
{
    order::key_point_bounds(layouts, start, 0);
    let p = order::key_point(layouts, start, 0);
    let after = order::put(layouts, start, layout);
    assert forall|k: int| 0 <= k < after.len() implies (#[trigger] after[k]).1.source_start
        == after[k].0 by {
        if k != p {
            if order::lookup(layouts, start) is Some || k < p {
                assert(after[k] == layouts[k]);
            } else {
                assert(after[k] == layouts[k - 1]);
            }
        }
    }
}

proof fn found_at_start(layouts: Seq<(usize, LayoutView)>, start: usize)
    requires
        listed_at_starts(layouts),
    ensures
        match order::lookup(layouts, start) {
            Some(layout) => layout.source_start == start,
            None => true,
        },
{
    order::key_point_bounds(layouts, start, 0);
    let p = order::key_point(layouts, start, 0);
    if order::lookup(layouts, start) is Some {
        <usize as order::Key>::injective(layouts[p].0, start);
        assert(layouts[p].1.source_start == layouts[p].0);
    }
}

proof fn identity_at_starts(
    functions: Seq<LivenessFunction>,
    plan: Option<&CStaticAwaitPlan>,
    slot_liveness: SlotLivenessUnit,
    n: int,
)
    ensures
        listed_at_starts(identity_layout::identity_layouts(functions, plan, slot_liveness, n)),
    decreases n,
{
    if n > 0 {
        identity_at_starts(functions, plan, slot_liveness, n - 1);
        let start = context_soundness::start_of(functions, n - 1);
        put_at_start(
            identity_layout::identity_layouts(functions, plan, slot_liveness, n - 1),
            start,
            identity_layout::identity_layout(
                functions[n - 1],
                identity_layout::planned_at(plan, start),
            ),
        );
    }
}

proof fn speed_at_starts(
    layouts: Seq<(usize, LayoutView)>,
    functions: Seq<LivenessFunction>,
    plan: Option<&CStaticAwaitPlan>,
    slot_liveness: SlotLivenessUnit,
    n: int,
)
    requires
        listed_at_starts(layouts),
    ensures
        listed_at_starts(
            layout_passes::speed_layouts(layouts, functions, plan, slot_liveness, n),
        ),
    decreases n,
{
    if n > 0 {
        speed_at_starts(layouts, functions, plan, slot_liveness, n - 1);
        let before = layout_passes::speed_layouts(layouts, functions, plan, slot_liveness, n - 1);
        let start = context_soundness::start_of(functions, n - 1);
        found_at_start(before, start);
        if let (Some(layout), Some(lifetimes)) = (
            order::lookup(before, start),
            identity_layout::lifetimes_of(slot_liveness.functions@, n - 1, 0),
        ) {
            put_at_start(
                before,
                start,
                speed_layout::speed_layout(
                    layout,
                    identity_layout::planned_at(plan, start),
                    lifetimes,
                ),
            );
        }
    }
}

proof fn sized_at_starts(
    layouts: Seq<(usize, LayoutView)>,
    functions: Seq<LivenessFunction>,
    plan: Option<&CStaticAwaitPlan>,
    slot_liveness: SlotLivenessUnit,
    aggressive: bool,
    model: TargetLayoutModel,
    n: int,
)
    requires
        listed_at_starts(layouts),
    ensures
        listed_at_starts(
            layout_passes::sized_layouts(
                layouts,
                functions,
                plan,
                slot_liveness,
                aggressive,
                model,
                n,
            ),
        ),
    decreases n,
{
    if n > 0 {
        sized_at_starts(layouts, functions, plan, slot_liveness, aggressive, model, n - 1);
        let before = layout_passes::sized_layouts(
            layouts,
            functions,
            plan,
            slot_liveness,
            aggressive,
            model,
            n - 1,
        );
        let start = context_soundness::start_of(functions, n - 1);
        found_at_start(before, start);
        found_at_start(layouts, start);
        if let (Some(layout), Some(speed)) = (
            order::lookup(before, start),
            order::lookup(layouts, start),
        ) {
            put_at_start(
                before,
                start,
                size_layout::sized_layout(
                    layout,
                    speed,
                    functions[n - 1],
                    identity_layout::planned_at(plan, start),
                    identity_layout::lifetimes_of(slot_liveness.functions@, n - 1, 0),
                    aggressive,
                    model,
                    size_layout::exact_types(layouts, layouts.len() as int),
                ),
            );
        }
    }
}

proof fn function_found(functions: Seq<LivenessFunction>, i: int, k: int)
    requires
        0 <= k <= i < functions.len(),
    ensures
        layout_check::function_at(functions, context_soundness::start_of(functions, i), k) is Some,
    decreases i - k,
{
    if k < i {
        function_found(functions, i, k + 1);
    }
}

/// The contexts that are built for a unit belong to its functions, whatever the
/// unit, the level of optimization and the target: they can always be checked.
pub proof fn built_layouts_belong(
    functions: Seq<LivenessFunction>,
    plan: Option<&CStaticAwaitPlan>,
    slot_liveness: SlotLivenessUnit,
    optimization: OptimizationLevel,
    target: TargetConfig,
    packing_barrier: bool,
)
    ensures
        layout_check::layouts_belong(
            functions,
            slot_liveness,
            layout_passes::context_layouts(
                functions,
                plan,
                slot_liveness,
                optimization,
                target,
                packing_barrier,
            ),
        ),
{
    let n = functions.len() as int;
    let identity = identity_layout::identity_layouts(functions, plan, slot_liveness, n);
    let layouts = layout_passes::context_layouts(
        functions,
        plan,
        slot_liveness,
        optimization,
        target,
        packing_barrier,
    );
    identity_at_starts(functions, plan, slot_liveness, n);
    speed_at_starts(identity, functions, plan, slot_liveness, n);
    let speed = if optimization == OptimizationLevel::Off {
        identity
    } else {
        layout_passes::speed_layouts(identity, functions, plan, slot_liveness, n)
    };
    layout_knowledge::knowledge_keeps_layouts(speed, target, packing_barrier);
    let known = layout_knowledge::known_layouts(speed, target, packing_barrier);
    let aggressive = optimization == OptimizationLevel::Aggressive;
    if let Some(model) = target_layout::model_of(target) {
        sized_at_starts(known, functions, plan, slot_liveness, aggressive, model, n);
    }
    let sized = layout_passes::size_layouts(
        known,
        functions,
        plan,
        slot_liveness,
        aggressive,
        target,
        packing_barrier,
    );
    assert(listed_at_starts(sized));
    layout_knowledge::knowledge_keeps_layouts(sized, target, packing_barrier);
    assert(listed_at_starts(layouts));
    assert forall|i: int|
        #![trigger functions[i]]
        0 <= i < n && identity_layout::has_context(functions, slot_liveness, i) implies match
        order::lookup(layouts, functions[i].coroutine.cfg.span.start_byte) {
        Some(layout) => layout_check::function_at(functions, layout.source_start, 0) is Some,
        None => true,
    } by {
        found_at_start(layouts, context_soundness::start_of(functions, i));
        function_found(functions, i, 0);
    }
}

/// What is built for a unit is fit to emit it: at every level of optimization and
/// for every target, the contexts belong to functions of the unit, and either
/// building them reports an error, or all that the C code of the unit refers to is
/// there.
pub proof fn built_layouts_can_be_emitted(
    source: Source<'_>,
    unit: LivenessUnit,
    slot_liveness: SlotLivenessUnit,
    optimization: OptimizationLevel,
    target: TargetConfig,
    packing_barrier: bool,
)
    requires
        identity_layout::contexts_distinct(unit.functions@, source.plan, slot_liveness),
        context_soundness::starts_distinct(unit.functions@, slot_liveness),
        context_soundness::contexts_fit(unit.functions@, source.plan, slot_liveness),
        plans_apart(source.plan),
        source.unit == unit.functions@,
        source.layouts == layout_passes::context_layouts(
            unit.functions@,
            source.plan,
            slot_liveness,
            optimization,
            target,
            packing_barrier,
        ),
        forall|i: int|
            #![trigger source.unit[i]]
            0 <= i < source.unit.len() ==> function_prepared(source, i),
    ensures
        layout_check::layouts_belong(unit.functions@, slot_liveness, source.layouts),
        c_emitter::holds_error(
            identity_layout::identity_problems(
                unit.functions@,
                slot_liveness,
                unit.functions@.len() as int,
            ) + layout_check::layout_problems(unit, source.plan, slot_liveness, source.layouts),
        ) || c_emitter::unit_emittable(source, unit),
{
    let functions = unit.functions@;
    let n = functions.len() as int;
    let plan = source.plan;
    context_soundness::built_layouts_are_sound(
        functions,
        plan,
        slot_liveness,
        optimization,
        target,
        packing_barrier,
    );
    built_layouts_belong(
        functions,
        plan,
        slot_liveness,
        optimization,
        target,
        packing_barrier,
    );
    problems_are_errors(functions, slot_liveness, n);
    let found = identity_layout::identity_problems(functions, slot_liveness, n);
    let all = found + layout_check::layout_problems(unit, plan, slot_liveness, source.layouts);
    if found.len() > 0 {
        assert(all[0] == found[0]);
        assert(c_emitter::holds_error(all));
    } else {
        splicing_ready(source, unit);
        level_laws::levels_keep_members(
            functions,
            plan,
            slot_liveness,
            optimization,
            target,
            packing_barrier,
        );
        context_soundness::identity_found(functions, plan, slot_liveness, n);
        let identity = identity_layout::identity_layouts(functions, plan, slot_liveness, n);
        assert forall|i: int|
            #![trigger source.unit[i]]
            0 <= i < source.unit.len() implies c_emitter::function_emittable(source, i) by {
            let start = context_soundness::start_of(functions, i);
            assert(function_prepared(source, i));
            if functions[i].coroutine.cfg.is_async {
                let layout = order::lookup(source.layouts, start)->0;
                let lone = order::lookup(identity, start)->0;
                assert(context_soundness::lone_layout(functions, plan, slot_liveness, i)
                    == Some(lone));
                order::lookup_finds(source.layouts, start);
                order::lookup_finds(identity, start);
                let k = choose|k: int|
                    0 <= k < source.layouts.len() && source.layouts[k] == (start, layout);
                assert(identity[k].0 == start);
                assert(identity[k].1 == lone);
                assert(level_laws::same_function(source.layouts[k].1, identity[k].1));
                function_with_context(source, slot_liveness, layout, i);
            } else {
                plans_agree(plan, start);
            }
        }
    }
}

} // verus!
