//! C code of the ends of blocks, and of whole blocks.

use vstd::prelude::*;

use crate::await_plan::{ChildInstanceId, ChildOrigin};
use crate::c_expression;
use crate::c_expression::{render_expression, render_value, SceneView};
use crate::c_instruction;
use crate::c_instruction::{report, write_instruction, Emitted, FunctionScene, FunctionView};
use crate::c_runtime_text;
use crate::c_source;
use crate::c_source::{required_access, TaskContext, TaskView};
use crate::c_static_plan::{
    CChildPlan, CChildStorage, CChildTarget, CFunctionPlan, CalleeView, ChildPlanView,
    ChildTargetView, FunctionPlanView, StaticCallee,
};
use crate::c_suspend;
use crate::c_suspend::{
    write_awaitable_start, write_awaitable_wait, write_binding_wait, write_boxed_wait,
    write_embedded_wait,
};
use crate::c_symbols;
use crate::c_symbols::{find_field, write_arguments};
use crate::context_layout::LogicalFieldId;
use crate::control_flow::{AwaitEdgeId, BasicBlock, BlockId, CfgSwitchCase, CfgTerminator, CfgValue};
use crate::coroutine::CoroutineFunction;
use crate::identity_layout;
use crate::liveness::LiftedField;
use crate::order;
use crate::order::{find_value, has_key};
use crate::semantic::{AwaitSlotId, DeclarationId, HirExpr, HirExprKind, ScopeId};
use crate::symbol_index::LayoutVisibility;
use crate::syntax::{Diagnostic, SourceSpan};
use crate::text;
use crate::text::{
    chars_of, concat2, concat3, copied, number, put, put3, put5, put7, put9, str_eq, trim,
};

verus! {

/// A condition in parentheses.
pub open spec fn parenthesized(condition: Seq<char>) -> Seq<char> {
    let s = text::trimmed(condition);
    if s.len() > 0 && s[0] == '(' && s.last() == ')' {
        s
    } else {
        "("@ + s + ")"@
    }
}

fn parenthesized_condition(condition: &str) -> (r: String)
    ensures
        r@ == parenthesized(condition@),
{
    let s = trim(condition);
    let chars = chars_of(s);
    if chars.len() > 0 && chars[0] == '(' && chars[chars.len() - 1] == ')' {
        copied(s)
    } else {
        concat3("(", s, ")")
    }
}

/// The state that a task goes on with in a block.
pub open spec fn state_of(coroutine: CoroutineFunction, block: BlockId) -> nat {
    match order::lookup(coroutine.state_by_block@, block) {
        Some(state) => state as nat,
        None => 0,
    }
}

fn find_state(coroutine: &CoroutineFunction, block: BlockId) -> (r: String)
    ensures
        r@ == text::dec(state_of(*coroutine, block)),
{
    match find_value(&coroutine.state_by_block, block) {
        Some(state) => number(*state as u64),
        None => number(0),
    }
}

/// The child that an edge waits for.
pub open spec fn edge_child(plan: Option<FunctionPlanView>, edge: AwaitEdgeId) -> Option<
    ChildPlanView,
> {
    match plan {
        Some(own) => match order::lookup(own.edge_children, edge) {
            Some(instance) => order::lookup(own.children, instance),
            None => None,
        },
        None => None,
    }
}

fn find_edge_child<'a>(plan: Option<&'a CFunctionPlan>, edge: AwaitEdgeId) -> (r: Option<
    &'a CChildPlan,
>)
    ensures
        match r {
            Some(child) => edge_child(identity_layout::plan_view(plan), edge) == Some(child@),
            None => edge_child(identity_layout::plan_view(plan), edge) is None,
        },
        match (r, plan) {
            (Some(child), Some(own)) => exists|i: int|
                0 <= i < own@.children.len() && (#[trigger] own@.children[i]).1 == child@,
            _ => true,
        },
        r is Some ==> plan is Some,
{
    match plan {
        None => None,
        Some(own) => match find_value(&own.edge_children, edge) {
            None => None,
            Some(instance) => {
                proof {
                    order::lookup_views(own.children@, *instance);
                    order::key_point_bounds(own.children@, *instance, 0);
                }
                let r = find_value(&own.children, *instance);
                proof {
                    if let Some(child) = r {
                        let p = order::key_point(own.children@, *instance, 0);
                        assert(own@.children[p].1 == child@);
                    }
                }
                r
            },
        },
    }
}

/// Whether what a boxed child holds is read through functions.
pub open spec fn uses_accessors(callee: CalleeView, child: ChildPlanView) -> bool {
    callee.layout_visibility == LayoutVisibility::Opaque || child.downgrade_reason is Some
}

/// How a suspension waits.
pub enum Waiting {
    Embedded { callee: CalleeView, number: u32, instance: ChildInstanceId },
    Boxed { callee: CalleeView, number: u32, instance: ChildInstanceId, accessors: bool },
    Bound { callee: CalleeView, declaration: DeclarationId, embedded: bool, accessors: bool },
    Refused,
    Dynamic,
}

/// How a suspension on a planned child waits.
pub open spec fn waiting_of(
    child: Option<ChildPlanView>,
    operand: HirExpr,
    fields: Seq<LiftedField>,
) -> Waiting {
    match child {
        None => Waiting::Dynamic,
        Some(own) => match own.target {
            ChildTargetView::Dynamic(value) => Waiting::Dynamic,
            ChildTargetView::Static(callee) => match (own.effective_storage, own.origin) {
                (CChildStorage::Embedded(slot), ChildOrigin::Direct(edge)) => if operand.kind is AsyncCall {
                    Waiting::Embedded { callee, number: slot.0, instance: own.instance }
                } else {
                    Waiting::Refused
                },
                (CChildStorage::Boxed(slot), ChildOrigin::Direct(edge)) => if operand.kind is AsyncCall {
                    Waiting::Boxed {
                        callee,
                        number: slot.0,
                        instance: own.instance,
                        accessors: uses_accessors(callee, own),
                    }
                } else {
                    Waiting::Refused
                },
                (CChildStorage::Opaque(slot), _) => Waiting::Refused,
                (_, ChildOrigin::Binding(declaration)) => match c_symbols::symbol_field(
                    fields,
                    declaration,
                ) {
                    Some(field) => if field.is_task {
                        Waiting::Bound {
                            callee,
                            declaration,
                            embedded: own.effective_storage is Embedded,
                            accessors: own.effective_storage is Boxed && uses_accessors(
                                callee,
                                own,
                            ),
                        }
                    } else {
                        Waiting::Refused
                    },
                    None => Waiting::Refused,
                },
            },
        },
    }
}

/// The arguments of a call.
pub open spec fn call_arguments(operand: HirExpr) -> Seq<HirExpr> {
    match operand.kind {
        HirExprKind::AsyncCall { target, callee, arguments, result_type } => arguments@,
        _ => Seq::empty(),
    }
}

/// The task that an awaited expression names.
pub open spec fn awaited_binding(operand: HirExpr, fields: Seq<LiftedField>) -> Option<
    LiftedField,
> {
    match operand.kind {
        HirExprKind::TaskRef { declaration, name } => match c_symbols::symbol_field(
            fields,
            declaration,
        ) {
            Some(field) => if field.is_task {
                Some(field)
            } else {
                None
            },
            None => None,
        },
        _ => None,
    }
}

/// One suspension.
pub struct Suspension {
    pub edge: AwaitEdgeId,
    pub slot: AwaitSlotId,
    pub target: BlockId,
    pub span: SourceSpan,
}

/// C code that starts a child with the values of its arguments, up to the call.
pub open spec fn start_text(
    out: Seq<char>,
    view: FunctionView,
    scopes: Seq<ScopeId>,
    operand: HirExpr,
    callee: CalleeView,
    instance: ChildInstanceId,
    name: Seq<char>,
    task: TaskView,
) -> Seq<char> {
    let arguments = call_arguments(operand);
    let active = c_source::path(task, LogicalFieldId::DirectChildActive(instance));
    c_symbols::argument_lines(
        out + "    if (!"@ + active + ") {\n"@,
        "        "@,
        name,
        arguments,
        callee.parameters,
        scopes,
        view.scene,
        arguments.len() as int,
    )
}

/// What is passed to a child when it starts.
pub open spec fn start_arguments(
    view: FunctionView,
    scopes: Seq<ScopeId>,
    operand: HirExpr,
    callee: CalleeView,
    name: Seq<char>,
) -> Seq<char> {
    let arguments = call_arguments(operand);
    c_symbols::passed_arguments(
        name,
        arguments,
        callee.parameters,
        scopes,
        view.scene,
        arguments.len() as int,
    )
}

/// The trimmed return type of a function.
pub open spec fn returned_type(view: FunctionView) -> Seq<char> {
    text::trimmed(view.function.coroutine.cfg.return_type.text@)
}

/// The type of an awaited value, if there is one.
pub open spec fn awaited_type(view: FunctionView, slot: AwaitSlotId) -> Option<Seq<char>> {
    order::lookup(view.await_types, slot)
}

/// Whether there is a value to wait for.
pub open spec fn awaits_value(view: FunctionView, slot: AwaitSlotId) -> bool {
    match awaited_type(view, slot) {
        Some(ty) => text::trimmed(ty) != "void"@,
        None => false,
    }
}

/// The type of the value to wait for.
pub open spec fn expected_type(view: FunctionView, slot: AwaitSlotId) -> Seq<char> {
    match awaited_type(view, slot) {
        Some(ty) => text::trimmed(ty),
        None => ""@,
    }
}

/// Whether a value that an awaitable yields is one that the function yields.
pub open spec fn yields_through(view: FunctionView, slot: AwaitSlotId) -> bool {
    match awaited_type(view, slot) {
        Some(ty) => text::trimmed(ty) == returned_type(view) && returned_type(view) != "void"@,
        None => false,
    }
}

/// Where the result of an awaitable goes.
pub open spec fn result_pointer(view: FunctionView, slot: AwaitSlotId, task: TaskView) -> Seq<
    char,
> {
    match awaited_type(view, slot) {
        Some(ty) => "&"@ + c_source::path(task, LogicalFieldId::AwaitResult(slot)),
        None => "NULL"@,
    }
}

/// C code that waits for an awaitable.
pub open spec fn dynamic_text(
    out: Seq<char>,
    view: FunctionView,
    block: BasicBlock,
    operand: HirExpr,
    suspension: Suspension,
    task: TaskView,
) -> Seq<char> {
    let binding = awaited_binding(operand, view.scene.fields);
    let slot = suspension.slot;
    let out = c_suspend::awaitable_start_text(
        out,
        task,
        slot,
        c_expression::expression_text(operand, block.scope_stack@, view.scene),
        binding is Some,
        binding_declaration(binding),
        awaits_value(view, slot),
        expected_type(view, slot),
    );
    c_suspend::awaitable_wait_text(
        out,
        task,
        slot,
        text::dec(slot.0 as nat),
        text::dec(state_of(view.function.coroutine, block.id)),
        text::dec(suspension.target.0 as nat),
        result_pointer(view, slot, task),
        binding is None,
        yields_through(view, slot),
    )
}

/// The identity of a bound task.
pub open spec fn binding_declaration(binding: Option<LiftedField>) -> DeclarationId {
    match binding {
        Some(field) => field.declaration,
        None => DeclarationId(0),
    }
}

/// C code of a suspension.
pub open spec fn suspend_text(
    emitted: Emitted,
    view: FunctionView,
    block: BasicBlock,
    operand: HirExpr,
    suspension: Suspension,
    task: TaskView,
) -> Emitted {
    let scopes = block.scope_stack@;
    let slot = suspension.slot;
    let number = text::dec(slot.0 as nat);
    let state = text::dec(state_of(view.function.coroutine, block.id));
    let target = text::dec(suspension.target.0 as nat);
    match waiting_of(edge_child(view.plan, suspension.edge), operand, view.scene.fields) {
        Waiting::Embedded { callee, number: place, instance } => {
            let name = "cr_child_"@ + text::dec(place as nat) + "_arg_"@;
            c_instruction::with_code(
                emitted,
                c_suspend::embedded_wait_text(
                    start_text(
                        emitted.out,
                        view,
                        scopes,
                        operand,
                        callee,
                        instance,
                        name,
                        task,
                    ),
                    task,
                    callee.stem,
                    text::trimmed(callee.result_type),
                    returned_type(view),
                    instance,
                    slot,
                    number,
                    state,
                    target,
                    start_arguments(view, scopes, operand, callee, name),
                ),
            )
        },
        Waiting::Boxed { callee, number: place, instance, accessors } => {
            let name = "cr_boxed_"@ + text::dec(place as nat) + "_arg_"@;
            c_instruction::with_code(
                emitted,
                c_suspend::boxed_wait_text(
                    start_text(
                        emitted.out,
                        view,
                        scopes,
                        operand,
                        callee,
                        instance,
                        name,
                        task,
                    ),
                    task,
                    callee.stem,
                    text::trimmed(callee.result_type),
                    returned_type(view),
                    instance,
                    slot,
                    number,
                    text::dec(place as nat),
                    state,
                    target,
                    start_arguments(view, scopes, operand, callee, name),
                    accessors,
                ),
            )
        },
        Waiting::Bound { callee, declaration, embedded, accessors } => c_instruction::with_code(
            emitted,
            c_suspend::binding_wait_text(
                emitted.out,
                task,
                callee.stem,
                text::trimmed(callee.result_type),
                returned_type(view),
                declaration,
                slot,
                number,
                text::dec(declaration.0 as nat),
                state,
                target,
                embedded,
                accessors,
            ),
        ),
        Waiting::Refused => c_instruction::with_problem(
            emitted,
            "CRC6009"@,
            "planned static await child reached dynamic C emission"@,
            suspension.span,
        ),
        Waiting::Dynamic => c_instruction::with_code(
            emitted,
            dynamic_text(emitted.out, view, block, operand, suspension, task),
        ),
    }
}

/// Whether everything that a suspension refers to is there.
pub open spec fn suspend_ready(
    view: FunctionView,
    operand: HirExpr,
    suspension: Suspension,
    task: TaskView,
) -> bool {
    let slot = suspension.slot;
    match waiting_of(edge_child(view.plan, suspension.edge), operand, view.scene.fields) {
        Waiting::Embedded { callee, number, instance } => {
            &&& c_expression::expressions_ready(call_arguments(operand), view.scene)
            &&& c_suspend::result_placed(task, slot, text::trimmed(callee.result_type))
        },
        Waiting::Boxed { callee, number, instance, accessors } => {
            &&& c_expression::expressions_ready(call_arguments(operand), view.scene)
            &&& c_suspend::result_placed(task, slot, text::trimmed(callee.result_type))
        },
        Waiting::Bound {
            callee,
            declaration,
            embedded,
            accessors,
        } => c_suspend::result_placed(task, slot, text::trimmed(callee.result_type)),
        Waiting::Refused => true,
        Waiting::Dynamic => {
            &&& c_expression::expression_ready(operand, view.scene)
            &&& c_runtime_text::awaitable_placed(task, slot)
            &&& awaited_type(view, slot) is Some ==> c_source::placed(
                task,
                LogicalFieldId::AwaitResult(slot),
            )
        },
    }
}

fn write_start(
    out: &mut String,
    scene: &FunctionScene<'_>,
    scopes: &Vec<ScopeId>,
    operand: &HirExpr,
    callee: &StaticCallee,
    instance: ChildInstanceId,
    name: &str,
    task: &TaskContext<'_>,
) -> (r: String)
    requires
        c_instruction::function_ready(scene@),
        operand.kind is AsyncCall,
        c_expression::expressions_ready(call_arguments(*operand), scene@.scene),
        c_suspend::child_placed(task@, instance),
    ensures
        final(out)@ == start_text(
            old(out)@,
            scene@,
            scopes@,
            *operand,
            callee@,
            instance,
            name@,
            task@,
        ),
        r@ == start_arguments(scene@, scopes@, *operand, callee@, name@),
{
    let active = required_access(task, LogicalFieldId::DirectChildActive(instance));
    put3(out, "    if (!", active.as_str(), ") {\n");
    if let HirExprKind::AsyncCall { target, callee: own, arguments, result_type } = &operand.kind {
        return write_arguments(
            out,
            "        ",
            name,
            arguments,
            &callee.parameters,
            scopes,
            &scene.scene,
        );
    }
    String::new()
}

fn find_binding<'a>(operand: &HirExpr, fields: &'a Vec<LiftedField>) -> (r: Option<
    &'a LiftedField,
>)
    ensures
        match r {
            Some(field) => awaited_binding(*operand, fields@) == Some(*field) && field.is_task
                && exists|i: int| 0 <= i < fields@.len() && #[trigger] fields@[i] == *field,
            None => awaited_binding(*operand, fields@) is None,
        },
{
    if let HirExprKind::TaskRef { declaration, name } = &operand.kind {
        if let Some(field) = find_field(fields, *declaration) {
            if field.is_task {
                return Some(field);
            }
        }
    }
    None
}

fn write_dynamic(
    out: &mut String,
    scene: &FunctionScene<'_>,
    block: &BasicBlock,
    operand: &HirExpr,
    suspension: &Suspension,
    task: &TaskContext<'_>,
)
    requires
        c_instruction::consistent(*scene),
        c_instruction::function_ready(scene@),
        c_source::task_view(scene.scene.task) == Some(task@),
        c_expression::expression_ready(*operand, scene@.scene),
        c_runtime_text::awaitable_placed(task@, suspension.slot),
        awaited_type(scene@, suspension.slot) is Some ==> c_source::placed(
            task@,
            LogicalFieldId::AwaitResult(suspension.slot),
        ),
    ensures
        final(out)@ == dynamic_text(old(out)@, scene@, *block, *operand, *suspension, task@),
{
    let slot = suspension.slot;
    let coroutine = &scene.function.coroutine;
    let value = render_expression(operand, &block.scope_stack, &scene.scene);
    let binding = find_binding(operand, scene.scene.fields);
    proof {
        order::lookup_views(scene.await_types@, slot);
    }
    let known = find_value(scene.await_types, slot);
    let expected = match known {
        Some(ty) => trim(ty.as_str()),
        None => "",
    };
    let valued = known.is_some() && !str_eq(expected, "void");
    let pointer = match known {
        Some(ty) => concat2(
            "&",
            required_access(task, LogicalFieldId::AwaitResult(slot)).as_str(),
        ),
        None => copied("NULL"),
    };
    let returned = trim(coroutine.cfg.return_type.text.as_str());
    let yields = known.is_some() && str_eq(expected, returned) && !str_eq(returned, "void");
    let declaration = match binding {
        Some(field) => field.declaration,
        None => DeclarationId(0),
    };
    write_awaitable_start(
        out,
        task,
        slot,
        value.as_str(),
        binding.is_some(),
        declaration,
        valued,
        expected,
    );
    let id = number(slot.0 as u64);
    let state = find_state(coroutine, block.id);
    let target = number(suspension.target.0 as u64);
    write_awaitable_wait(
        out,
        task,
        slot,
        id.as_str(),
        state.as_str(),
        target.as_str(),
        pointer.as_str(),
        binding.is_none(),
        yields,
    );
}

fn write_typed_wait(
    out: &mut String,
    problems: &mut Vec<Diagnostic>,
    scene: &FunctionScene<'_>,
    block: &BasicBlock,
    operand: &HirExpr,
    suspension: &Suspension,
    task: &TaskContext<'_>,
    child: &CChildPlan,
    callee: &StaticCallee,
)
    requires
        c_instruction::consistent(*scene),
        c_instruction::function_ready(scene@),
        c_source::task_view(scene.scene.task) == Some(task@),
        suspend_ready(scene@, *operand, *suspension, task@),
        edge_child(scene@.plan, suspension.edge) == Some(child@),
        child@.target == ChildTargetView::Static(callee@),
        c_instruction::direct_typed(child@) ==> c_suspend::child_placed(task@, child.instance),
    ensures
        emitted_of(*final(out), *final(problems)) == suspend_text(
            emitted_of(*old(out), *old(problems)),
            scene@,
            *block,
            *operand,
            *suspension,
            task@,
        ),
{
    let slot = suspension.slot;
    let coroutine = &scene.function.coroutine;
    let id = number(slot.0 as u64);
    let state = find_state(coroutine, block.id);
    let target = number(suspension.target.0 as u64);
    let result_type = trim(callee.result_type.as_str());
    let return_type = trim(coroutine.cfg.return_type.text.as_str());
    let accessors = callee.layout_visibility == LayoutVisibility::Opaque
        || child.downgrade_reason.is_some();
    let called = matches!(operand.kind, HirExprKind::AsyncCall { .. });
    match (child.effective_storage, child.origin) {
        (CChildStorage::Embedded(place), ChildOrigin::Direct(edge)) => {
            if called {
                let name = concat3("cr_child_", number(place.0 as u64).as_str(), "_arg_");
                let arguments = write_start(
                    out,
                    scene,
                    &block.scope_stack,
                    operand,
                    callee,
                    child.instance,
                    name.as_str(),
                    task,
                );
                write_embedded_wait(
                    out,
                    task,
                    callee.stem.as_str(),
                    result_type,
                    return_type,
                    child.instance,
                    slot,
                    id.as_str(),
                    state.as_str(),
                    target.as_str(),
                    arguments.as_str(),
                );
                return;
            }
        },
        (CChildStorage::Boxed(place), ChildOrigin::Direct(edge)) => {
            if called {
                let box_number = number(place.0 as u64);
                let name = concat3("cr_boxed_", box_number.as_str(), "_arg_");
                let arguments = write_start(
                    out,
                    scene,
                    &block.scope_stack,
                    operand,
                    callee,
                    child.instance,
                    name.as_str(),
                    task,
                );
                write_boxed_wait(
                    out,
                    task,
                    callee.stem.as_str(),
                    result_type,
                    return_type,
                    child.instance,
                    slot,
                    id.as_str(),
                    box_number.as_str(),
                    state.as_str(),
                    target.as_str(),
                    arguments.as_str(),
                    accessors,
                );
                return;
            }
        },
        (CChildStorage::Opaque(place), ChildOrigin::Binding(declaration)) => {},
        (CChildStorage::Opaque(place), ChildOrigin::Direct(edge)) => {},
        (storage, ChildOrigin::Binding(declaration)) => {
            if let Some(field) = find_field(scene.scene.fields, declaration) {
                if field.is_task {
                    let embedded = matches!(storage, CChildStorage::Embedded(_));
                    let boxed = matches!(storage, CChildStorage::Boxed(_));
                    let binding_number = number(declaration.0 as u64);
                    write_binding_wait(
                        out,
                        task,
                        callee.stem.as_str(),
                        result_type,
                        return_type,
                        declaration,
                        slot,
                        id.as_str(),
                        binding_number.as_str(),
                        state.as_str(),
                        target.as_str(),
                        embedded,
                        boxed && accessors,
                    );
                    return;
                }
            }
        },
    }
    report(
        problems,
        "CRC6009",
        "planned static await child reached dynamic C emission",
        &suspension.span,
    );
}

fn write_suspend(
    out: &mut String,
    problems: &mut Vec<Diagnostic>,
    scene: &FunctionScene<'_>,
    block: &BasicBlock,
    operand: &HirExpr,
    suspension: &Suspension,
    task: &TaskContext<'_>,
)
    requires
        c_instruction::consistent(*scene),
        c_instruction::function_ready(scene@),
        c_source::task_view(scene.scene.task) == Some(task@),
        suspend_ready(scene@, *operand, *suspension, task@),
    ensures
        emitted_of(*final(out), *final(problems)) == suspend_text(
            emitted_of(*old(out), *old(problems)),
            scene@,
            *block,
            *operand,
            *suspension,
            task@,
        ),
{
    if let Some(child) = find_edge_child(scene.plan, suspension.edge) {
        if let CChildTarget::Static(callee) = &child.target {
            write_typed_wait(
                out,
                problems,
                scene,
                block,
                operand,
                suspension,
                task,
                child,
                callee,
            );
            return;
        }
    }
    write_dynamic(out, scene, block, operand, suspension, task);
}

/// C code of the first `n` cases of a switch.
pub open spec fn cases_text(
    out: Seq<char>,
    view: FunctionView,
    scopes: Seq<ScopeId>,
    cases: Seq<CfgSwitchCase>,
    n: int,
) -> Seq<char>
    decreases n,
{
    if n <= 0 {
        out
    } else {
        cases_text(out, view, scopes, cases, n - 1) + "    case "@ + c_expression::expression_text(
            cases[n - 1].value,
            scopes,
            view.scene,
        ) + ": goto cr_b"@ + text::dec(cases[n - 1].edge.target.0 as nat) + ";\n"@
    }
}

/// C code that returns from a function.
pub open spec fn return_text(
    out: Seq<char>,
    view: FunctionView,
    scopes: Seq<ScopeId>,
    value: Option<CfgValue>,
) -> Seq<char> {
    match view.scene.task {
        Some(task) => {
            let state = c_source::path(task, LogicalFieldId::State);
            let cleanups = c_source::path(task, LogicalFieldId::Cleanups);
            let status = c_source::path(task, LogicalFieldId::Status);
            let out = match value {
                Some(own) => out + "    "@ + c_source::path(task, LogicalFieldId::Result) + " = "@
                    + c_expression::value_text(own, scopes, view.scene) + ";\n"@,
                None => out,
            };
            let out = out + "    cr_cleanup_stack_destroy(&"@ + cleanups + ");\n    "@ + status
                + " = CR_POLL_READY;\n    "@ + state + " = UINT32_MAX;\n    return "@ + status
                + ";\n"@;
            out
        },
        None => {
            let out = out + "    cr_cleanup_stack_destroy(&cr_cleanups);\n"@;
            match value {
                Some(own) => out + "    return "@ + c_expression::value_text(
                    own,
                    scopes,
                    view.scene,
                ) + ";\n"@,
                None => out + "    return;\n"@,
            }
        },
    }
}

/// C code that yields from a task.
pub open spec fn yield_text(
    out: Seq<char>,
    view: FunctionView,
    scopes: Seq<ScopeId>,
    value: Option<CfgValue>,
    target: BlockId,
    task: TaskView,
) -> Seq<char> {
    let state = c_source::path(task, LogicalFieldId::State);
    let status = c_source::path(task, LogicalFieldId::Status);
    let out = match value {
        Some(own) => out + "    "@ + c_source::path(task, LogicalFieldId::Yielded) + " = "@
            + c_expression::value_text(own, scopes, view.scene) + ";\n"@,
        None => out,
    };
    out + "    "@ + state + " = "@ + text::dec(state_of(view.function.coroutine, target))
        + "u;\n    "@ + status + " = CR_POLL_YIELDED;\n    return "@ + status + ";\n"@
}

/// C code of the end of a block.
pub open spec fn terminator_text(
    emitted: Emitted,
    view: FunctionView,
    block: BasicBlock,
) -> Emitted {
    let scopes = block.scope_stack@;
    match block.terminator {
        CfgTerminator::Goto(edge) => c_instruction::with_code(
            emitted,
            emitted.out + "    goto cr_b"@ + text::dec(edge.target.0 as nat) + ";\n"@,
        ),
        CfgTerminator::Branch { condition, consequence, alternative } => c_instruction::with_code(
            emitted,
            emitted.out + "    if "@ + parenthesized(
                c_expression::expression_text(condition, scopes, view.scene),
            ) + " goto cr_b"@ + text::dec(consequence.target.0 as nat) + "; else goto cr_b"@
                + text::dec(alternative.target.0 as nat) + ";\n"@,
        ),
        CfgTerminator::Switch { expression, cases, default } => c_instruction::with_code(
            emitted,
            cases_text(
                emitted.out + "    switch ("@ + c_expression::expression_text(
                    expression,
                    scopes,
                    view.scene,
                ) + ") {\n"@,
                view,
                scopes,
                cases@,
                cases@.len() as int,
            ) + "    default: goto cr_b"@ + text::dec(default.target.0 as nat) + ";\n    }\n"@,
        ),
        CfgTerminator::Suspend { edge, operand, slot, continuation, span } => match view.scene.task {
            None => c_instruction::with_problem(
                emitted,
                "CRC5005"@,
                "await terminator reached synchronous C emission"@,
                span,
            ),
            Some(task) => suspend_text(
                emitted,
                view,
                block,
                operand,
                Suspension { edge, slot, target: continuation.target, span },
                task,
            ),
        },
        CfgTerminator::Yield { value, continuation, span } => match view.scene.task {
            None => c_instruction::with_problem(
                emitted,
                "CRC5005"@,
                "yield terminator reached synchronous C emission"@,
                span,
            ),
            Some(task) => c_instruction::with_code(
                emitted,
                yield_text(emitted.out, view, scopes, value, continuation.target, task),
            ),
        },
        CfgTerminator::Return { value, span } => c_instruction::with_code(
            emitted,
            return_text(emitted.out, view, scopes, value),
        ),
        CfgTerminator::Open => c_instruction::with_problem(
            emitted,
            "CRC5003"@,
            "open CFG block reached C emission"@,
            view.function.coroutine.cfg.span,
        ),
        CfgTerminator::Unreachable => c_instruction::with_code(
            emitted,
            emitted.out + "    abort();\n"@,
        ),
    }
}

/// Whether everything that an optional value refers to is there.
pub open spec fn optional_ready(value: Option<CfgValue>, scene: SceneView) -> bool {
    match value {
        Some(own) => c_expression::value_ready(own, scene),
        None => true,
    }
}

/// Whether everything that cases refer to is there.
pub open spec fn cases_ready(cases: Seq<CfgSwitchCase>, scene: SceneView) -> bool {
    forall|i: int|
        0 <= i < cases.len() ==> c_expression::expression_ready(
            (#[trigger] cases[i]).value,
            scene,
        )
}

/// Whether everything that the end of a block refers to is there.
pub open spec fn terminator_ready(terminator: CfgTerminator, view: FunctionView) -> bool {
    match terminator {
        CfgTerminator::Branch {
            condition,
            consequence,
            alternative,
        } => c_expression::expression_ready(condition, view.scene),
        CfgTerminator::Switch { expression, cases, default } => {
            &&& c_expression::expression_ready(expression, view.scene)
            &&& cases_ready(cases@, view.scene)
        },
        CfgTerminator::Suspend { edge, operand, slot, continuation, span } => match view.scene.task {
            None => true,
            Some(task) => suspend_ready(
                view,
                operand,
                Suspension { edge, slot, target: continuation.target, span },
                task,
            ),
        },
        CfgTerminator::Yield { value, continuation, span } => view.scene.task is Some
            ==> optional_ready(value, view.scene),
        CfgTerminator::Return { value, span } => optional_ready(value, view.scene),
        _ => true,
    }
}

/// C code and errors together.
pub open spec fn emitted_of(out: String, problems: Vec<Diagnostic>) -> Emitted {
    c_instruction::emitted_of(out, problems)
}

fn write_cases(
    out: &mut String,
    scene: &FunctionScene<'_>,
    scopes: &Vec<ScopeId>,
    cases: &Vec<CfgSwitchCase>,
)
    requires
        c_instruction::function_ready(scene@),
        cases_ready(cases@, scene@.scene),
    ensures
        final(out)@ == cases_text(old(out)@, scene@, scopes@, cases@, cases@.len() as int),
{
    let ghost start = out@;
    let mut n: usize = 0;
    while n < cases.len()
        invariant
            n <= cases@.len(),
            c_instruction::function_ready(scene@),
            cases_ready(cases@, scene@.scene),
            out@ == cases_text(start, scene@, scopes@, cases@, n as int),
        decreases cases@.len() - n,
    {
        assert(c_expression::expression_ready(cases@[n as int].value, scene@.scene));
        let value = render_expression(&cases[n].value, scopes, &scene.scene);
        let target = number(cases[n].edge.target.0 as u64);
        put5(out, "    case ", value.as_str(), ": goto cr_b", target.as_str(), ";\n");
        n += 1;
    }
}

fn write_return(
    out: &mut String,
    scene: &FunctionScene<'_>,
    scopes: &Vec<ScopeId>,
    value: &Option<CfgValue>,
)
    requires
        c_instruction::function_ready(scene@),
        optional_ready(*value, scene@.scene),
    ensures
        final(out)@ == return_text(old(out)@, scene@, scopes@, *value),
{
    match scene.scene.task {
        Some(task) => {
            let state = required_access(&task, LogicalFieldId::State);
            let cleanups = required_access(&task, LogicalFieldId::Cleanups);
            let status = required_access(&task, LogicalFieldId::Status);
            if let Some(own) = value {
                let rendered = render_value(own, scopes, &scene.scene);
                let result = required_access(&task, LogicalFieldId::Result);
                put5(out, "    ", result.as_str(), " = ", rendered.as_str(), ";\n");
            }
            put9(
                out,
                "    cr_cleanup_stack_destroy(&",
                cleanups.as_str(),
                ");\n    ",
                status.as_str(),
                " = CR_POLL_READY;\n    ",
                state.as_str(),
                " = UINT32_MAX;\n    return ",
                status.as_str(),
                ";\n",
            );
        },
        None => {
            put(out, "    cr_cleanup_stack_destroy(&cr_cleanups);\n");
            match value {
                Some(own) => {
                    let rendered = render_value(own, scopes, &scene.scene);
                    put3(out, "    return ", rendered.as_str(), ";\n");
                },
                None => {
                    put(out, "    return;\n");
                },
            }
        },
    }
}

fn write_yield(
    out: &mut String,
    scene: &FunctionScene<'_>,
    scopes: &Vec<ScopeId>,
    value: &Option<CfgValue>,
    target: BlockId,
    task: &TaskContext<'_>,
)
    requires
        c_instruction::function_ready(scene@),
        c_source::task_view(scene.scene.task) == Some(task@),
        optional_ready(*value, scene@.scene),
    ensures
        final(out)@ == yield_text(old(out)@, scene@, scopes@, *value, target, task@),
{
    let state = required_access(task, LogicalFieldId::State);
    let status = required_access(task, LogicalFieldId::Status);
    if let Some(own) = value {
        let rendered = render_value(own, scopes, &scene.scene);
        let yielded = required_access(task, LogicalFieldId::Yielded);
        put5(out, "    ", yielded.as_str(), " = ", rendered.as_str(), ";\n");
    }
    let next = find_state(&scene.function.coroutine, target);
    put9(
        out,
        "    ",
        state.as_str(),
        " = ",
        next.as_str(),
        "u;\n    ",
        status.as_str(),
        " = CR_POLL_YIELDED;\n    return ",
        status.as_str(),
        ";\n",
    );
}

/// Appends the C code of the end of a block.
pub fn write_terminator(
    out: &mut String,
    problems: &mut Vec<Diagnostic>,
    scene: &FunctionScene<'_>,
    block: &BasicBlock,
)
    requires
        c_instruction::consistent(*scene),
        c_instruction::function_ready(scene@),
        terminator_ready(block.terminator, scene@),
    ensures
        emitted_of(*final(out), *final(problems)) == terminator_text(
            emitted_of(*old(out), *old(problems)),
            scene@,
            *block,
        ),
{
    let scopes = &block.scope_stack;
    match &block.terminator {
        CfgTerminator::Goto(edge) => {
            let target = number(edge.target.0 as u64);
            put3(out, "    goto cr_b", target.as_str(), ";\n");
        },
        CfgTerminator::Branch { condition, consequence, alternative } => {
            let rendered = render_expression(condition, scopes, &scene.scene);
            let tested = parenthesized_condition(rendered.as_str());
            let first = number(consequence.target.0 as u64);
            let second = number(alternative.target.0 as u64);
            put7(
                out,
                "    if ",
                tested.as_str(),
                " goto cr_b",
                first.as_str(),
                "; else goto cr_b",
                second.as_str(),
                ";\n",
            );
        },
        CfgTerminator::Switch { expression, cases, default } => {
            let rendered = render_expression(expression, scopes, &scene.scene);
            put3(out, "    switch (", rendered.as_str(), ") {\n");
            write_cases(out, scene, scopes, cases);
            let target = number(default.target.0 as u64);
            put3(out, "    default: goto cr_b", target.as_str(), ";\n    }\n");
        },
        CfgTerminator::Suspend { edge, operand, slot, continuation, span } => {
            match scene.scene.task {
                None => {
                    report(
                        problems,
                        "CRC5005",
                        "await terminator reached synchronous C emission",
                        span,
                    );
                },
                Some(task) => {
                    let suspension = Suspension {
                        edge: *edge,
                        slot: *slot,
                        target: continuation.target,
                        span: span.clone(),
                    };
                    write_suspend(out, problems, scene, block, operand, &suspension, &task);
                },
            }
        },
        CfgTerminator::Yield { value, continuation, span } => {
            match scene.scene.task {
                None => {
                    report(
                        problems,
                        "CRC5005",
                        "yield terminator reached synchronous C emission",
                        span,
                    );
                },
                Some(task) => {
                    write_yield(out, scene, scopes, value, continuation.target, &task);
                },
            }
        },
        CfgTerminator::Return { value, span } => {
            write_return(out, scene, scopes, value);
        },
        CfgTerminator::Open => {
            report(
                problems,
                "CRC5003",
                "open CFG block reached C emission",
                &scene.function.coroutine.cfg.span,
            );
        },
        CfgTerminator::Unreachable => {
            put(out, "    abort();\n");
        },
    }
}

/// C code of the first `n` instructions of a block.
pub open spec fn instructions_text(
    emitted: Emitted,
    view: FunctionView,
    block: BasicBlock,
    n: int,
) -> Emitted
    decreases n,
{
    if n <= 0 {
        emitted
    } else {
        c_instruction::instruction_text(
            instructions_text(emitted, view, block, n - 1),
            view,
            block.scope_stack@,
            block.instructions@[n - 1],
        )
    }
}

/// C code of a block.
pub open spec fn block_text(emitted: Emitted, view: FunctionView, block: BasicBlock) -> Emitted {
    terminator_text(
        instructions_text(
            c_instruction::with_code(
                emitted,
                emitted.out + "cr_b"@ + text::dec(block.id.0 as nat) + ": ;\n"@,
            ),
            view,
            block,
            block.instructions@.len() as int,
        ),
        view,
        block,
    )
}

/// C code of the reachable blocks among the first `n`.
pub open spec fn blocks_text(emitted: Emitted, view: FunctionView, n: int) -> Emitted
    decreases n,
{
    if n <= 0 {
        emitted
    } else {
        let before = blocks_text(emitted, view, n - 1);
        let cfg = view.function.coroutine.cfg;
        if c_symbols::block_reached(cfg, cfg.blocks@[n - 1].id) {
            block_text(before, view, cfg.blocks@[n - 1])
        } else {
            before
        }
    }
}

/// Whether everything that a block refers to is there.
pub open spec fn block_ready(block: BasicBlock, view: FunctionView) -> bool {
    &&& forall|i: int|
        0 <= i < block.instructions@.len() ==> c_instruction::instruction_ready(
            #[trigger] block.instructions@[i],
            view.scene,
        )
    &&& terminator_ready(block.terminator, view)
}

/// Whether everything that the reachable blocks of a function refer to is
/// there.
pub open spec fn blocks_ready(view: FunctionView) -> bool {
    let cfg = view.function.coroutine.cfg;
    forall|i: int|
        0 <= i < cfg.blocks@.len() && c_symbols::block_reached(
            cfg,
            (#[trigger] cfg.blocks@[i]).id,
        ) ==> block_ready(cfg.blocks@[i], view)
}

fn write_block(
    out: &mut String,
    problems: &mut Vec<Diagnostic>,
    scene: &FunctionScene<'_>,
    block: &BasicBlock,
)
    requires
        c_instruction::consistent(*scene),
        c_instruction::function_ready(scene@),
        block_ready(*block, scene@),
    ensures
        emitted_of(*final(out), *final(problems)) == block_text(
            emitted_of(*old(out), *old(problems)),
            scene@,
            *block,
        ),
{
    let id = number(block.id.0 as u64);
    put3(out, "cr_b", id.as_str(), ": ;\n");
    let ghost start = emitted_of(*out, *problems);
    let mut n: usize = 0;
    while n < block.instructions.len()
        invariant
            n <= block.instructions@.len(),
            c_instruction::consistent(*scene),
            c_instruction::function_ready(scene@),
            block_ready(*block, scene@),
            emitted_of(*out, *problems) == instructions_text(start, scene@, *block, n as int),
        decreases block.instructions@.len() - n,
    {
        write_instruction(out, problems, scene, &block.scope_stack, &block.instructions[n]);
        n += 1;
    }
    write_terminator(out, problems, scene, block);
}

/// Appends the C code of the reachable blocks of a function.
pub fn write_blocks(
    out: &mut String,
    problems: &mut Vec<Diagnostic>,
    scene: &FunctionScene<'_>,
    reachable: &Vec<BlockId>,
)
    requires
        c_instruction::consistent(*scene),
        c_instruction::function_ready(scene@),
        blocks_ready(scene@),
        forall|b: BlockId|
            #[trigger] reachable@.contains(b) <==> c_symbols::block_reached(
                scene.function.coroutine.cfg,
                b,
            ),
    ensures
        emitted_of(*final(out), *final(problems)) == blocks_text(
            emitted_of(*old(out), *old(problems)),
            scene@,
            scene.function.coroutine.cfg.blocks@.len() as int,
        ),
{
    let ghost start = emitted_of(*out, *problems);
    let blocks = &scene.function.coroutine.cfg.blocks;
    let mut n: usize = 0;
    while n < blocks.len()
        invariant
            n <= blocks@.len(),
            blocks == &scene.function.coroutine.cfg.blocks,
            c_instruction::consistent(*scene),
            c_instruction::function_ready(scene@),
            blocks_ready(scene@),
            forall|b: BlockId|
                #[trigger] reachable@.contains(b) <==> c_symbols::block_reached(
                    scene.function.coroutine.cfg,
                    b,
                ),
            emitted_of(*out, *problems) == blocks_text(start, scene@, n as int),
        decreases blocks@.len() - n,
    {
        if has_key(reachable, blocks[n].id) {
            assert(block_ready(scene@.function.coroutine.cfg.blocks@[n as int], scene@));
            write_block(out, problems, scene, &blocks[n]);
        }
        n += 1;
    }
}

} // verus!
