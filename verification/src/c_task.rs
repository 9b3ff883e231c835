//! C code of whole functions.

use vstd::prelude::*;

use crate::await_plan::{AwaitEdge, ChildInstance, ChildInstanceId, ChildOrigin};
use crate::c_expression::{Scene, SceneView};
use crate::c_function_text;
use crate::c_function_text::{
    write_accessors, write_adapters, write_drop_child, write_drop_head, write_drop_slot,
    write_drop_tail, write_goto_dispatch, write_heap_api, write_init_head, write_poll_head,
    write_task_cleanup,
};
use crate::c_instruction;
use crate::c_instruction::{Emitted, FunctionScene, FunctionView};
use crate::c_runtime_text;
use crate::c_runtime_text::{write_abi_guard, write_invalid_state};
use crate::c_source;
use crate::c_source::{required_access, TaskContext, TaskView};
use crate::c_static_plan::{
    CChildPlan, CChildStorage, CChildTarget, CFunctionPlan, ChildPlanView, ChildTargetView,
    FunctionPlanView,
};
use crate::c_symbols;
use crate::c_symbols::{
    cleanup_helpers, find_field, is_task_bound, reachable_blocks, symbol_stem,
    write_cleanup_helpers, Collected,
};
use crate::c_terminator;
use crate::c_terminator::write_blocks;
use crate::config::{OptimizationLevel, TargetConfig};
use crate::context_layout::{
    FunctionContextLayout, LayoutView, LogicalFieldId, MemberView, PhysicalSlot, PhysicalSlotKind,
    SlotView,
};
use crate::context_types;
use crate::context_types::{collect_types, render_typed_name};
use crate::control_flow::{BlockId, CfgParameter};
use crate::coroutine::{CoroutineAwaitSlot, CoroutineFunction, CoroutineState};
use crate::identity_layout;
use crate::identity_layout::{is_typed_slot, typed_binding_child};
use crate::liveness::{LiftedField, LivenessFunction};
use crate::order;
use crate::semantic::AwaitSlotId;
use crate::symbol_index::{AsyncLinkageKey, LayoutVisibility};
use crate::syntax;
use crate::syntax::{Diagnostic, DiagnosticView};
use crate::text;
use crate::text::{
    c_identifier, concat2, concat3, copied, number, put, put2, put3, put4, put5, slice_bytes,
    str_eq, trim, trim_end,
};

verus! {

/// C backend selection. Both variants write the same blocks.
#[derive(Debug, Clone, Copy, PartialEq, Eq, Structural)]
pub enum CBackend {
    Portable,
    ComputedGoto,
}

/// Resolved configuration for generated identifiers and dispatch.
#[derive(Debug, Clone, PartialEq, Eq)]
pub struct CEmitterConfig {
    pub prefix: String,
    pub context_name: String,
    pub backend: CBackend,
    pub target: TargetConfig,
    pub optimization: OptimizationLevel,
}

impl Default for CEmitterConfig {
    fn default() -> (r: Self)
        ensures
            r.prefix@ == "cr_"@,
            r.context_name@ == "ctx"@,
            r.backend == CBackend::Portable,
            r.target == TargetConfig::Host,
            r.optimization == OptimizationLevel::Off,
    {
        CEmitterConfig {
            prefix: copied("cr_"),
            context_name: copied("ctx"),
            backend: CBackend::Portable,
            target: TargetConfig::Host,
            optimization: OptimizationLevel::Off,
        }
    }
}

/// Whether a child calls a function of the unit alone by a name stem.
pub open spec fn calls_internal(child: ChildPlanView, stem: Seq<char>) -> bool {
    match child.target {
        ChildTargetView::Static(callee) => callee.linkage is Internal && callee.stem == stem,
        ChildTargetView::Dynamic(value) => false,
    }
}

/// Whether a child creates a task whose layout is visible by a name stem.
pub open spec fn calls_boxed(child: ChildPlanView, stem: Seq<char>) -> bool {
    match child.target {
        ChildTargetView::Static(callee) => child.effective_storage is Boxed
            && callee.layout_visibility == LayoutVisibility::Visible && callee.stem == stem,
        ChildTargetView::Dynamic(value) => false,
    }
}

/// Whether a child was boxed although it could have been embedded, by a name
/// stem.
pub open spec fn calls_downgraded(child: ChildPlanView, stem: Seq<char>) -> bool {
    match child.target {
        ChildTargetView::Static(callee) => child.effective_storage is Boxed
            && child.downgrade_reason is Some && callee.stem == stem,
        ChildTargetView::Dynamic(value) => false,
    }
}

/// Whether a name stem is known in the unit alone.
pub open spec fn internal_stem(children: Seq<ChildPlanView>, stem: Seq<char>) -> bool {
    exists|i: int| 0 <= i < children.len() && calls_internal(#[trigger] children[i], stem)
}

/// Whether tasks of a name stem are created on the heap.
pub open spec fn heap_stem(children: Seq<ChildPlanView>, stem: Seq<char>) -> bool {
    exists|i: int| 0 <= i < children.len() && calls_boxed(#[trigger] children[i], stem)
}

/// Whether tasks of a name stem are read through functions.
pub open spec fn accessor_stem(children: Seq<ChildPlanView>, stem: Seq<char>) -> bool {
    exists|i: int| 0 <= i < children.len() && calls_downgraded(#[trigger] children[i], stem)
}

/// Tells whether a name stem is known in the unit alone.
pub fn is_internal_stem(children: &Vec<&CChildPlan>, stem: &str) -> (r: bool)
    ensures
        r == internal_stem(syntax::views(children@), stem@),
{
    let ghost views = syntax::views(children@);
    let mut i: usize = 0;
    while i < children.len()
        invariant
            i <= children@.len(),
            views == syntax::views(children@),
            forall|k: int| 0 <= k < i ==> !calls_internal(#[trigger] views[k], stem@),
        decreases children@.len() - i,
    {
        let child = children[i];
        assert(views[i as int] == child@);
        if let CChildTarget::Static(callee) = &child.target {
            if matches!(callee.linkage, AsyncLinkageKey::Internal { .. }) && str_eq(
                callee.stem.as_str(),
                stem,
            ) {
                assert(calls_internal(views[i as int], stem@));
                return true;
            }
        }
        i += 1;
    }
    false
}

/// Tells whether tasks of a name stem are created on the heap.
pub fn is_heap_stem(children: &Vec<&CChildPlan>, stem: &str) -> (r: bool)
    ensures
        r == heap_stem(syntax::views(children@), stem@),
{
    let ghost views = syntax::views(children@);
    let mut i: usize = 0;
    while i < children.len()
        invariant
            i <= children@.len(),
            views == syntax::views(children@),
            forall|k: int| 0 <= k < i ==> !calls_boxed(#[trigger] views[k], stem@),
        decreases children@.len() - i,
    {
        let child = children[i];
        assert(views[i as int] == child@);
        if let CChildTarget::Static(callee) = &child.target {
            if matches!(child.effective_storage, CChildStorage::Boxed(_))
                && callee.layout_visibility == LayoutVisibility::Visible && str_eq(
                callee.stem.as_str(),
                stem,
            ) {
                assert(calls_boxed(views[i as int], stem@));
                return true;
            }
        }
        i += 1;
    }
    false
}

/// Tells whether tasks of a name stem are read through functions.
pub fn is_accessor_stem(children: &Vec<&CChildPlan>, stem: &str) -> (r: bool)
    ensures
        r == accessor_stem(syntax::views(children@), stem@),
{
    let ghost views = syntax::views(children@);
    let mut i: usize = 0;
    while i < children.len()
        invariant
            i <= children@.len(),
            views == syntax::views(children@),
            forall|k: int| 0 <= k < i ==> !calls_downgraded(#[trigger] views[k], stem@),
        decreases children@.len() - i,
    {
        let child = children[i];
        assert(views[i as int] == child@);
        if let CChildTarget::Static(callee) = &child.target {
            if matches!(child.effective_storage, CChildStorage::Boxed(_))
                && child.downgrade_reason.is_some() && str_eq(callee.stem.as_str(), stem) {
                assert(calls_downgraded(views[i as int], stem@));
                return true;
            }
        }
        i += 1;
    }
    false
}

/// The declarations of the first `n` members of a union.
pub open spec fn union_members(out: Seq<char>, members: Seq<MemberView>, n: int) -> Seq<char>
    decreases n,
{
    if n <= 0 {
        out
    } else {
        union_members(out, members, n - 1) + "        "@ + members[n - 1].c_declaration + ";\n"@
    }
}

/// The declaration of one slot.
pub open spec fn slot_text(out: Seq<char>, slot: SlotView) -> Seq<char> {
    match slot.kind {
        PhysicalSlotKind::Direct => out + "    "@ + slot.members[0].c_declaration + ";\n"@,
        PhysicalSlotKind::Union => union_members(
            out + "    union {\n"@,
            slot.members,
            slot.members.len() as int,
        ) + "    } "@ + slot.c_name + ";\n"@,
    }
}

/// The declarations of the first `n` slots.
pub open spec fn slots_text(out: Seq<char>, slots: Seq<SlotView>, n: int) -> Seq<char>
    decreases n,
{
    if n <= 0 {
        out
    } else {
        slot_text(slots_text(out, slots, n - 1), slots[n - 1])
    }
}

/// The task type of a function.
pub open spec fn layout_text(out: Seq<char>, task_type: Seq<char>, slots: Seq<SlotView>) -> Seq<
    char,
> {
    slots_text(
        out + "typedef struct "@ + task_type + " "@ + task_type + ";\nstruct "@ + task_type
            + " {\n"@,
        slots,
        slots.len() as int,
    ) + "};\n\n"@
}

fn write_slot(out: &mut String, slot: &PhysicalSlot)
    requires
        slot.kind == PhysicalSlotKind::Direct ==> slot.members@.len() > 0,
    ensures
        final(out)@ == slot_text(old(out)@, slot@),
{
    match slot.kind {
        PhysicalSlotKind::Direct => {
            assert(slot@.members[0] == slot.members@[0]@);
            put3(out, "    ", slot.members[0].c_declaration.as_str(), ";\n");
        },
        PhysicalSlotKind::Union => {
            put(out, "    union {\n");
            let ghost start = out@;
            let ghost members = syntax::views(slot.members@);
            let mut n: usize = 0;
            while n < slot.members.len()
                invariant
                    n <= slot.members@.len(),
                    members == syntax::views(slot.members@),
                    out@ == union_members(start, members, n as int),
                decreases slot.members@.len() - n,
            {
                assert(members[n as int] == slot.members@[n as int]@);
                put3(out, "        ", slot.members[n].c_declaration.as_str(), ";\n");
                n += 1;
            }
            put3(out, "    } ", slot.c_name.as_str(), ";\n");
        },
    }
}

/// Whether every slot with one field has a member.
pub open spec fn direct_filled(slots: Seq<SlotView>) -> bool {
    forall|i: int|
        0 <= i < slots.len() && (#[trigger] slots[i]).kind == PhysicalSlotKind::Direct
            ==> slots[i].members.len() > 0
}

/// Appends the task type of a function.
pub fn write_async_layout(out: &mut String, task_type: &str, slots: &Vec<PhysicalSlot>)
    requires
        direct_filled(syntax::views(slots@)),
    ensures
        final(out)@ == layout_text(old(out)@, task_type@, syntax::views(slots@)),
{
    put5(out, "typedef struct ", task_type, " ", task_type, ";\nstruct ");
    put2(out, task_type, " {\n");
    let ghost start = out@;
    let ghost views = syntax::views(slots@);
    let mut n: usize = 0;
    while n < slots.len()
        invariant
            n <= slots@.len(),
            views == syntax::views(slots@),
            direct_filled(views),
            out@ == slots_text(start, views, n as int),
        decreases slots@.len() - n,
    {
        assert(views[n as int] == slots@[n as int]@);
        write_slot(out, &slots[n]);
        n += 1;
    }
    put(out, "};\n\n");
}

/// The first `n` parameters, as C declares them.
pub open spec fn parameters_text(parameters: Seq<CfgParameter>, n: int) -> Seq<char>
    decreases n,
{
    if n <= 0 {
        Seq::empty()
    } else {
        let before = parameters_text(parameters, n - 1);
        let separated = if n > 1 {
            before + ", "@
        } else {
            before
        };
        separated + context_types::declarator(
            text::trimmed(parameters[n - 1].ty.text@),
            parameters[n - 1].name@,
        )
    }
}

/// The names of the first `n` parameters.
pub open spec fn parameter_names_text(parameters: Seq<CfgParameter>, n: int) -> Seq<char>
    decreases n,
{
    if n <= 0 {
        Seq::empty()
    } else {
        let before = parameter_names_text(parameters, n - 1);
        let separated = if n > 1 {
            before + ", "@
        } else {
            before
        };
        separated + parameters[n - 1].name@
    }
}

/// The parameters of a function, as C declares them.
pub open spec fn parameter_list_text(function: CoroutineFunction) -> Seq<char> {
    parameters_text(function.cfg.parameters@, function.cfg.parameters@.len() as int)
}

/// The parameters of the function that sets a task up, after the task.
pub open spec fn init_parameters(function: CoroutineFunction) -> Seq<char> {
    if function.cfg.parameters@.len() == 0 {
        ""@
    } else {
        ", "@ + parameter_list_text(function)
    }
}

/// The parameters of the function that creates a task.
pub open spec fn create_parameters(function: CoroutineFunction) -> Seq<char> {
    if function.cfg.parameters@.len() == 0 {
        "cr_error *out_error"@
    } else {
        parameter_list_text(function) + ", cr_error *out_error"@
    }
}

fn parameter_list(function: &CoroutineFunction) -> (r: String)
    ensures
        r@ == parameter_list_text(*function),
{
    let parameters = &function.cfg.parameters;
    let mut out = String::new();
    assert(out@ =~= Seq::empty());
    let mut n: usize = 0;
    while n < parameters.len()
        invariant
            n <= parameters@.len(),
            out@ == parameters_text(parameters@, n as int),
        decreases parameters@.len() - n,
    {
        if n > 0 {
            put(&mut out, ", ");
        }
        let declared = render_typed_name(
            trim(parameters[n].ty.text.as_str()),
            parameters[n].name.as_str(),
        );
        put(&mut out, declared.as_str());
        n += 1;
    }
    out
}

fn parameter_names(function: &CoroutineFunction) -> (r: String)
    ensures
        r@ == parameter_names_text(
            function.cfg.parameters@,
            function.cfg.parameters@.len() as int,
        ),
{
    let parameters = &function.cfg.parameters;
    let mut out = String::new();
    assert(out@ =~= Seq::empty());
    let mut n: usize = 0;
    while n < parameters.len()
        invariant
            n <= parameters@.len(),
            out@ == parameter_names_text(parameters@, n as int),
        decreases parameters@.len() - n,
    {
        if n > 0 {
            put(&mut out, ", ");
        }
        put(&mut out, parameters[n].name.as_str());
        n += 1;
    }
    out
}

fn parameter_list_with_leading_comma(function: &CoroutineFunction) -> (r: String)
    ensures
        r@ == init_parameters(*function),
{
    if function.cfg.parameters.len() == 0 {
        copied("")
    } else {
        concat2(", ", parameter_list(function).as_str())
    }
}

fn create_parameter_list(function: &CoroutineFunction) -> (r: String)
    ensures
        r@ == create_parameters(*function),
{
    if function.cfg.parameters.len() == 0 {
        copied("cr_error *out_error")
    } else {
        concat2(parameter_list(function).as_str(), ", cr_error *out_error")
    }
}

/// The cleanup of one bound task.
pub open spec fn task_cleanup_of(
    out: Seq<char>,
    stem: Seq<char>,
    field: LiftedField,
    plan: Option<FunctionPlanView>,
) -> Seq<char> {
    match identity_layout::planned_binding(plan, field.declaration) {
        Some(child) => match child.target {
            ChildTargetView::Static(callee) => c_function_text::task_cleanup_text(
                out,
                stem,
                field.field_name@,
                true,
                child.effective_storage is Embedded,
                callee.task_type,
                callee.stem,
            ),
            ChildTargetView::Dynamic(value) => c_function_text::task_cleanup_text(
                out,
                stem,
                field.field_name@,
                false,
                false,
                ""@,
                ""@,
            ),
        },
        None => c_function_text::task_cleanup_text(
            out,
            stem,
            field.field_name@,
            false,
            false,
            ""@,
            ""@,
        ),
    }
}

/// The cleanups of the bound tasks among the first `n` lifted declarations.
pub open spec fn task_cleanups(
    out: Seq<char>,
    view: FunctionView,
    n: int,
) -> Seq<char>
    decreases n,
{
    if n <= 0 {
        out
    } else {
        let before = task_cleanups(out, view, n - 1);
        let field = view.function.lifted_fields@[n - 1];
        if field.is_task && c_symbols::task_bound(view.function, field.declaration) {
            task_cleanup_of(before, view.stem, field, view.plan)
        } else {
            before
        }
    }
}

fn write_task_cleanups(
    out: &mut String,
    function: &LivenessFunction,
    plan: Option<&CFunctionPlan>,
    stem: &str,
    reachable: &Vec<BlockId>,
    Ghost(view): Ghost<FunctionView>,
)
    requires
        view.function == *function,
        view.plan == identity_layout::plan_view(plan),
        view.stem == stem@,
        forall|b: BlockId|
            #[trigger] reachable@.contains(b) <==> c_symbols::block_reached(
                function.coroutine.cfg,
                b,
            ),
    ensures
        final(out)@ == task_cleanups(
            old(out)@,
            view,
            function.lifted_fields@.len() as int,
        ),
{
    let ghost start = out@;
    let mut n: usize = 0;
    while n < function.lifted_fields.len()
        invariant
            n <= function.lifted_fields@.len(),
            view.function == *function,
            view.plan == identity_layout::plan_view(plan),
            view.stem == stem@,
            forall|b: BlockId|
                #[trigger] reachable@.contains(b) <==> c_symbols::block_reached(
                    function.coroutine.cfg,
                    b,
                ),
            out@ == task_cleanups(start, view, n as int),
        decreases function.lifted_fields@.len() - n,
    {
        let field = &function.lifted_fields[n];
        if field.is_task && is_task_bound(function, reachable, field.declaration) {
            let name = field.field_name.as_str();
            let mut written = false;
            if let Some(child) = typed_binding_child(plan, field.declaration) {
                if let CChildTarget::Static(callee) = &child.target {
                    let embedded = matches!(child.effective_storage, CChildStorage::Embedded(_));
                    write_task_cleanup(
                        out,
                        stem,
                        name,
                        true,
                        embedded,
                        callee.task_type.as_str(),
                        callee.stem.as_str(),
                    );
                    written = true;
                }
            }
            if !written {
                write_task_cleanup(out, stem, name, false, false, "", "");
            }
        }
        n += 1;
    }
}

/// C code that stores the first `n` parameters in the context.
pub open spec fn stored_parameters(
    out: Seq<char>,
    task: TaskView,
    fields: Seq<LiftedField>,
    parameters: Seq<CfgParameter>,
    n: int,
) -> Seq<char>
    decreases n,
{
    if n <= 0 {
        out
    } else {
        let before = stored_parameters(out, task, fields, parameters, n - 1);
        let parameter = parameters[n - 1];
        if c_symbols::symbol_field(fields, parameter.id) is Some {
            before + "    "@ + c_source::path(task, LogicalFieldId::Lifted(parameter.id)) + " = "@
                + parameter.name@ + ";\n"@
        } else {
            before
        }
    }
}

/// The function that sets a task up.
pub open spec fn init_text(out: Seq<char>, function: LivenessFunction, task: TaskView) -> Seq<
    char,
> {
    let coroutine = function.coroutine;
    stored_parameters(
        c_function_text::init_head_text(
            out,
            task,
            task.context,
            coroutine.init_name@,
            coroutine.task_type@,
            init_parameters(coroutine),
        ),
        task,
        function.lifted_fields@,
        coroutine.cfg.parameters@,
        coroutine.cfg.parameters@.len() as int,
    ) + "}\n\n"@
}

fn write_async_init(out: &mut String, function: &LivenessFunction, task: &TaskContext<'_>)
    requires
        c_runtime_text::header_placed(task@),
        c_source::lifted_placed(task@, function.lifted_fields@),
    ensures
        final(out)@ == init_text(old(out)@, *function, task@),
{
    let coroutine = &function.coroutine;
    let listed = parameter_list_with_leading_comma(coroutine);
    write_init_head(
        out,
        task,
        task.context,
        coroutine.init_name.as_str(),
        coroutine.task_type.as_str(),
        listed.as_str(),
    );
    let ghost start = out@;
    let parameters = &coroutine.cfg.parameters;
    let mut n: usize = 0;
    while n < parameters.len()
        invariant
            n <= parameters@.len(),
            c_source::lifted_placed(task@, function.lifted_fields@),
            out@ == stored_parameters(
                start,
                task@,
                function.lifted_fields@,
                parameters@,
                n as int,
            ),
        decreases parameters@.len() - n,
    {
        if let Some(field) = find_field(&function.lifted_fields, parameters[n].id) {
            assert(c_source::placed(task@, LogicalFieldId::Lifted(field.declaration)));
            let target = required_access(task, LogicalFieldId::Lifted(parameters[n].id));
            put5(out, "    ", target.as_str(), " = ", parameters[n].name.as_str(), ";\n");
        }
        n += 1;
    }
    put(out, "}\n\n");
}

/// The first `n` cases of a dispatch.
pub open spec fn dispatch_cases(out: Seq<char>, states: Seq<CoroutineState>, n: int) -> Seq<char>
    decreases n,
{
    if n <= 0 {
        out
    } else {
        dispatch_cases(out, states, n - 1) + "    case "@ + text::dec(states[n - 1].state as nat)
            + ": goto cr_b"@ + text::dec(states[n - 1].block.0 as nat) + ";\n"@
    }
}

/// The first `n` labels of a dispatch.
pub open spec fn dispatch_labels(states: Seq<CoroutineState>, n: int) -> Seq<char>
    decreases n,
{
    if n <= 0 {
        Seq::empty()
    } else {
        let before = dispatch_labels(states, n - 1);
        let separated = if n > 1 {
            before + ", "@
        } else {
            before
        };
        separated + "&&cr_b"@ + text::dec(states[n - 1].block.0 as nat)
    }
}

/// C code that goes on where a task stopped.
pub open spec fn dispatch_text(
    out: Seq<char>,
    states: Seq<CoroutineState>,
    task: TaskView,
    backend: CBackend,
) -> Seq<char> {
    match backend {
        CBackend::Portable => c_runtime_text::invalid_state_text(
            dispatch_cases(
                out + "    switch ("@ + c_source::path(task, LogicalFieldId::State) + ") {\n"@,
                states,
                states.len() as int,
            ) + "    default:\n"@,
            task,
        ) + "    }\n"@,
        CBackend::ComputedGoto => c_function_text::goto_dispatch_text(
            out,
            task,
            dispatch_labels(states, states.len() as int),
        ),
    }
}

fn write_dispatch(
    out: &mut String,
    states: &Vec<CoroutineState>,
    task: &TaskContext<'_>,
    backend: CBackend,
)
    requires
        c_runtime_text::header_placed(task@),
    ensures
        final(out)@ == dispatch_text(old(out)@, states@, task@, backend),
{
    match backend {
        CBackend::Portable => {
            let state = required_access(task, LogicalFieldId::State);
            put3(out, "    switch (", state.as_str(), ") {\n");
            let ghost start = out@;
            let mut n: usize = 0;
            while n < states.len()
                invariant
                    n <= states@.len(),
                    out@ == dispatch_cases(start, states@, n as int),
                decreases states@.len() - n,
            {
                let own = number(states[n].state as u64);
                let target = number(states[n].block.0 as u64);
                put5(out, "    case ", own.as_str(), ": goto cr_b", target.as_str(), ";\n");
                n += 1;
            }
            put(out, "    default:\n");
            write_invalid_state(out, task);
            put(out, "    }\n");
        },
        CBackend::ComputedGoto => {
            let mut labels = String::new();
            assert(labels@ =~= Seq::empty());
            let mut n: usize = 0;
            while n < states.len()
                invariant
                    n <= states@.len(),
                    labels@ == dispatch_labels(states@, n as int),
                decreases states@.len() - n,
            {
                if n > 0 {
                    put(&mut labels, ", ");
                }
                let target = number(states[n].block.0 as u64);
                put2(&mut labels, "&&cr_b", target.as_str());
                n += 1;
            }
            write_goto_dispatch(out, task, labels.as_str());
        },
    }
}

/// The function that polls a task.
pub open spec fn poll_text(
    emitted: Emitted,
    view: FunctionView,
    task: TaskView,
    backend: CBackend,
) -> Emitted {
    let coroutine = view.function.coroutine;
    let head = c_function_text::poll_head_text(
        emitted.out,
        task,
        task.context,
        coroutine.poll_name@,
        coroutine.task_type@,
    );
    let end = c_terminator::blocks_text(
        c_instruction::with_code(
            emitted,
            dispatch_text(head, coroutine.states@, task, backend),
        ),
        view,
        coroutine.cfg.blocks@.len() as int,
    );
    c_instruction::with_code(end, end.out + "}\n\n"@)
}

fn write_async_poll(
    out: &mut String,
    problems: &mut Vec<Diagnostic>,
    scene: &FunctionScene<'_>,
    task: &TaskContext<'_>,
    backend: CBackend,
    reachable: &Vec<BlockId>,
)
    requires
        c_instruction::consistent(*scene),
        c_instruction::function_ready(scene@),
        c_terminator::blocks_ready(scene@),
        c_runtime_text::header_placed(task@),
        forall|b: BlockId|
            #[trigger] reachable@.contains(b) <==> c_symbols::block_reached(
                scene.function.coroutine.cfg,
                b,
            ),
    ensures
        c_instruction::emitted_of(*final(out), *final(problems)) == poll_text(
            c_instruction::emitted_of(*old(out), *old(problems)),
            scene@,
            task@,
            backend,
        ),
{
    let coroutine = &scene.function.coroutine;
    write_poll_head(
        out,
        task,
        task.context,
        coroutine.poll_name.as_str(),
        coroutine.task_type.as_str(),
    );
    write_dispatch(out, &coroutine.states, task, backend);
    write_blocks(out, problems, scene, reachable);
    put(out, "}\n\n");
}

/// C code that drops the first `n` directly awaited children.
pub open spec fn dropped_children(
    out: Seq<char>,
    task: TaskView,
    children: Seq<(ChildInstanceId, ChildPlanView)>,
    n: int,
) -> Seq<char>
    decreases n,
{
    if n <= 0 {
        out
    } else {
        let before = dropped_children(out, task, children, n - 1);
        let child = children[n - 1].1;
        match (child.target, child.origin) {
            (ChildTargetView::Static(callee), ChildOrigin::Direct(edge)) => if child.effective_storage is Opaque {
                before
            } else {
                c_function_text::drop_child_text(
                    before,
                    task,
                    child.instance,
                    callee.stem,
                    child.effective_storage is Embedded,
                )
            },
            _ => before,
        }
    }
}

/// The child that an edge polls, from `i` on.
pub open spec fn instance_origin(
    children: Seq<ChildInstance>,
    id: ChildInstanceId,
    i: int,
) -> Option<ChildOrigin>
    decreases children.len() - i,
{
    if i < 0 || i >= children.len() {
        None
    } else if children[i].id == id {
        Some(children[i].origin)
    } else {
        instance_origin(children, id, i + 1)
    }
}

/// Whether an edge polls a bound task in a slot.
pub open spec fn polls_binding(
    edge: AwaitEdge,
    children: Seq<ChildInstance>,
    slot: AwaitSlotId,
) -> bool {
    edge.slot == slot && match instance_origin(children, edge.instance, 0) {
        Some(origin) => origin is Binding,
        None => false,
    }
}

/// Whether a slot polls a bound task.
pub open spec fn binding_slot(function: CoroutineFunction, slot: AwaitSlotId) -> bool {
    exists|i: int|
        0 <= i < function.await_plan.edges@.len() && polls_binding(
            #[trigger] function.await_plan.edges@[i],
            function.await_plan.children@,
            slot,
        )
}

/// C code that drops the awaitables of the first `n` slots.
pub open spec fn dropped_slots(
    out: Seq<char>,
    view: FunctionView,
    task: TaskView,
    slots: Seq<CoroutineAwaitSlot>,
    n: int,
) -> Seq<char>
    decreases n,
{
    if n <= 0 {
        out
    } else {
        let before = dropped_slots(out, view, task, slots, n - 1);
        let slot = slots[n - 1].id;
        if identity_layout::typed_slot(
            view.function.coroutine.await_plan.edges@,
            view.plan,
            slot,
        ) {
            before
        } else {
            c_function_text::drop_slot_text(
                before,
                task,
                slot,
                binding_slot(view.function.coroutine, slot),
            )
        }
    }
}

/// The function that drops a task.
pub open spec fn drop_text(out: Seq<char>, view: FunctionView, task: TaskView) -> Seq<char> {
    let coroutine = view.function.coroutine;
    let out = c_function_text::drop_head_text(
        out,
        task.context,
        coroutine.drop_name@,
        coroutine.task_type@,
    );
    let out = match view.plan {
        Some(plan) => dropped_children(out, task, plan.children, plan.children.len() as int),
        None => out,
    };
    c_function_text::drop_tail_text(
        dropped_slots(
            out,
            view,
            task,
            coroutine.await_slots@,
            coroutine.await_slots@.len() as int,
        ),
        task,
    )
}

/// Whether the awaitables of slots without typed children have places.
pub open spec fn slots_ready(view: FunctionView, task: TaskView) -> bool {
    forall|i: int|
        0 <= i < view.function.coroutine.await_slots@.len() && !identity_layout::typed_slot(
            view.function.coroutine.await_plan.edges@,
            view.plan,
            (#[trigger] view.function.coroutine.await_slots@[i]).id,
        ) ==> c_runtime_text::awaitable_placed(
            task,
            view.function.coroutine.await_slots@[i].id,
        )
}

fn find_instance_origin(children: &Vec<ChildInstance>, id: ChildInstanceId) -> (r: Option<
    ChildOrigin,
>)
    ensures
        r == instance_origin(children@, id, 0),
{
    let mut i: usize = 0;
    while i < children.len()
        invariant
            i <= children@.len(),
            instance_origin(children@, id, 0) == instance_origin(children@, id, i as int),
        decreases children@.len() - i,
    {
        if children[i].id == id {
            return Some(children[i].origin);
        }
        i += 1;
    }
    None
}

fn is_binding_slot(function: &CoroutineFunction, slot: AwaitSlotId) -> (r: bool)
    ensures
        r == binding_slot(*function, slot),
{
    let edges = &function.await_plan.edges;
    let mut i: usize = 0;
    while i < edges.len()
        invariant
            i <= edges@.len(),
            edges == &function.await_plan.edges,
            forall|k: int|
                0 <= k < i ==> !polls_binding(
                    #[trigger] function.await_plan.edges@[k],
                    function.await_plan.children@,
                    slot,
                ),
        decreases edges@.len() - i,
    {
        if edges[i].slot == slot {
            if let Some(ChildOrigin::Binding(declaration)) = find_instance_origin(
                &function.await_plan.children,
                edges[i].instance,
            ) {
                assert(polls_binding(
                    function.await_plan.edges@[i as int],
                    function.await_plan.children@,
                    slot,
                ));
                return true;
            }
        }
        i += 1;
    }
    false
}

fn write_async_drop(
    out: &mut String,
    scene: &FunctionScene<'_>,
    task: &TaskContext<'_>,
)
    requires
        c_instruction::task_ready(task@, scene@),
        slots_ready(scene@, task@),
    ensures
        final(out)@ == drop_text(old(out)@, scene@, task@),
{
    let function = scene.function;
    let coroutine = &function.coroutine;
    write_drop_head(
        out,
        task.context,
        coroutine.drop_name.as_str(),
        coroutine.task_type.as_str(),
    );
    if let Some(plan) = scene.plan {
        let ghost start = out@;
        let ghost children = plan@.children;
        let mut n: usize = 0;
        while n < plan.children.len()
            invariant
                n <= plan.children@.len(),
                children == order::entry_views(plan.children@),
                c_instruction::children_placed(task@, plan@),
                children == plan@.children,
                out@ == dropped_children(start, task@, children, n as int),
            decreases plan.children@.len() - n,
        {
            let child = &plan.children[n].1;
            assert(children[n as int].1 == child@);
            if let CChildTarget::Static(callee) = &child.target {
                if let ChildOrigin::Direct(edge) = child.origin {
                    let opaque = matches!(child.effective_storage, CChildStorage::Opaque(_));
                    if !opaque {
                        assert(c_instruction::direct_typed(plan@.children[n as int].1));
                        let embedded = matches!(
                            child.effective_storage,
                            CChildStorage::Embedded(_)
                        );
                        write_drop_child(
                            out,
                            task,
                            child.instance,
                            callee.stem.as_str(),
                            embedded,
                        );
                    }
                }
            }
            n += 1;
        }
    }
    let ghost start = out@;
    let slots = &coroutine.await_slots;
    let mut n: usize = 0;
    while n < slots.len()
        invariant
            n <= slots@.len(),
            slots == &scene.function.coroutine.await_slots,
            function == scene.function,
            coroutine == &scene.function.coroutine,
            slots_ready(scene@, task@),
            out@ == dropped_slots(start, scene@, task@, slots@, n as int),
        decreases slots@.len() - n,
    {
        if !is_typed_slot(function, scene.plan, slots[n].id) {
            assert(c_runtime_text::awaitable_placed(
                task@,
                scene@.function.coroutine.await_slots@[n as int].id,
            ));
            write_drop_slot(out, task, slots[n].id, is_binding_slot(coroutine, slots[n].id));
        }
        n += 1;
    }
    write_drop_tail(out, task);
}

/// A function with a context, as its C code is written.
pub open spec fn async_view(
    function: LivenessFunction,
    plan: Option<FunctionPlanView>,
    layout: LayoutView,
    children: Seq<ChildPlanView>,
    config: CEmitterConfig,
) -> FunctionView {
    FunctionView {
        function,
        plan,
        scene: SceneView {
            fields: function.lifted_fields@,
            task: Some(
                TaskView { layout, context: text::identifier_text(config.context_name@) },
            ),
            prefix: config.prefix@,
            children,
        },
        helpers: c_symbols::helpers_of(function, Seq::empty()).helpers,
        await_types: layout.await_result_types,
        stem: c_symbols::poll_stem(function.coroutine.poll_name@),
    }
}

/// A function without a context, as its C code is written.
pub open spec fn sync_view(
    function: LivenessFunction,
    plan: Option<FunctionPlanView>,
    children: Seq<ChildPlanView>,
    config: CEmitterConfig,
) -> FunctionView {
    FunctionView {
        function,
        plan,
        scene: SceneView {
            fields: function.lifted_fields@,
            task: None,
            prefix: config.prefix@,
            children,
        },
        helpers: c_symbols::helpers_of(function, Seq::empty()).helpers,
        await_types: Seq::empty(),
        stem: c_symbols::poll_stem(function.coroutine.poll_name@),
    }
}

/// Whether everything that the C code of a function with a context refers to
/// is there.
pub open spec fn async_ready(view: FunctionView) -> bool {
    match view.scene.task {
        Some(task) => {
            &&& c_instruction::function_ready(view)
            &&& c_terminator::blocks_ready(view)
            &&& slots_ready(view, task)
        },
        None => false,
    }
}

/// The functions that others use a task through.
pub open spec fn surface_text(
    out: Seq<char>,
    view: FunctionView,
    layout: LayoutView,
) -> Seq<char> {
    let coroutine = view.function.coroutine;
    let returned = c_terminator::returned_type(view);
    let children = view.scene.children;
    let internal = internal_stem(children, view.stem);
    let own = TaskView { layout, context: "task"@ };
    let state = TaskView {
        layout,
        context: "((const "@ + coroutine.task_type@ + " *)state)"@,
    };
    let out = if !internal || heap_stem(children, view.stem) {
        c_function_text::heap_api_text(
            out,
            view.stem,
            coroutine.task_type@,
            coroutine.init_name@,
            coroutine.drop_name@,
            create_parameters(coroutine),
            parameter_names_text(
                coroutine.cfg.parameters@,
                coroutine.cfg.parameters@.len() as int,
            ),
        )
    } else {
        out
    };
    let out = if !internal || accessor_stem(children, view.stem) {
        c_function_text::accessors_text(
            out,
            own,
            view.stem,
            coroutine.task_type@,
            returned,
        )
    } else {
        out
    };
    if !internal {
        c_function_text::adapters_text(
            out,
            own,
            state,
            view.stem,
            coroutine.task_type@,
            coroutine.poll_name@,
            coroutine.drop_name@,
            returned,
        )
    } else {
        out
    }
}

/// The C code of a function with a context.
pub open spec fn async_text(
    problems: Seq<DiagnosticView>,
    view: FunctionView,
    backend: CBackend,
) -> Emitted {
    let task = view.scene.task->0;
    let collected = c_symbols::helpers_of(view.function, problems);
    let out = c_symbols::helpers_text(
        c_runtime_text::abi_guard_text(Seq::empty()),
        view.stem,
        view.helpers,
        view.helpers.len() as int,
    );
    let out = task_cleanups(out, view, view.function.lifted_fields@.len() as int);
    let out = init_text(out, view.function, task);
    let polled = poll_text(
        Emitted { out, problems: collected.problems },
        view,
        task,
        backend,
    );
    c_instruction::with_code(
        polled,
        surface_text(drop_text(polled.out, view, task), view, task.layout),
    )
}

proof fn instruction_helpers_alike(
    a: Collected,
    b: Collected,
    function: LivenessFunction,
    block: crate::control_flow::BasicBlock,
    n: int,
)
    requires
        a.helpers == b.helpers,
    ensures
        c_symbols::instruction_helpers(a, function, block, n).helpers
            == c_symbols::instruction_helpers(b, function, block, n).helpers,
    decreases n,
{
    if n > 0 {
        instruction_helpers_alike(a, b, function, block, n - 1);
    }
}

proof fn block_helpers_alike(a: Collected, b: Collected, function: LivenessFunction, n: int)
    requires
        a.helpers == b.helpers,
    ensures
        c_symbols::block_helpers(a, function, n).helpers == c_symbols::block_helpers(
            b,
            function,
            n,
        ).helpers,
    decreases n,
{
    if n > 0 {
        block_helpers_alike(a, b, function, n - 1);
        let block = function.coroutine.cfg.blocks@[n - 1];
        instruction_helpers_alike(
            c_symbols::block_helpers(a, function, n - 1),
            c_symbols::block_helpers(b, function, n - 1),
            function,
            block,
            block.instructions@.len() as int,
        );
    }
}

/// The helpers of a function don't depend on the errors before it.
pub proof fn helpers_alike(function: LivenessFunction, problems: Seq<DiagnosticView>)
    ensures
        c_symbols::helpers_of(function, problems).helpers == c_symbols::helpers_of(
            function,
            Seq::empty(),
        ).helpers,
{
    block_helpers_alike(
        Collected { helpers: Seq::empty(), problems },
        Collected { helpers: Seq::empty(), problems: Seq::empty() },
        function,
        function.coroutine.cfg.blocks@.len() as int,
    );
}

fn write_surface(
    out: &mut String,
    scene: &FunctionScene<'_>,
    layout: &FunctionContextLayout,
)
    requires
        c_runtime_text::values_placed(TaskView { layout: layout@, context: Seq::empty() }),
    ensures
        final(out)@ == surface_text(old(out)@, scene@, layout@),
{
    let coroutine = &scene.function.coroutine;
    let task_type = coroutine.task_type.as_str();
    let returned = trim(coroutine.cfg.return_type.text.as_str());
    let children = scene.scene.children;
    let internal = is_internal_stem(children, scene.stem);
    let state_context = concat3("((const ", task_type, " *)state)");
    let own = TaskContext { layout, context: "task" };
    let state = TaskContext { layout, context: state_context.as_str() };
    assert(c_runtime_text::values_placed(own@));
    assert(c_runtime_text::values_placed(state@));
    if !internal || is_heap_stem(children, scene.stem) {
        let parameters = create_parameter_list(coroutine);
        let arguments = parameter_names(coroutine);
        write_heap_api(
            out,
            scene.stem,
            task_type,
            coroutine.init_name.as_str(),
            coroutine.drop_name.as_str(),
            parameters.as_str(),
            arguments.as_str(),
        );
    }
    if !internal || is_accessor_stem(children, scene.stem) {
        write_accessors(out, &own, scene.stem, task_type, returned);
    }
    if !internal {
        write_adapters(
            out,
            &own,
            &state,
            scene.stem,
            task_type,
            coroutine.poll_name.as_str(),
            coroutine.drop_name.as_str(),
            returned,
        );
    }
}

/// Writes the C code of a function with a context.
pub fn emit_async_function(
    problems: &mut Vec<Diagnostic>,
    function: &LivenessFunction,
    plan: Option<&CFunctionPlan>,
    layout: &FunctionContextLayout,
    children: &Vec<&CChildPlan>,
    config: &CEmitterConfig,
) -> (r: String)
    requires
        async_ready(
            async_view(
                *function,
                identity_layout::plan_view(plan),
                layout@,
                syntax::views(children@),
                *config,
            ),
        ),
    ensures
        c_instruction::emitted_of(r, *final(problems)) == async_text(
            syntax::views(old(problems)@),
            async_view(
                *function,
                identity_layout::plan_view(plan),
                layout@,
                syntax::views(children@),
                *config,
            ),
            config.backend,
        ),
{
    let ghost view = async_view(
        *function,
        identity_layout::plan_view(plan),
        layout@,
        syntax::views(children@),
        *config,
    );
    proof {
        helpers_alike(*function, syntax::views(problems@));
    }
    let declared = collect_types(function);
    let helpers = cleanup_helpers(&declared, function, problems);
    let stem = symbol_stem(function.coroutine.poll_name.as_str());
    let context = c_identifier(config.context_name.as_str());
    let task = TaskContext { layout, context: context.as_str() };
    let scene = FunctionScene {
        function,
        plan,
        scene: Scene {
            fields: &function.lifted_fields,
            task: Some(task),
            prefix: config.prefix.as_str(),
            children,
        },
        declared: &declared,
        helpers: &helpers,
        await_types: &layout.await_result_types,
        stem: stem.as_str(),
    };
    assert(scene@ == view);
    let reachable = reachable_blocks(&function.coroutine.cfg);
    let mut out = String::new();
    assert(out@ =~= Seq::empty());
    write_abi_guard(&mut out);
    write_cleanup_helpers(&mut out, stem.as_str(), &helpers);
    write_task_cleanups(&mut out, function, plan, stem.as_str(), &reachable, Ghost(view));
    write_async_init(&mut out, function, &task);
    write_async_poll(&mut out, problems, &scene, &task, config.backend, &reachable);
    write_async_drop(&mut out, &scene, &task);
    write_surface(&mut out, &scene, layout);
    out
}

/// The C code of a function without a context.
pub open spec fn sync_text(
    problems: Seq<DiagnosticView>,
    view: FunctionView,
    original: Seq<char>,
) -> Emitted {
    let cfg = view.function.coroutine.cfg;
    let collected = c_symbols::helpers_of(view.function, problems);
    let signature = text::byte_slice(
        original,
        cfg.span.start_byte as int,
        cfg.body_span.start_byte as int,
    );
    let out = c_symbols::helpers_text(
        c_runtime_text::abi_guard_text(Seq::empty()),
        view.stem,
        view.helpers,
        view.helpers.len() as int,
    );
    let out = out + text::trim_back(signature)
        + " {\n    cr_cleanup_stack cr_cleanups;\n    cr_cleanup_stack_init(&cr_cleanups);\n    goto cr_b"@
        + text::dec(cfg.entry.0 as nat) + ";\n"@;
    let end = c_terminator::blocks_text(
        Emitted { out, problems: collected.problems },
        view,
        cfg.blocks@.len() as int,
    );
    c_instruction::with_code(end, end.out + "}\n"@)
}

/// Whether everything that the C code of a function without a context refers
/// to is there.
pub open spec fn sync_ready(view: FunctionView, original: Seq<char>) -> bool {
    let cfg = view.function.coroutine.cfg;
    &&& c_terminator::blocks_ready(view)
    &&& cfg.span.start_byte <= cfg.body_span.start_byte <= text::byte_len(original)
    &&& text::is_boundary(original, cfg.span.start_byte as int)
    &&& text::is_boundary(original, cfg.body_span.start_byte as int)
}

/// Writes the C code of a function without a context.
pub fn emit_sync_function(
    problems: &mut Vec<Diagnostic>,
    original: &Vec<char>,
    function: &LivenessFunction,
    plan: Option<&CFunctionPlan>,
    children: &Vec<&CChildPlan>,
    config: &CEmitterConfig,
) -> (r: String)
    requires
        sync_ready(
            sync_view(
                *function,
                identity_layout::plan_view(plan),
                syntax::views(children@),
                *config,
            ),
            original@,
        ),
    ensures
        c_instruction::emitted_of(r, *final(problems)) == sync_text(
            syntax::views(old(problems)@),
            sync_view(
                *function,
                identity_layout::plan_view(plan),
                syntax::views(children@),
                *config,
            ),
            original@,
        ),
{
    let ghost view = sync_view(
        *function,
        identity_layout::plan_view(plan),
        syntax::views(children@),
        *config,
    );
    proof {
        helpers_alike(*function, syntax::views(problems@));
    }
    let cfg = &function.coroutine.cfg;
    let declared = collect_types(function);
    let helpers = cleanup_helpers(&declared, function, problems);
    let stem = symbol_stem(function.coroutine.poll_name.as_str());
    let await_types: Vec<(AwaitSlotId, String)> = Vec::new();
    assert(order::entry_views(await_types@) =~= Seq::empty());
    let scene = FunctionScene {
        function,
        plan,
        scene: Scene {
            fields: &function.lifted_fields,
            task: None,
            prefix: config.prefix.as_str(),
            children,
        },
        declared: &declared,
        helpers: &helpers,
        await_types: &await_types,
        stem: stem.as_str(),
    };
    assert(scene@ == view);
    let reachable = reachable_blocks(cfg);
    let mut out = String::new();
    assert(out@ =~= Seq::empty());
    write_abi_guard(&mut out);
    write_cleanup_helpers(&mut out, stem.as_str(), &helpers);
    let signature = slice_bytes(original, cfg.span.start_byte, cfg.body_span.start_byte);
    let entry = number(cfg.entry.0 as u64);
    put4(
        &mut out,
        trim_end(signature.as_str()),
        " {\n    cr_cleanup_stack cr_cleanups;\n    cr_cleanup_stack_init(&cr_cleanups);\n    goto cr_b",
        entry.as_str(),
        ";\n",
    );
    write_blocks(&mut out, problems, &scene, &reachable);
    put(&mut out, "}\n");
    out
}

} // verus!
