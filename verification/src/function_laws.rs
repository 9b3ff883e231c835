//! What the parts of generated functions are made of.

use vstd::prelude::*;

use crate::c_expression;
use crate::c_expression::SceneView;
use crate::c_function_text;
use crate::c_instruction::{Emitted, FunctionView};
use crate::c_instruction;
use crate::c_meaning;
use crate::c_source;
use crate::c_static_plan::{ChildPlanView, ChildTargetView};
use crate::c_symbols;
use crate::c_symbols::HelperView;
use crate::c_task;
use crate::c_task::CBackend;
use crate::c_terminator;
use crate::context_layout::{LayoutView, LogicalFieldId, MemberView, PhysicalSlotKind, SlotView};
use crate::context_types;
use crate::control_flow::{CfgParameter, CleanupId};
use crate::coroutine::CoroutineFunction;
use crate::ending_laws;
use crate::rewriting_laws;
use crate::semantic::{HirExpr, HirExprKind, ScopeId};
use crate::symbol_index::FunctionId;
use crate::task_laws;
use crate::text;
use crate::c_source::TaskView;

verus! {

/// The texts of several expressions.
pub open spec fn shown(list: Seq<HirExpr>, scopes: Seq<ScopeId>, scene: SceneView) -> Seq<
    Seq<char>,
> {
    Seq::new(list.len(), |i: int| c_expression::expression_text(list[i], scopes, scene))
}

proof fn arguments_are_listed(list: Seq<HirExpr>, n: int, scopes: Seq<ScopeId>, scene: SceneView)
    requires
        0 <= n <= list.len(),
    ensures
        c_expression::arguments_text(list, n, scopes, scene) == c_meaning::listed(
            shown(list, scopes, scene),
            n,
        ),
    decreases n,
{
    if n > 0 {
        arguments_are_listed(list, n - 1, scopes, scene);
        if n == 1 {
            assert(c_expression::arguments_text(list, 0, scopes, scene) =~= Seq::<char>::empty());
            assert(Seq::<char>::empty() + c_expression::expression_text(list[0], scopes, scene)
                =~= shown(list, scopes, scene)[0]);
        }
    }
}

/// An expression is written with all its operands, each in its place: operators
/// between theirs and in parentheses, the parts of a choice in their order, a
/// call with all its arguments. Source text is rewritten where it stands, the
/// result of a suspension is read from its slot, and a call of a task makes an
/// awaitable of it.
pub proof fn expressions_keep_their_operands(e: HirExpr, scopes: Seq<ScopeId>, scene: SceneView)
    ensures
        ({
            let of = |x: HirExpr| c_expression::expression_text(x, scopes, scene);
            let r = c_expression::expression_text(e, scopes, scene);
            match e.kind {
                HirExprKind::Source(source) => r == c_source::rewritten(
                    source@,
                    e.span.start_byte as nat,
                    scopes,
                    scene.fields,
                    scene.task,
                ),
                HirExprKind::AwaitResultRef(slot) => r == c_source::path(
                    scene.task->0,
                    LogicalFieldId::AwaitResult(slot),
                ),
                HirExprKind::Call { function, arguments } => r == of(*function) + "("@
                    + c_meaning::listed(
                    shown(arguments@, scopes, scene),
                    arguments@.len() as int,
                ) + ")"@,
                HirExprKind::AsyncCall { target, callee, arguments, result_type } => {
                    let stem = c_expression::stem_of(target, callee@, scene);
                    let list = c_meaning::listed(
                        shown(arguments@, scopes, scene),
                        arguments@.len() as int,
                    );
                    r == stem + "_into_awaitable("@ + stem + "_create("@ + list + (if list == ""@ {
                        "NULL"@
                    } else {
                        ", NULL"@
                    }) + "))"@
                },
                HirExprKind::Binary { left, operator, right } => r == "("@ + of(*left) + " "@
                    + operator@ + " "@ + of(*right) + ")"@,
                HirExprKind::Assignment { left, operator, right } => r == "("@ + of(*left) + " "@
                    + operator@ + " "@ + of(*right) + ")"@,
                HirExprKind::Conditional { condition, consequence, alternative } => r == "("@ + of(
                    *condition,
                ) + " ? "@ + of(*consequence) + " : "@ + of(*alternative) + ")"@,
                HirExprKind::Comma { left, right } => r == "("@ + of(*left) + ", "@ + of(*right)
                    + ")"@,
                HirExprKind::Unary { operator, operand } => r == operator@ + "("@ + of(*operand)
                    + ")"@,
                HirExprKind::Await(operand) => r == of(*operand),
                HirExprKind::Yield(Some(value)) => r == of(*value),
                HirExprKind::TaskRef { declaration, name } => {
                    &&& scene.task is None ==> r == name@
                    &&& (forall|i: int|
                        0 <= i < scene.fields.len() ==> (#[trigger] scene.fields[i]).declaration
                            != declaration) ==> r == name@
                    &&& scene.task is Some && c_source::placed(
                        scene.task->0,
                        LogicalFieldId::Lifted(declaration),
                    ) && (exists|i: int|
                        0 <= i < scene.fields.len() && (#[trigger] scene.fields[i]).declaration
                            == declaration) ==> r == c_source::path(
                        scene.task->0,
                        LogicalFieldId::Lifted(declaration),
                    )
                },
                _ => true,
            }
        }),
{
    match e.kind {
        HirExprKind::Call { function, arguments } => {
            arguments_are_listed(arguments@, arguments@.len() as int, scopes, scene);
        },
        HirExprKind::AsyncCall { target, callee, arguments, result_type } => {
            arguments_are_listed(arguments@, arguments@.len() as int, scopes, scene);
            let stem = c_expression::stem_of(target, callee@, scene);
            assert(Seq::<char>::empty() + stem =~= stem);
        },
        HirExprKind::TaskRef { declaration, name } => {
            lifted_at_finds(scene.fields, declaration, 0);
        },
        _ => {
            assert(Seq::<char>::empty() + "("@ =~= "("@);
            if let HirExprKind::Unary { operator, operand } = e.kind {
                assert(Seq::<char>::empty() + operator@ =~= operator@);
            }
        },
    }
}

proof fn lifted_at_finds(
    fields: Seq<crate::liveness::LiftedField>,
    declaration: crate::semantic::DeclarationId,
    i: int,
)
    requires
        0 <= i <= fields.len(),
    ensures
        crate::storage_lifetimes::lifted_at(fields, declaration, i) is Some <==> exists|k: int|
            i <= k < fields.len() && (#[trigger] fields[k]).declaration == declaration,
    decreases fields.len() - i,
{
    if i < fields.len() {
        lifted_at_finds(fields, declaration, i + 1);
        if fields[i].declaration == declaration {
            assert(fields[i].declaration == declaration);
        }
    }
}

/// A condition stands in parentheses, its own if it has some around it, and is
/// the condition otherwise.
pub proof fn conditions_stand_in_parentheses(condition: Seq<char>)
    ensures
        ({
            let r = c_terminator::parenthesized(condition);
            let s = text::trimmed(condition);
            &&& r.len() >= 1 && r[0] == '(' && r.last() == ')'
            &&& r == s || r == "("@ + s + ")"@
        }),
{
    reveal_strlit("(");
    reveal_strlit(")");
}

/// The name of a function of the program is the one that its last planned call
/// has for it, and one made of the prefix and the source name if no call is
/// planned.
pub proof fn functions_are_called_by_their_stem(
    children: Seq<ChildPlanView>,
    id: FunctionId,
    n: int,
)
    requires
        0 <= n <= children.len(),
    ensures
        match c_expression::static_stem(children, id, n) {
            Some(stem) => exists|k: int|
                {
                    &&& 0 <= k < n
                    &&& (#[trigger] children[k]).target matches ChildTargetView::Static(callee)
                    &&& callee.function == id
                    &&& callee.stem == stem
                    &&& forall|j: int|
                        k < j < n ==> !((#[trigger] children[j]).target matches ChildTargetView::Static(
                            other,
                        ) && other.function == id)
                },
            None => forall|j: int|
                0 <= j < n ==> !((#[trigger] children[j]).target matches ChildTargetView::Static(
                    other,
                ) && other.function == id),
        },
    decreases n,
{
    if n > 0 {
        functions_are_called_by_their_stem(children, id, n - 1);
        if let ChildTargetView::Static(callee) = children[n - 1].target {
            if callee.function == id {
                assert(children[n - 1].target == ChildTargetView::Static(callee));
            }
        }
    }
}

/// The parameters of a function are declared in their order, each with its own
/// type and name, and passed on by their names in the same order.
pub proof fn parameters_are_listed(parameters: Seq<CfgParameter>, n: int)
    requires
        0 <= n <= parameters.len(),
    ensures
        c_task::parameters_text(parameters, n) == c_meaning::listed(
            Seq::new(
                parameters.len(),
                |i: int|
                    context_types::declarator(
                        text::trimmed(parameters[i].ty.text@),
                        parameters[i].name@,
                    ),
            ),
            n,
        ),
        c_task::parameter_names_text(parameters, n) == c_meaning::listed(
            Seq::new(parameters.len(), |i: int| parameters[i].name@),
            n,
        ),
    decreases n,
{
    if n > 0 {
        parameters_are_listed(parameters, n - 1);
        if n == 1 {
            let declared = context_types::declarator(
                text::trimmed(parameters[0].ty.text@),
                parameters[0].name@,
            );
            assert(Seq::<char>::empty() + declared =~= declared);
            assert(Seq::<char>::empty() + parameters[0].name@ =~= parameters[0].name@);
        }
    }
}

/// The function that sets a task up takes the parameters behind the task, and the
/// one that creates a task takes them before a place for an error.
pub proof fn parameters_stand_beside_the_task(function: CoroutineFunction)
    ensures
        ({
            let parameters = function.cfg.parameters@;
            let list = c_meaning::listed(
                Seq::new(
                    parameters.len(),
                    |i: int|
                        context_types::declarator(
                            text::trimmed(parameters[i].ty.text@),
                            parameters[i].name@,
                        ),
                ),
                parameters.len() as int,
            );
            &&& c_task::init_parameters(function) == if parameters.len() == 0 {
                ""@
            } else {
                ", "@ + list
            }
            &&& c_task::create_parameters(function) == if parameters.len() == 0 {
                "cr_error *out_error"@
            } else {
                list + ", cr_error *out_error"@
            }
        }),
{
    parameters_are_listed(function.cfg.parameters@, function.cfg.parameters@.len() as int);
}

/// The members that a deferred call keeps its arguments in, a line for each.
pub open spec fn kept_lines(types: Seq<Seq<char>>) -> Seq<Seq<char>> {
    Seq::new(
        types.len(),
        |i: int| "    "@ + context_types::declarator(types[i], "arg_"@ + text::dec(i as nat)) + ";\n"@,
    )
}

proof fn members_are_strung(out: Seq<char>, types: Seq<Seq<char>>, n: int)
    requires
        0 <= n <= types.len(),
    ensures
        c_symbols::payload_members(out, types, n) == out + rewriting_laws::strung(
            kept_lines(types),
            n,
        ),
    decreases n,
{
    if n > 0 {
        members_are_strung(out, types, n - 1);
        let before = rewriting_laws::strung(kept_lines(types), n - 1);
        let line = context_types::declarator(types[n - 1], "arg_"@ + text::dec((n - 1) as nat));
        assert(out + before + "    "@ + line + ";\n"@ =~= out + (before + kept_lines(types)[n
            - 1]));
    } else {
        assert(out + rewriting_laws::strung(kept_lines(types), 0) =~= out);
    }
}

proof fn kept_arguments_are_listed(n: int, m: nat)
    requires
        0 <= n <= m,
    ensures
        c_symbols::payload_arguments(n) == c_meaning::listed(
            Seq::new(m, |i: int| "payload->arg_"@ + text::dec(i as nat)),
            n,
        ),
    decreases n,
{
    if n > 0 {
        kept_arguments_are_listed(n - 1, m);
        let items = Seq::new(m, |i: int| "payload->arg_"@ + text::dec(i as nat));
        let before = c_symbols::payload_arguments(n - 1);
        let last = text::dec((n - 1) as nat);
        if n == 1 {
            assert(before =~= Seq::<char>::empty());
            assert(before + "payload->arg_"@ + last =~= items[0]);
        } else {
            assert(before + ", "@ + "payload->arg_"@ + last =~= before + ", "@ + items[n - 1]);
        }
    }
}

/// A deferred call is made by a function of its own. What it keeps has a member
/// for every argument, of the type of the argument, and the function calls what
/// was deferred with all of them, in their order.
pub proof fn deferred_calls_are_made(
    out: Seq<char>,
    stem: Seq<char>,
    id: CleanupId,
    helper: HelperView,
)
    ensures
        ({
            let n = helper.types.len();
            let payload = c_symbols::payload_type(stem, id);
            let members = if n == 0 {
                "    unsigned char unused;\n"@
            } else {
                rewriting_laws::strung(kept_lines(helper.types), n as int)
            };
            let passed = c_meaning::listed(
                Seq::new(n, |i: int| "payload->arg_"@ + text::dec(i as nat)),
                n as int,
            );
            c_symbols::helper_text(out, stem, id, helper) == out + "typedef struct "@ + payload
                + " {\n"@ + members + "} "@ + payload + ";\nstatic void "@ + c_symbols::run_function(
                stem,
                id,
            ) + "(void *raw) {\n"@ + "    "@ + payload + " *payload = ("@ + payload
                + " *)raw;\n    "@ + helper.callee + "("@ + passed + ");\n}\n\n"@
        }),
{
    let n = helper.types.len();
    let opened = out + "typedef struct "@ + c_symbols::payload_type(stem, id) + " {\n"@;
    members_are_strung(opened, helper.types, n as int);
    kept_arguments_are_listed(n as int, n);
}

/// No two deferred calls of a function have the same name for what they keep, or
/// for the function that makes them.
pub proof fn deferred_calls_have_names_of_their_own(stem: Seq<char>, a: CleanupId, b: CleanupId)
    ensures
        c_symbols::payload_type(stem, a) == c_symbols::payload_type(stem, b) ==> a == b,
        c_symbols::run_function(stem, a) == c_symbols::run_function(stem, b) ==> a == b,
{
    let x = text::dec(a.0 as nat);
    let y = text::dec(b.0 as nat);
    let head = stem + "_cleanup_"@;
    ending_laws::numerals_differ(a.0 as nat, b.0 as nat);
    let p = "_payload"@;
    let r = "_run"@;
    if c_symbols::payload_type(stem, a) == c_symbols::payload_type(stem, b) {
        assert((head + x + p).len() == (head + y + p).len());
        assert((head + x + p).subrange(head.len() as int, (head + x).len() as int) =~= x);
        assert((head + y + p).subrange(head.len() as int, (head + y).len() as int) =~= y);
    }
    if c_symbols::run_function(stem, a) == c_symbols::run_function(stem, b) {
        assert((head + x + r).len() == (head + y + r).len());
        assert((head + x + r).subrange(head.len() as int, (head + x).len() as int) =~= x);
        assert((head + y + r).subrange(head.len() as int, (head + y).len() as int) =~= y);
    }
}

/// The lines that declare the members of a slot.
pub open spec fn member_lines(members: Seq<MemberView>, indent: Seq<char>) -> Seq<Seq<char>> {
    Seq::new(members.len(), |i: int| indent + members[i].c_declaration + ";\n"@)
}

proof fn union_is_strung(out: Seq<char>, members: Seq<MemberView>, n: int)
    requires
        0 <= n <= members.len(),
    ensures
        c_task::union_members(out, members, n) == out + rewriting_laws::strung(
            member_lines(members, "        "@),
            n,
        ),
    decreases n,
{
    if n > 0 {
        union_is_strung(out, members, n - 1);
        let before = rewriting_laws::strung(member_lines(members, "        "@), n - 1);
        assert(out + before + "        "@ + members[n - 1].c_declaration + ";\n"@ =~= out + (before
            + member_lines(members, "        "@)[n - 1]));
    } else {
        assert(out + rewriting_laws::strung(member_lines(members, "        "@), 0) =~= out);
    }
}

/// A slot declares its members: one alone as it is, and several in a union with
/// the name of the slot, every one of them, in their order.
pub proof fn slots_declare_their_members(out: Seq<char>, slot: SlotView)
    ensures
        slot.kind == PhysicalSlotKind::Direct ==> c_task::slot_text(out, slot) == out + "    "@
            + slot.members[0].c_declaration + ";\n"@,
        slot.kind == PhysicalSlotKind::Union ==> c_task::slot_text(out, slot) == out
            + "    union {\n"@ + rewriting_laws::strung(
            member_lines(slot.members, "        "@),
            slot.members.len() as int,
        ) + "    } "@ + slot.c_name + ";\n"@,
{
    union_is_strung(out + "    union {\n"@, slot.members, slot.members.len() as int);
}

/// The task type of a function declares its slots one behind another, all of
/// them, in their order.
pub proof fn task_types_declare_their_slots(out: Seq<char>, slots: Seq<SlotView>, n: int)
    requires
        0 < n <= slots.len(),
    ensures
        c_task::slots_text(out, slots, 0) == out,
        c_task::slots_text(out, slots, n) == c_task::slot_text(
            c_task::slots_text(out, slots, n - 1),
            slots[n - 1],
        ),
        forall|name: Seq<char>| #[trigger]
            c_task::layout_text(out, name, slots) == c_task::slots_text(
                out + "typedef struct "@ + name + " "@ + name + ";\nstruct "@ + name + " {\n"@,
                slots,
                slots.len() as int,
            ) + "};\n\n"@,
{
}

/// A function that other units can call has all that they use it through: it can
/// be created and destroyed, read and awaited. One that is called in its own unit
/// only has what its callers need: it is created and destroyed if a caller keeps
/// it on the heap though its layout is visible, and read through functions if a
/// caller moved it there.
pub proof fn surfaces_serve_their_callers(out: Seq<char>, view: FunctionView, layout: LayoutView)
    ensures
        ({
            let coroutine = view.function.coroutine;
            let children = view.scene.children;
            let called = |i: int|
                children[i].target matches ChildTargetView::Static(callee) && callee.stem
                    == view.stem;
            let linkage = |i: int| (children[i].target->Static_0).linkage;
            let own = TaskView { layout, context: "task"@ };
            let state = TaskView {
                layout,
                context: "((const "@ + coroutine.task_type@ + " *)state)"@,
            };
            let heap = |o: Seq<char>|
                c_function_text::heap_api_text(
                    o,
                    view.stem,
                    coroutine.task_type@,
                    coroutine.init_name@,
                    coroutine.drop_name@,
                    c_task::create_parameters(coroutine),
                    c_task::parameter_names_text(
                        coroutine.cfg.parameters@,
                        coroutine.cfg.parameters@.len() as int,
                    ),
                );
            let read = |o: Seq<char>|
                c_function_text::accessors_text(
                    o,
                    own,
                    view.stem,
                    coroutine.task_type@,
                    text::trimmed(coroutine.cfg.return_type.text@),
                );
            let awaited = |o: Seq<char>|
                c_function_text::adapters_text(
                    o,
                    own,
                    state,
                    view.stem,
                    coroutine.task_type@,
                    coroutine.poll_name@,
                    coroutine.drop_name@,
                    text::trimmed(coroutine.cfg.return_type.text@),
                );
            let surface = c_task::surface_text(out, view, layout);
            &&& (forall|i: int|
                0 <= i < children.len() && called(i) ==> !(linkage(i) is Internal)
                    && #[trigger] children[i] == children[i]) ==> surface == awaited(
                read(heap(out)),
            )
            &&& forall|k: int|
                {
                    &&& 0 <= k < children.len()
                    &&& called(k)
                    &&& linkage(k) is Internal
                    &&& #[trigger] children[k] == children[k]
                    &&& forall|i: int|
                        0 <= i < children.len() && called(i) ==> !((
                        #[trigger] children[i]).effective_storage is Boxed)
                } ==> surface == out
        }),
{
    let children = view.scene.children;
    let stem = view.stem;
    if c_task::internal_stem(children, stem) {
        let i = choose|i: int|
            0 <= i < children.len() && c_task::calls_internal(#[trigger] children[i], stem);
        assert(children[i] == children[i]);
    }
    assert forall|k: int|
        {
            &&& 0 <= k < children.len()
            &&& (#[trigger] children[k]).target matches ChildTargetView::Static(callee)
            &&& callee.stem == stem
            &&& callee.linkage is Internal
        } implies c_task::internal_stem(children, stem) by {
        assert(c_task::calls_internal(children[k], stem));
    }
    if c_task::heap_stem(children, stem) {
        let i = choose|i: int|
            0 <= i < children.len() && c_task::calls_boxed(#[trigger] children[i], stem);
        assert(children[i].effective_storage is Boxed);
    }
    if c_task::accessor_stem(children, stem) {
        let i = choose|i: int|
            0 <= i < children.len() && c_task::calls_downgraded(#[trigger] children[i], stem);
        assert(children[i].effective_storage is Boxed);
    }
}

/// A poll enters the task, goes on where it stopped, and holds every block that
/// control can reach, each behind its label, in their order.
pub proof fn polls_hold_every_reachable_block(
    emitted: Emitted,
    view: FunctionView,
    task: TaskView,
    backend: CBackend,
    n: int,
)
    requires
        0 < n <= view.function.coroutine.cfg.blocks@.len(),
    ensures
        ({
            let coroutine = view.function.coroutine;
            let blocks = coroutine.cfg.blocks@;
            let head = c_meaning::written(
                emitted.out + "cr_poll_status "@ + coroutine.poll_name@ + "("@
                    + coroutine.task_type@ + " *"@ + task.context
                    + ", const cr_poll_context *poll_context) {\n"@,
                c_meaning::both(
                    task_laws::enter_code(task.context),
                    task_laws::resume_code(coroutine.states@, backend),
                ),
                task,
                "    "@,
            );
            let started = c_instruction::with_code(emitted, head);
            let upto = |k: int| c_terminator::blocks_text(started, view, k);
            let end = upto(blocks.len() as int);
            let poll = c_task::poll_text(emitted, view, task, backend);
            let block = blocks[n - 1];
            let labelled = c_instruction::with_code(
                upto(n - 1),
                upto(n - 1).out + "cr_b"@ + ending_laws::label(block.id) + ": ;\n"@,
            );
            &&& poll.problems == end.problems
            &&& poll.out == end.out + "}\n\n"@
            &&& upto(0) == started
            &&& upto(n) == if c_symbols::block_reached(coroutine.cfg, block.id) {
                c_terminator::terminator_text(
                    c_terminator::instructions_text(
                        labelled,
                        view,
                        block,
                        block.instructions@.len() as int,
                    ),
                    view,
                    block,
                )
            } else {
                upto(n - 1)
            }
        }),
{
    broadcast use c_meaning::written_then;

    let coroutine = view.function.coroutine;
    task_laws::poll_head_is_written(
        emitted.out,
        task,
        task.context,
        coroutine.poll_name@,
        coroutine.task_type@,
    );
    let head = c_function_text::poll_head_text(
        emitted.out,
        task,
        task.context,
        coroutine.poll_name@,
        coroutine.task_type@,
    );
    task_laws::dispatch_is_written(head, coroutine.states@, task, backend);
}

} // verus!
