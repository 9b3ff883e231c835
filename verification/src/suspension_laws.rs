//! What suspensions are written as, by what they wait for, and how the tasks
//! they wait for start.

use vstd::prelude::*;

use crate::await_plan::ChildOrigin;
use crate::awaitable_code;
use crate::awaitable_text_laws;
use crate::c_expression;
use crate::c_expression::SceneView;
use crate::c_instruction::{Emitted, FunctionView};
use crate::c_meaning;
use crate::c_meaning::{Called, Datum, Exit, Machine, Place, Run, World};
use crate::c_source;
use crate::c_source::TaskView;
use crate::c_static_plan::{CalleeView, ChildPlanView, ChildTargetView};
use crate::c_symbols;
use crate::c_terminator;
use crate::c_terminator::Suspension;
use crate::context_layout::LogicalFieldId;
use crate::control_flow::BasicBlock;
use crate::ending_laws;
use crate::semantic::{DeclarationId, HirExpr, ScopeId};
use crate::symbol_index::{AsyncParameter, LayoutVisibility};
use crate::text;
use crate::wait_code;
use crate::wait_code::Awaited;
use crate::wait_laws;
use crate::wait_text_laws;

verus! {

/// The variable for the status of a suspension.
pub open spec fn status_name(suspension: Suspension) -> Seq<char> {
    "cr_await_"@ + text::dec(suspension.slot.0 as nat) + "_status"@
}

/// Whether a task has a result.
pub open spec fn has_result(callee: CalleeView) -> bool {
    text::trimmed(callee.result_type) != "void"@
}

/// Whether what a task yields can be yielded by a function.
pub open spec fn passes_on(callee: CalleeView, view: FunctionView) -> bool {
    text::trimmed(callee.result_type) == text::trimmed(
        view.function.coroutine.cfg.return_type.text@,
    ) && has_result(callee)
}

/// Code that polls the task of a suspension and goes by its status, where the
/// block is the one that is polled again.
pub open spec fn follow_code(
    view: FunctionView,
    block: BasicBlock,
    suspension: Suspension,
    callee: CalleeView,
    child: Awaited,
) -> c_meaning::Statement {
    wait_code::wait_code(
        child,
        has_result(callee),
        passes_on(callee, view),
        suspension.slot,
        status_name(suspension),
        text::dec(c_terminator::state_of(view.function.coroutine, block.id)),
        ending_laws::label(suspension.target),
    )
}

/// Whether a suspension is planned to wait for a child of a function.
pub open spec fn planned(
    view: FunctionView,
    suspension: Suspension,
    child: ChildPlanView,
    callee: CalleeView,
) -> bool {
    &&& c_terminator::edge_child(view.plan, suspension.edge) == Some(child)
    &&& child.target == ChildTargetView::Static(callee)
}

/// A suspension on a child that was planned to live in the context starts the
/// child there and follows its status. It adds no error.
pub proof fn embedded_children_are_awaited(
    emitted: Emitted,
    view: FunctionView,
    block: BasicBlock,
    operand: HirExpr,
    suspension: Suspension,
    task: TaskView,
    child: ChildPlanView,
    callee: CalleeView,
)
    requires
        planned(view, suspension, child, callee),
        child.effective_storage is Embedded,
        child.origin is Direct,
        operand.kind is AsyncCall,
    ensures
        ({
            let after = c_terminator::suspend_text(emitted, view, block, operand, suspension, task);
            let awaited = wait_code::embedded_child(child.instance, callee.stem);
            let name = "cr_child_"@ + text::dec(child.effective_storage->Embedded_0.0 as nat)
                + "_arg_"@;
            let scopes = block.scope_stack@;
            let passed = c_terminator::start_arguments(view, scopes, operand, callee, name);
            &&& after.problems == emitted.problems
            &&& c_meaning::same(
                after.out,
                c_meaning::written(
                    emitted.out,
                    c_meaning::both(
                        wait_code::start_code(
                            view,
                            scopes,
                            operand,
                            callee,
                            name,
                            awaited,
                            wait_code::embedded_entry(awaited, passed),
                        ),
                        follow_code(view, block, suspension, callee, awaited),
                    ),
                    task,
                    "    "@,
                ),
            )
        }),
{
    broadcast use c_meaning::written_then;

    let awaited = wait_code::embedded_child(child.instance, callee.stem);
    let name = "cr_child_"@ + text::dec(child.effective_storage->Embedded_0.0 as nat) + "_arg_"@;
    let scopes = block.scope_stack@;
    let passed = c_terminator::start_arguments(view, scopes, operand, callee, name);
    wait_text_laws::embedded_wait_is_written(
        c_terminator::start_text(
            emitted.out,
            view,
            scopes,
            operand,
            callee,
            child.instance,
            name,
            task,
        ),
        task,
        callee.stem,
        text::trimmed(callee.result_type),
        c_terminator::returned_type(view),
        child.instance,
        suspension.slot,
        text::dec(suspension.slot.0 as nat),
        text::dec(c_terminator::state_of(view.function.coroutine, block.id)),
        text::dec(suspension.target.0 as nat),
        passed,
    );
    wait_text_laws::start_is_written(
        emitted.out,
        view,
        scopes,
        operand,
        callee,
        child.instance,
        name,
        task,
        awaited,
        wait_code::embedded_entry(awaited, passed),
    );
}

/// A suspension on a child that was planned to live on the heap creates the
/// child and follows its status. What the child holds is read through its
/// functions if its layout isn't visible or it was moved to the heap. It adds no
/// error.
pub proof fn boxed_children_are_awaited(
    emitted: Emitted,
    view: FunctionView,
    block: BasicBlock,
    operand: HirExpr,
    suspension: Suspension,
    task: TaskView,
    child: ChildPlanView,
    callee: CalleeView,
)
    requires
        planned(view, suspension, child, callee),
        child.effective_storage is Boxed,
        child.origin is Direct,
        operand.kind is AsyncCall,
    ensures
        ({
            let after = c_terminator::suspend_text(emitted, view, block, operand, suspension, task);
            let number = text::dec(child.effective_storage->Boxed_0.0 as nat);
            let awaited = wait_code::boxed_child(
                child.instance,
                callee.stem,
                callee.layout_visibility == LayoutVisibility::Opaque || child.downgrade_reason
                    is Some,
                "cr_boxed_"@ + number + "_error"@,
            );
            let name = "cr_boxed_"@ + number + "_arg_"@;
            let scopes = block.scope_stack@;
            let passed = c_terminator::start_arguments(view, scopes, operand, callee, name);
            &&& after.problems == emitted.problems
            &&& c_meaning::same(
                after.out,
                c_meaning::written(
                    emitted.out,
                    c_meaning::both(
                        wait_code::start_code(
                            view,
                            scopes,
                            operand,
                            callee,
                            name,
                            awaited,
                            wait_code::boxed_entry(
                                awaited,
                                passed,
                                "cr_boxed_"@ + number + "_create_error"@,
                            ),
                        ),
                        follow_code(view, block, suspension, callee, awaited),
                    ),
                    task,
                    "    "@,
                ),
            )
        }),
{
    broadcast use c_meaning::written_then;

    let number = text::dec(child.effective_storage->Boxed_0.0 as nat);
    let accessors = c_terminator::uses_accessors(callee, child);
    let awaited = wait_code::boxed_child(
        child.instance,
        callee.stem,
        accessors,
        "cr_boxed_"@ + number + "_error"@,
    );
    let name = "cr_boxed_"@ + number + "_arg_"@;
    let scopes = block.scope_stack@;
    let passed = c_terminator::start_arguments(view, scopes, operand, callee, name);
    wait_text_laws::boxed_wait_is_written(
        c_terminator::start_text(
            emitted.out,
            view,
            scopes,
            operand,
            callee,
            child.instance,
            name,
            task,
        ),
        task,
        callee.stem,
        text::trimmed(callee.result_type),
        c_terminator::returned_type(view),
        child.instance,
        suspension.slot,
        text::dec(suspension.slot.0 as nat),
        number,
        text::dec(c_terminator::state_of(view.function.coroutine, block.id)),
        text::dec(suspension.target.0 as nat),
        passed,
        accessors,
    );
    wait_text_laws::start_is_written(
        emitted.out,
        view,
        scopes,
        operand,
        callee,
        child.instance,
        name,
        task,
        awaited,
        wait_code::boxed_entry(awaited, passed, "cr_boxed_"@ + number + "_create_error"@),
    );
}

/// A suspension on a task that a lifted declaration has bound follows the
/// status of that task, once it is sure that it is there. It adds no error.
pub proof fn bound_tasks_are_awaited(
    emitted: Emitted,
    view: FunctionView,
    block: BasicBlock,
    operand: HirExpr,
    suspension: Suspension,
    task: TaskView,
    child: ChildPlanView,
    callee: CalleeView,
    declaration: DeclarationId,
)
    requires
        planned(view, suspension, child, callee),
        !(child.effective_storage is Opaque),
        child.origin == ChildOrigin::Binding(declaration),
        c_symbols::symbol_field(view.scene.fields, declaration) matches Some(field)
            && field.is_task,
    ensures
        ({
            let after = c_terminator::suspend_text(emitted, view, block, operand, suspension, task);
            let awaited = wait_code::bound_task(
                declaration,
                callee.stem,
                child.effective_storage is Embedded,
                child.effective_storage is Boxed && (callee.layout_visibility
                    == LayoutVisibility::Opaque || child.downgrade_reason is Some),
                "cr_binding_"@ + text::dec(declaration.0 as nat) + "_error"@,
            );
            &&& after.problems == emitted.problems
            &&& c_meaning::same(
                after.out,
                c_meaning::written(
                    emitted.out,
                    c_meaning::both(
                        wait_code::unless_active(LogicalFieldId::BindingActive(declaration)),
                        follow_code(view, block, suspension, callee, awaited),
                    ),
                    task,
                    "    "@,
                ),
            )
        }),
{
    broadcast use c_meaning::written_then;

    wait_text_laws::bound_wait_is_written(
        emitted.out,
        task,
        callee.stem,
        text::trimmed(callee.result_type),
        c_terminator::returned_type(view),
        declaration,
        suspension.slot,
        text::dec(suspension.slot.0 as nat),
        text::dec(declaration.0 as nat),
        text::dec(c_terminator::state_of(view.function.coroutine, block.id)),
        text::dec(suspension.target.0 as nat),
        child.effective_storage is Embedded,
        child.effective_storage is Boxed && c_terminator::uses_accessors(callee, child),
    );
}

/// A suspension without a planned child takes what the operand is worth as an
/// awaitable of any make, asks it to put its value into the slot of the
/// suspension if there is a value, and follows its answer. It owns the awaitable
/// unless the operand names a bound task. It adds no error.
pub proof fn other_awaitables_are_awaited(
    emitted: Emitted,
    view: FunctionView,
    block: BasicBlock,
    operand: HirExpr,
    suspension: Suspension,
    task: TaskView,
)
    requires
        match c_terminator::edge_child(view.plan, suspension.edge) {
            Some(child) => child.target is Dynamic,
            None => true,
        },
    ensures
        ({
            let after = c_terminator::suspend_text(emitted, view, block, operand, suspension, task);
            let slot = suspension.slot;
            let awaitable = c_source::path(task, LogicalFieldId::Awaitable(slot));
            let bound = match c_terminator::awaited_binding(operand, view.scene.fields) {
                Some(field) => Some(field.declaration),
                None => None,
            };
            let ty = c_terminator::awaited_type(view, slot);
            let returned = text::trimmed(view.function.coroutine.cfg.return_type.text@);
            let number = text::dec(slot.0 as nat);
            &&& after.problems == emitted.problems
            &&& c_meaning::same(
                after.out,
                c_meaning::written(
                    emitted.out,
                    c_meaning::both(
                        awaitable_code::take_code(
                            awaitable,
                            slot,
                            c_expression::expression_text(operand, block.scope_stack@, view.scene),
                            bound,
                            ty is Some && text::trimmed(ty->0) != "void"@,
                            if ty is Some {
                                text::trimmed(ty->0)
                            } else {
                                ""@
                            },
                        ),
                        c_meaning::both(
                            awaitable_code::prepare_code(
                                awaitable,
                                slot,
                                text::dec(
                                    c_terminator::state_of(view.function.coroutine, block.id),
                                ),
                                bound is None,
                            ),
                            c_meaning::both(
                                awaitable_code::ask_code(
                                    awaitable,
                                    status_name(suspension),
                                    if ty is Some {
                                        "&"@ + c_source::path(
                                            task,
                                            LogicalFieldId::AwaitResult(slot),
                                        )
                                    } else {
                                        "NULL"@
                                    },
                                ),
                                awaitable_code::answer_code(
                                    awaitable,
                                    slot,
                                    status_name(suspension),
                                    awaitable_code::error_name(number),
                                    ending_laws::label(suspension.target),
                                    bound is None,
                                    ty is Some && text::trimmed(ty->0) == returned && returned
                                        != "void"@,
                                ),
                            ),
                        ),
                    ),
                    task,
                    "    "@,
                ),
            )
        }),
{
    broadcast use c_meaning::written_then;

    let slot = suspension.slot;
    let binding = c_terminator::awaited_binding(operand, view.scene.fields);
    let shown = c_expression::expression_text(operand, block.scope_stack@, view.scene);
    awaitable_text_laws::taking_is_written(
        emitted.out,
        task,
        slot,
        shown,
        binding is Some,
        c_terminator::binding_declaration(binding),
        c_terminator::awaits_value(view, slot),
        c_terminator::expected_type(view, slot),
    );
    let taken = c_meaning::written(
        emitted.out,
        awaitable_code::take_code(
            awaitable_code::awaitable_text(task, slot),
            slot,
            shown,
            if binding is Some {
                Some(c_terminator::binding_declaration(binding))
            } else {
                None
            },
            c_terminator::awaits_value(view, slot),
            c_terminator::expected_type(view, slot),
        ),
        task,
        "    "@,
    );
    awaitable_text_laws::awaiting_is_written(
        taken,
        task,
        slot,
        text::dec(slot.0 as nat),
        text::dec(c_terminator::state_of(view.function.coroutine, block.id)),
        text::dec(suspension.target.0 as nat),
        c_terminator::result_pointer(view, slot, task),
        binding is None,
        c_terminator::yields_through(view, slot),
    );
}

/// Before a child starts, each of its arguments is worth what its expression is
/// worth: the temporary for every parameter holds the value of its argument. No
/// call is made, and nothing that the running task holds changes.
pub proof fn arguments_are_kept(
    name: Seq<char>,
    arguments: Seq<HirExpr>,
    parameters: Seq<AsyncParameter>,
    scopes: Seq<ScopeId>,
    scene: SceneView,
    n: int,
    machine: Machine,
    world: World,
)
    requires
        0 <= n <= arguments.len(),
    ensures
        ({
            let r = c_meaning::run(
                wait_code::argument_code(name, arguments, parameters, scopes, scene, n),
                machine,
                world,
            );
            &&& r.exit is Falls
            &&& r.machine.calls == machine.calls
            &&& forall|q: Place|
                !(q is Local) ==> #[trigger] (r.machine.memory)(q) == (machine.memory)(q)
            &&& forall|i: int|
                0 <= i < n && i < parameters.len() ==> (r.machine.memory)(
                    Place::Local(name + #[trigger] text::dec(i as nat)),
                ) == Datum::Text(c_expression::expression_text(arguments[i], scopes, scene))
        }),
    decreases n,
{
    broadcast use {c_meaning::run_then, c_meaning::run_nothing};

    if n > 0 {
        arguments_are_kept(name, arguments, parameters, scopes, scene, n - 1, machine, world);
        let last = name + text::dec((n - 1) as nat);
        assert forall|i: int| 0 <= i < n - 1 implies name + #[trigger] text::dec(i as nat) != last by {
            ending_laws::numerals_differ(i as nat, (n - 1) as nat);
            let a = name + text::dec(i as nat);
            if a == last {
                assert(a.skip(name.len() as int) =~= text::dec(i as nat));
                assert(last.skip(name.len() as int) =~= text::dec((n - 1) as nat));
            }
        }
    }
}

/// What is passed to a child: the temporary of each argument that has a
/// parameter, and the expressions of the others, in their order.
pub proof fn arguments_are_passed_in_order(
    name: Seq<char>,
    arguments: Seq<HirExpr>,
    parameters: Seq<AsyncParameter>,
    scopes: Seq<ScopeId>,
    scene: SceneView,
    n: int,
)
    requires
        0 <= n <= arguments.len(),
    ensures
        c_symbols::passed_arguments(name, arguments, parameters, scopes, scene, n)
            == c_meaning::listed(
            Seq::new(
                arguments.len(),
                |i: int|
                    if i < parameters.len() {
                        name + text::dec(i as nat)
                    } else {
                        c_expression::expression_text(arguments[i], scopes, scene)
                    },
            ),
            n,
        ),
    decreases n,
{
    if n > 0 {
        arguments_are_passed_in_order(name, arguments, parameters, scopes, scene, n - 1);
        if n == 1 {
            let one = c_symbols::passed_arguments(name, arguments, parameters, scopes, scene, 1);
            assert(c_symbols::passed_arguments(name, arguments, parameters, scopes, scene, 0)
                =~= Seq::<char>::empty());
            assert(one =~= if 0 < parameters.len() {
                name + text::dec(0)
            } else {
                c_expression::expression_text(arguments[0], scopes, scene)
            });
        }
    }
}

/// A child starts once. While it is active, starting it does nothing. Else an
/// embedded child is initialized in its place with its arguments, by one call,
/// and counts as active.
pub proof fn embedded_children_start_once(
    view: FunctionView,
    scopes: Seq<ScopeId>,
    operand: HirExpr,
    callee: CalleeView,
    name: Seq<char>,
    child: Awaited,
    arguments: Seq<char>,
    machine: Machine,
    world: World,
)
    requires
        wait_laws::apart(child),
        !child.pointed,
    ensures
        ({
            let r = c_meaning::run(
                wait_code::start_code(
                    view,
                    scopes,
                    operand,
                    callee,
                    name,
                    child,
                    wait_code::embedded_entry(child, arguments),
                ),
                machine,
                world,
            );
            let active = Place::Own(child.active);
            if (machine.memory)(active) == c_meaning::yes() {
                r == (Run { machine, exit: Exit::Falls })
            } else {
                &&& r.exit is Falls
                &&& (r.machine.memory)(active) == c_meaning::yes()
                &&& r.machine.calls == machine.calls.push(
                    Called {
                        function: child.stem + "_init"@,
                        subject: Datum::Pointer(Place::Own(child.holder)),
                        rest: if arguments == ""@ {
                            ""@
                        } else {
                            ", "@ + arguments
                        },
                    },
                )
            }
        }),
{
    broadcast use {c_meaning::run_then, c_meaning::run_nothing, c_meaning::run_if};

    let values = c_terminator::call_arguments(operand);
    arguments_are_kept(
        name,
        values,
        callee.parameters,
        scopes,
        view.scene,
        values.len() as int,
        machine,
        world,
    );
}

/// A child on the heap is created once. While it is active, starting it does
/// nothing. Else one call creates it with its arguments. If that gives nothing,
/// the running task fails with the error that came back, or with one of its own
/// if none did, its deferred calls made. Else the child is kept and counts as
/// active.
pub proof fn boxed_children_start_once(
    view: FunctionView,
    scopes: Seq<ScopeId>,
    operand: HirExpr,
    callee: CalleeView,
    name: Seq<char>,
    child: Awaited,
    arguments: Seq<char>,
    create_error: Seq<char>,
    machine: Machine,
    world: World,
)
    requires
        wait_laws::apart(child),
    ensures
        ({
            let r = c_meaning::run(
                wait_code::start_code(
                    view,
                    scopes,
                    operand,
                    callee,
                    name,
                    child,
                    wait_code::boxed_entry(child, arguments, create_error),
                ),
                machine,
                world,
            );
            let n = machine.calls.len();
            let created = (world.returned)(n);
            let found = (world.left)(n, Place::Local(create_error));
            let calls = machine.calls.push(
                Called {
                    function: child.stem + "_create"@,
                    subject: Datum::Pointer(Place::Local(create_error)),
                    rest: if arguments == ""@ {
                        ""@
                    } else {
                        arguments + ", "@
                    },
                },
            );
            if (machine.memory)(Place::Own(child.active)) == c_meaning::yes() {
                r == (Run { machine, exit: Exit::Falls })
            } else if created == Datum::Text("NULL"@) {
                &&& wait_laws::stopped(r, "CR_POLL_ERROR"@)
                &&& (r.machine.memory)(Place::Own(LogicalFieldId::Error)) == if found is Failure {
                    found
                } else {
                    Datum::Failure("1006"@, "async task allocation failed"@)
                }
                &&& r.machine.calls == wait_laws::cleaned(calls)
            } else {
                &&& r.exit is Falls
                &&& (r.machine.memory)(Place::Own(child.holder)) == created
                &&& (r.machine.memory)(Place::Own(child.active)) == c_meaning::yes()
                &&& r.machine.calls == calls
            }
        }),
{
    broadcast use {c_meaning::run_then, c_meaning::run_nothing, c_meaning::run_if};

    let values = c_terminator::call_arguments(operand);
    arguments_are_kept(
        name,
        values,
        callee.parameters,
        scopes,
        view.scene,
        values.len() as int,
        machine,
        world,
    );
    let m0 = c_meaning::run(
        wait_code::argument_code(
            name,
            values,
            callee.parameters,
            scopes,
            view.scene,
            values.len() as int,
        ),
        machine,
        world,
    ).machine;
    let m1 = c_meaning::run(wait_code::no_error(create_error), m0, world).machine;
    let m2 = c_meaning::run(
        c_meaning::Statement::Create(
            Place::Own(child.holder),
            child.stem + "_create"@,
            if arguments == ""@ {
                ""@
            } else {
                arguments + ", "@
            },
            create_error,
        ),
        m1,
        world,
    ).machine;
    let m3 = c_meaning::stored(
        m2,
        Place::Own(LogicalFieldId::Error),
        c_meaning::value_of(
            c_meaning::Value::Detailed(create_error, "1006"@, "async task allocation failed"@),
            m2,
        ),
    );
    wait_laws::giving_up_stops("CR_POLL_ERROR"@, m3, world);
}

/// Waiting for a child that is ready with a result leaves what the child holds
/// as its result, when the poll returns, in the slot of the suspension, and
/// control goes on with the block behind the suspension.
pub proof fn ready_children_hand_their_results_over(
    view: FunctionView,
    block: BasicBlock,
    suspension: Suspension,
    callee: CalleeView,
    child: Awaited,
    machine: Machine,
    world: World,
)
    requires
        wait_laws::apart(child),
        (world.returned)(machine.calls.len()) == Datum::Text("CR_POLL_READY"@),
    ensures
        ({
            let r = c_meaning::run(
                follow_code(view, block, suspension, callee, child),
                machine,
                world,
            );
            &&& r.exit == Exit::Jumps(ending_laws::label(suspension.target))
            &&& has_result(callee) ==> (r.machine.memory)(
                Place::Own(LogicalFieldId::AwaitResult(suspension.slot)),
            ) == (world.left)(
                machine.calls.len(),
                wait_code::member(child, LogicalFieldId::Result),
            )
        }),
{
    broadcast use c_meaning::run_then;

    let name = status_name(suspension);
    let state = text::dec(c_terminator::state_of(view.function.coroutine, block.id));
    wait_laws::polling_remembers_where_to_go_on(child, name, state, machine, world);
    let polled = c_meaning::run(wait_code::poll_code(child, name, state), machine, world).machine;
    wait_laws::statuses_are_followed(
        child,
        has_result(callee),
        passes_on(callee, view),
        suspension.slot,
        name,
        ending_laws::label(suspension.target),
        polled,
        world,
    );
}

} // verus!
