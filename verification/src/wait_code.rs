//! Generated C of suspensions, as statements: it starts the task that is waited
//! for, polls it, and goes by the status that comes back.

use vstd::prelude::*;

use crate::await_plan::ChildInstanceId;
use crate::c_expression;
use crate::c_expression::SceneView;
use crate::c_instruction::FunctionView;
use crate::c_meaning;
use crate::c_meaning::{Place, Statement, Test, Value};
use crate::c_static_plan::CalleeView;
use crate::c_terminator;
use crate::context_layout::LogicalFieldId;
use crate::context_types;
use crate::semantic::{AwaitSlotId, DeclarationId, HirExpr, ScopeId};
use crate::symbol_index::AsyncParameter;
use crate::text;

verus! {

/// The task that a suspension waits for.
pub struct Awaited {
    /// The field that holds the task or points to it.
    pub holder: LogicalFieldId,
    /// The field that tells whether the task has started.
    pub active: LogicalFieldId,
    /// What the names of the functions of the task start with.
    pub stem: Seq<char>,
    /// Whether the field points to the task.
    pub pointed: bool,
    /// Whether the task is read through its functions.
    pub accessors: bool,
    /// Whether the suspension ends the task.
    pub owned: bool,
    /// A variable for the error of the task.
    pub detail: Seq<char>,
    /// The message of an error without details.
    pub missing: Seq<char>,
}

/// A field of the task.
pub open spec fn member(task: Awaited, field: LogicalFieldId) -> Place {
    if task.pointed {
        Place::Behind(task.holder, field)
    } else {
        Place::Inside(task.holder, field)
    }
}

/// What a field of the task holds.
pub open spec fn read_member(task: Awaited, field: LogicalFieldId) -> Value {
    if task.accessors {
        Value::Through(task.stem, task.holder, field)
    } else {
        Value::Read(member(task, field))
    }
}

/// How the task is passed to its functions.
pub open spec fn handle(task: Awaited) -> Value {
    if task.pointed {
        Value::Read(Place::Own(task.holder))
    } else {
        Value::Address(Place::Own(task.holder))
    }
}

/// Code that ends the task, if the suspension does so.
pub open spec fn release(task: Awaited) -> Statement {
    let inactive = Statement::Store(Place::Own(task.active), Value::Text("false"@));
    if !task.owned {
        Statement::Nothing
    } else if task.pointed {
        c_meaning::both(
            Statement::Call(task.stem + "_destroy"@, handle(task), ""@),
            c_meaning::both(
                Statement::Store(Place::Own(task.holder), Value::Text("NULL"@)),
                inactive,
            ),
        )
    } else {
        c_meaning::both(Statement::Call(task.stem + "_drop"@, handle(task), ""@), inactive)
    }
}

/// Code that stores a status and returns it.
pub open spec fn end_with(status: Seq<char>) -> Statement {
    c_meaning::both(
        Statement::Store(Place::Own(LogicalFieldId::Status), Value::Text(status)),
        Statement::Return(Value::Read(Place::Own(LogicalFieldId::Status))),
    )
}

/// Code that makes all deferred calls.
pub open spec fn clean_up() -> Statement {
    Statement::Call(
        "cr_cleanup_run_all"@,
        Value::Address(Place::Own(LogicalFieldId::Cleanups)),
        ""@,
    )
}

/// Code that makes all deferred calls, stores a status and returns it.
pub open spec fn give_up(status: Seq<char>) -> Statement {
    c_meaning::both(clean_up(), end_with(status))
}

/// Code that ends the running task with an error.
pub open spec fn fail(code: Seq<char>, message: Seq<char>) -> Statement {
    c_meaning::both(
        Statement::Store(Place::Own(LogicalFieldId::Error), Value::Failure(code, message)),
        give_up("CR_POLL_ERROR"@),
    )
}

/// The condition that a variable is a status.
pub open spec fn polled(name: Seq<char>, status: Seq<char>) -> Test {
    Test::Is(Value::Read(Place::Local(name)), status)
}

/// Code that takes the error of the task.
pub open spec fn take_error(task: Awaited) -> Statement {
    if task.accessors {
        c_meaning::both(
            Statement::Declare(
                "const cr_error *"@ + task.detail,
                task.detail,
                Value::Found(task.stem, task.holder, LogicalFieldId::Error),
            ),
            Statement::Store(
                Place::Own(LogicalFieldId::Error),
                Value::Pointed(task.detail, "CR_ERROR_MISSING_CHILD_ERROR"@, task.missing),
            ),
        )
    } else {
        Statement::Store(
            Place::Own(LogicalFieldId::Error),
            read_member(task, LogicalFieldId::Error),
        )
    }
}

/// What is done when the task is ready.
pub open spec fn ready_code(task: Awaited, valued: bool, slot: AwaitSlotId, target: Seq<char>) -> Statement {
    let end = c_meaning::both(release(task), Statement::Jump(target));
    if valued {
        c_meaning::both(
            Statement::Store(
                Place::Own(LogicalFieldId::AwaitResult(slot)),
                read_member(task, LogicalFieldId::Result),
            ),
            end,
        )
    } else {
        end
    }
}

/// What is done when the task has failed.
pub open spec fn error_code(task: Awaited) -> Statement {
    c_meaning::both(
        take_error(task),
        c_meaning::both(release(task), give_up("CR_POLL_ERROR"@)),
    )
}

/// What is done when the task was canceled.
pub open spec fn canceled_code(task: Awaited) -> Statement {
    c_meaning::both(release(task), give_up("CR_POLL_CANCELED"@))
}

/// What is done when the task has yielded.
pub open spec fn yielded_code(task: Awaited, yields: bool) -> Statement {
    if yields {
        c_meaning::both(
            Statement::Store(
                Place::Own(LogicalFieldId::Yielded),
                read_member(task, LogicalFieldId::Yielded),
            ),
            end_with("CR_POLL_YIELDED"@),
        )
    } else {
        c_meaning::both(
            release(task),
            fail("1005"@, "yielded awaitable has an incompatible value type"@),
        )
    }
}

/// What is done with a status that no task has.
pub open spec fn unknown_code(task: Awaited) -> Statement {
    c_meaning::both(release(task), fail("1106"@, "invalid awaitable poll status"@))
}

/// What is done with the status of the task.
pub open spec fn status_code(
    task: Awaited,
    valued: bool,
    yields: bool,
    slot: AwaitSlotId,
    name: Seq<char>,
    target: Seq<char>,
) -> Statement {
    c_meaning::both(
        Statement::ReturnIf(polled(name, "CR_POLL_PENDING"@), Value::Read(Place::Local(name))),
        c_meaning::both(
            c_meaning::when(polled(name, "CR_POLL_READY"@), ready_code(task, valued, slot, target)),
            c_meaning::both(
                c_meaning::when(polled(name, "CR_POLL_ERROR"@), error_code(task)),
                c_meaning::both(
                    c_meaning::when(polled(name, "CR_POLL_CANCELED"@), canceled_code(task)),
                    c_meaning::both(
                        c_meaning::when(
                            polled(name, "CR_POLL_YIELDED"@),
                            yielded_code(task, yields),
                        ),
                        unknown_code(task),
                    ),
                ),
            ),
        ),
    )
}

/// Code that notes that the task has started.
pub open spec fn started(task: Awaited) -> Statement {
    Statement::Store(Place::Own(task.active), Value::Text("true"@))
}

/// Code that declares a place for an error.
pub open spec fn no_error(name: Seq<char>) -> Statement {
    Statement::Declare("cr_error "@ + name, name, Value::Text("{0, NULL}"@))
}

/// Code that ends the running task if another could not be created.
pub open spec fn unless_created(task: Awaited, name: Seq<char>) -> Statement {
    c_meaning::when(
        Test::Is(Value::Read(Place::Own(task.holder)), "NULL"@),
        c_meaning::both(
            Statement::Store(
                Place::Own(LogicalFieldId::Error),
                Value::Detailed(name, "1006"@, "async task allocation failed"@),
            ),
            give_up("CR_POLL_ERROR"@),
        ),
    )
}

/// Code that ends the running task if a bound task isn't there.
pub open spec fn unless_active(active: LogicalFieldId) -> Statement {
    c_meaning::when(
        Test::Not(Value::Read(Place::Own(active))),
        fail("1109"@, "inactive task binding"@),
    )
}

/// A child that lives in the context of the task that waits for it.
pub open spec fn embedded_child(instance: ChildInstanceId, stem: Seq<char>) -> Awaited {
    Awaited {
        holder: LogicalFieldId::DirectChildPayload(instance),
        active: LogicalFieldId::DirectChildActive(instance),
        stem,
        pointed: false,
        accessors: false,
        owned: true,
        detail: ""@,
        missing: ""@,
    }
}

/// A child on the heap.
pub open spec fn boxed_child(
    instance: ChildInstanceId,
    stem: Seq<char>,
    accessors: bool,
    detail: Seq<char>,
) -> Awaited {
    Awaited {
        holder: LogicalFieldId::DirectChildPayload(instance),
        active: LogicalFieldId::DirectChildActive(instance),
        stem,
        pointed: true,
        accessors,
        owned: true,
        detail,
        missing: "boxed child error without details"@,
    }
}

/// A task that a declaration has bound.
pub open spec fn bound_task(
    declaration: DeclarationId,
    stem: Seq<char>,
    embedded: bool,
    accessors: bool,
    detail: Seq<char>,
) -> Awaited {
    Awaited {
        holder: LogicalFieldId::Lifted(declaration),
        active: LogicalFieldId::BindingActive(declaration),
        stem,
        pointed: !embedded,
        accessors,
        owned: false,
        detail,
        missing: "boxed binding error without details"@,
    }
}

/// Code that remembers where to go on and polls the task.
pub open spec fn poll_code(task: Awaited, name: Seq<char>, state: Seq<char>) -> Statement {
    c_meaning::both(
        Statement::Store(Place::Own(LogicalFieldId::State), Value::Text(state + "u"@)),
        Statement::Result(
            "cr_poll_status "@ + name,
            name,
            task.stem + "_poll"@,
            handle(task),
            ", poll_context"@,
        ),
    )
}

/// The temporaries for the first `n` arguments of a call.
pub open spec fn argument_code(
    name: Seq<char>,
    arguments: Seq<HirExpr>,
    parameters: Seq<AsyncParameter>,
    scopes: Seq<ScopeId>,
    scene: SceneView,
    n: int,
) -> Statement
    decreases n,
{
    if n <= 0 {
        Statement::Nothing
    } else if n - 1 < parameters.len() {
        c_meaning::both(
            argument_code(name, arguments, parameters, scopes, scene, n - 1),
            Statement::Declare(
                context_types::declarator(
                    text::trimmed(parameters[n - 1].adjusted_type@),
                    name + text::dec((n - 1) as nat),
                ),
                name + text::dec((n - 1) as nat),
                Value::Text(c_expression::expression_text(arguments[n - 1], scopes, scene)),
            ),
        )
    } else {
        argument_code(name, arguments, parameters, scopes, scene, n - 1)
    }
}

/// Code that starts a child unless it has started: its arguments first.
pub open spec fn start_code(
    view: FunctionView,
    scopes: Seq<ScopeId>,
    operand: HirExpr,
    callee: CalleeView,
    name: Seq<char>,
    child: Awaited,
    entry: Statement,
) -> Statement {
    let arguments = c_terminator::call_arguments(operand);
    c_meaning::when(
        Test::Not(Value::Read(Place::Own(child.active))),
        c_meaning::both(
            argument_code(
                name,
                arguments,
                callee.parameters,
                scopes,
                view.scene,
                arguments.len() as int,
            ),
            entry,
        ),
    )
}

/// Code that starts an embedded child.
pub open spec fn embedded_entry(child: Awaited, arguments: Seq<char>) -> Statement {
    c_meaning::both(
        Statement::Call(
            child.stem + "_init"@,
            handle(child),
            if arguments == ""@ {
                ""@
            } else {
                ", "@ + arguments
            },
        ),
        started(child),
    )
}

/// Code that creates a child on the heap.
pub open spec fn boxed_entry(
    child: Awaited,
    arguments: Seq<char>,
    create_error: Seq<char>,
) -> Statement {
    c_meaning::both(
        no_error(create_error),
        c_meaning::both(
            Statement::Create(
                Place::Own(child.holder),
                child.stem + "_create"@,
                if arguments == ""@ {
                    ""@
                } else {
                    arguments + ", "@
                },
                create_error,
            ),
            c_meaning::both(unless_created(child, create_error), started(child)),
        ),
    )
}

/// Code that polls a task and goes by its status.
pub open spec fn wait_code(
    child: Awaited,
    valued: bool,
    yields: bool,
    slot: AwaitSlotId,
    name: Seq<char>,
    state: Seq<char>,
    target: Seq<char>,
) -> Statement {
    c_meaning::both(
        poll_code(child, name, state),
        status_code(child, valued, yields, slot, name, target),
    )
}

} // verus!
