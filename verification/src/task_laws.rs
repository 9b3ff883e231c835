//! What setting up, polling and dropping a task does when it runs.

use vstd::prelude::*;

use crate::await_plan::{ChildInstanceId, ChildOrigin};
use crate::awaitable_code;
use crate::awaitable_laws;
use crate::c_function_text;
use crate::c_instruction::FunctionView;
use crate::c_meaning;
use crate::c_meaning::{Called, Datum, Exit, Machine, Place, Run, Statement, Test, Value, World};
use crate::c_runtime_text;
use crate::c_source;
use crate::c_source::TaskView;
use crate::c_static_plan::{ChildPlanView, ChildTargetView};
use crate::c_symbols;
use crate::c_task;
use crate::c_task::CBackend;
use crate::context_layout::LogicalFieldId;
use crate::control_flow::CfgParameter;
use crate::coroutine::{CoroutineAwaitSlot, CoroutineState};
use crate::ending_laws;
use crate::identity_layout;
use crate::instruction_laws;
use crate::liveness::{LiftedField, LivenessFunction};
use crate::semantic::AwaitSlotId;
use crate::text;
use crate::wait_code;
use crate::wait_code::Awaited;
use crate::wait_laws;

verus! {

/// The status of the running task.
pub open spec fn status() -> Value {
    Value::Read(Place::Own(LogicalFieldId::Status))
}

/// Code that sets up what every task has.
pub open spec fn reset_code(context: Seq<char>) -> Statement {
    c_meaning::both(
        Statement::Call("memset"@, Value::Text(context), ", 0, sizeof(*"@ + context + ")"@),
        c_meaning::both(
            Statement::Store(Place::Own(LogicalFieldId::State), Value::Text("0"@)),
            c_meaning::both(
                Statement::Store(
                    Place::Own(LogicalFieldId::Status),
                    Value::Text("CR_POLL_PENDING"@),
                ),
                Statement::Call(
                    "cr_cleanup_stack_init"@,
                    Value::Address(Place::Own(LogicalFieldId::Cleanups)),
                    ""@,
                ),
            ),
        ),
    )
}

/// Code that keeps the first `n` parameters that are lifted.
pub open spec fn keep_code(
    fields: Seq<LiftedField>,
    parameters: Seq<CfgParameter>,
    n: int,
) -> Statement
    decreases n,
{
    if n <= 0 {
        Statement::Nothing
    } else if exists|i: int|
        0 <= i < fields.len() && (#[trigger] fields[i]).declaration == parameters[n - 1].id {
        c_meaning::both(
            keep_code(fields, parameters, n - 1),
            Statement::Store(
                Place::Own(LogicalFieldId::Lifted(parameters[n - 1].id)),
                Value::Text(parameters[n - 1].name@),
            ),
        )
    } else {
        keep_code(fields, parameters, n - 1)
    }
}

/// The condition that the context of a poll is no valid one.
pub open spec fn bad_context() -> Test {
    Test::Source("poll_context != NULL && (poll_context->abi_version < CR_POLL_CONTEXT_ABI_VERSION || poll_context->struct_size < CR_POLL_CONTEXT_V1_MIN_SIZE || ((poll_context->available_capabilities & CR_POLL_CAP_WAKER) != 0u && poll_context->waker == NULL))"@)
}

/// The condition that a task has a status.
pub open spec fn in_status(name: Seq<char>) -> Test {
    Test::Is(status(), name)
}

/// Code that a poll starts with: a task that has ended stays as it is, a poll
/// needs a valid context, and a task that has yielded goes on.
pub open spec fn enter_code(context: Seq<char>) -> Statement {
    c_meaning::both(
        Statement::ReturnIf(
            Test::Is(Value::Read(Place::Local(context)), "NULL"@),
            Value::Text("CR_POLL_ERROR"@),
        ),
        c_meaning::both(
            Statement::ReturnIf(
                Test::Either(
                    Box::new(
                        Test::Either(
                            Box::new(in_status("CR_POLL_READY"@)),
                            Box::new(in_status("CR_POLL_ERROR"@)),
                        ),
                    ),
                    Box::new(in_status("CR_POLL_CANCELED"@)),
                ),
                status(),
            ),
            c_meaning::both(
                c_meaning::when(
                    bad_context(),
                    wait_code::fail("CR_ERROR_INVALID_POLL_CONTEXT"@, "invalid poll context"@),
                ),
                Statement::StoreIf(
                    in_status("CR_POLL_YIELDED"@),
                    Place::Own(LogicalFieldId::Status),
                    Value::Text("CR_POLL_PENDING"@),
                ),
            ),
        ),
    )
}

/// Code for a state that a task can't be in.
pub open spec fn lost_code() -> Statement {
    c_meaning::both(
        Statement::Store(
            Place::Own(LogicalFieldId::Error),
            Value::Failure("1001"@, "invalid coroutine state"@),
        ),
        wait_code::end_with("CR_POLL_ERROR"@),
    )
}

/// Code that goes on where a task stopped.
pub open spec fn resume_code(states: Seq<CoroutineState>, backend: CBackend) -> Statement {
    match backend {
        CBackend::Portable => Statement::Resume(
            Seq::new(
                states.len(),
                |i: int| (states[i].state as nat, ending_laws::label(states[i].block)),
            ),
            Box::new(lost_code()),
        ),
        CBackend::ComputedGoto => Statement::Index(
            Seq::new(states.len(), |i: int| ending_laws::label(states[i].block)),
            Box::new(lost_code()),
        ),
    }
}

/// Code that ends a directly awaited child if it is active.
pub open spec fn end_child_code(child: Awaited) -> Statement {
    c_meaning::when(
        Test::Holds(Value::Read(Place::Own(child.active))),
        wait_code::release(child),
    )
}

/// Code that gives up the awaitable of a slot if it is active.
pub open spec fn end_slot_code(task: TaskView, slot: AwaitSlotId, bound: bool) -> Statement {
    c_meaning::when(
        Test::Holds(Value::Read(Place::Own(LogicalFieldId::AwaitableActive(slot)))),
        awaitable_code::let_go(
            c_source::path(task, LogicalFieldId::Awaitable(slot)),
            slot,
            !bound,
        ),
    )
}

/// Code that a drop ends with: the deferred calls are made, and a task that has
/// neither finished nor failed is canceled.
pub open spec fn close_code() -> Statement {
    c_meaning::both(
        Statement::Call(
            "cr_cleanup_stack_destroy"@,
            Value::Address(Place::Own(LogicalFieldId::Cleanups)),
            ""@,
        ),
        Statement::StoreIf(
            Test::Both(
                Box::new(Test::Isnt(status(), "CR_POLL_READY"@)),
                Box::new(Test::Isnt(status(), "CR_POLL_ERROR"@)),
            ),
            Place::Own(LogicalFieldId::Status),
            Value::Text("CR_POLL_CANCELED"@),
        ),
    )
}

/// How the fixed parts of the C are made up.
proof fn task_literals()
    ensures
        "    memset("@ == "    "@ + "memset"@ + "("@,
        "));\n    "@ == ")"@ + ")"@ + ";\n"@ + "    "@,
        " = 0;\n    "@ == " = "@ + "0"@ + ";\n"@ + "    "@,
        " = CR_POLL_PENDING;\n"@ == " = "@ + "CR_POLL_PENDING"@ + ";\n"@,
        "    cr_cleanup_stack_init(&"@ == "    "@ + "cr_cleanup_stack_init"@ + "("@ + "&"@,
        ");\n"@ == ")"@ + ";\n"@,
        ", const cr_poll_context *poll_context) {\n    if ("@ == ", const cr_poll_context *poll_context) {\n"@ + "    "@ + "if ("@,
        " == NULL) return CR_POLL_ERROR;\n"@ == " == "@ + "NULL"@ + ") return "@ + "CR_POLL_ERROR"@ + ";\n"@,
        "    if ("@ == "    "@ + "if ("@,
        " == CR_POLL_READY || "@ == " == "@ + "CR_POLL_READY"@ + " || "@,
        " == CR_POLL_ERROR || "@ == " == "@ + "CR_POLL_ERROR"@ + " || "@,
        " == CR_POLL_CANCELED) return "@ == " == "@ + "CR_POLL_CANCELED"@ + ") return "@,
        " = (cr_error){CR_ERROR_INVALID_POLL_CONTEXT, \"invalid poll context\"};\n        cr_cleanup_run_all(&"@ == " = "@ + "(cr_error){"@ + "CR_ERROR_INVALID_POLL_CONTEXT"@ + ", \""@ + "invalid poll context"@ + "\"}"@ + ";\n"@ + "        "@ + "cr_cleanup_run_all"@ + "("@ + "&"@,
        ");\n        "@ == ")"@ + ";\n"@ + "        "@,
        " = CR_POLL_ERROR;\n        return "@ == " = "@ + "CR_POLL_ERROR"@ + ";\n"@ + "        "@ + "return "@,
        ";\n    }\n"@ == ";\n"@ + "    "@ + "}\n"@,
        " == CR_POLL_YIELDED) "@ == " == "@ + "CR_POLL_YIELDED"@ + ") "@,
        "    static void *const cr_dispatch[] = {"@ == "    "@ + "static void *const cr_dispatch[] = {"@,
        "};\n    if ("@ == "};\n"@ + "    "@ + "if ("@,
        "    }\n    goto *cr_dispatch["@ == "    "@ + "}\n"@ + "    "@ + "goto *cr_dispatch["@,
        ") {\n    if ("@ == ") {\n"@ + "    "@ + "if ("@,
        " == NULL) return;\n"@ == " == "@ + "NULL"@ + ") return;\n"@,
        "_drop(&"@ == "_drop"@ + "("@ + "&"@,
        "_destroy("@ == "_destroy"@ + "("@,
        " = NULL;\n"@ == " = "@ + "NULL"@ + ";\n"@,
        " = false;\n    }\n"@ == " = "@ + "false"@ + ";\n"@ + "    "@ + "}\n"@,
        "        if ("@ == "        "@ + "if ("@,
        ".vtable != NULL && "@ == ".vtable"@ + " != "@ + "NULL"@ + " && "@,
        ".vtable->drop != NULL) "@ == ".vtable->"@ + "drop"@ + " != "@ + "NULL"@ + ") "@,
        ".vtable->drop("@ == ".vtable->drop"@ + "("@,
        ".state);\n"@ == ".state"@ + ")"@ + ";\n"@,
        "    cr_cleanup_stack_destroy(&"@ == "    "@ + "cr_cleanup_stack_destroy"@ + "("@ + "&"@,
        ");\n    if ("@ == ")"@ + ";\n"@ + "    "@ + "if ("@,
        " != CR_POLL_READY && "@ == " != "@ + "CR_POLL_READY"@ + " && "@,
        " != CR_POLL_ERROR) "@ == " != "@ + "CR_POLL_ERROR"@ + ") "@,
        " = CR_POLL_CANCELED;\n}\n\n"@ == " = "@ + "CR_POLL_CANCELED"@ + ";\n"@ + "}\n\n"@,
        " = (cr_error){1001, \"invalid coroutine state\"};\n        "@ == " = "@ + "(cr_error){"@ + "1001"@ + ", \""@ + "invalid coroutine state"@ + "\"}"@ + ";\n"@ + "        "@,
        "    switch ("@ == "    "@ + "switch ("@,
        "    default:\n"@ == "    "@ + "default:\n"@,
        "    }\n"@ == "    "@ + "}\n"@,
        "    if (poll_context != NULL && (poll_context->abi_version < CR_POLL_CONTEXT_ABI_VERSION || poll_context->struct_size < CR_POLL_CONTEXT_V1_MIN_SIZE || ((poll_context->available_capabilities & CR_POLL_CAP_WAKER) != 0u && poll_context->waker == NULL))) {\n"@ == "    "@ + "if ("@ + "poll_context != NULL && (poll_context->abi_version < CR_POLL_CONTEXT_ABI_VERSION || poll_context->struct_size < CR_POLL_CONTEXT_V1_MIN_SIZE || ((poll_context->available_capabilities & CR_POLL_CAP_WAKER) != 0u && poll_context->waker == NULL))"@ + ") {\n"@,
{
    assert("    memset("@ =~= "    "@ + "memset"@ + "("@) by {
        reveal_strlit("    memset(");
        reveal_strlit("    ");
        reveal_strlit("memset");
        reveal_strlit("(");
    }
    assert("));\n    "@ =~= ")"@ + ")"@ + ";\n"@ + "    "@) by {
        reveal_strlit("));\n    ");
        reveal_strlit(")");
        reveal_strlit(";\n");
        reveal_strlit("    ");
    }
    assert(" = 0;\n    "@ =~= " = "@ + "0"@ + ";\n"@ + "    "@) by {
        reveal_strlit(" = 0;\n    ");
        reveal_strlit(" = ");
        reveal_strlit("0");
        reveal_strlit(";\n");
        reveal_strlit("    ");
    }
    assert(" = CR_POLL_PENDING;\n"@ =~= " = "@ + "CR_POLL_PENDING"@ + ";\n"@) by {
        reveal_strlit(" = CR_POLL_PENDING;\n");
        reveal_strlit(" = ");
        reveal_strlit("CR_POLL_PENDING");
        reveal_strlit(";\n");
    }
    assert("    cr_cleanup_stack_init(&"@ =~= "    "@ + "cr_cleanup_stack_init"@ + "("@ + "&"@) by {
        reveal_strlit("    cr_cleanup_stack_init(&");
        reveal_strlit("    ");
        reveal_strlit("cr_cleanup_stack_init");
        reveal_strlit("(");
        reveal_strlit("&");
    }
    assert(");\n"@ =~= ")"@ + ";\n"@) by {
        reveal_strlit(");\n");
        reveal_strlit(")");
        reveal_strlit(";\n");
    }
    assert(", const cr_poll_context *poll_context) {\n    if ("@ =~= ", const cr_poll_context *poll_context) {\n"@ + "    "@ + "if ("@) by {
        reveal_strlit(", const cr_poll_context *poll_context) {\n    if (");
        reveal_strlit(", const cr_poll_context *poll_context) {\n");
        reveal_strlit("    ");
        reveal_strlit("if (");
    }
    assert(" == NULL) return CR_POLL_ERROR;\n"@ =~= " == "@ + "NULL"@ + ") return "@ + "CR_POLL_ERROR"@ + ";\n"@) by {
        reveal_strlit(" == NULL) return CR_POLL_ERROR;\n");
        reveal_strlit(" == ");
        reveal_strlit("NULL");
        reveal_strlit(") return ");
        reveal_strlit("CR_POLL_ERROR");
        reveal_strlit(";\n");
    }
    assert("    if ("@ =~= "    "@ + "if ("@) by {
        reveal_strlit("    if (");
        reveal_strlit("    ");
        reveal_strlit("if (");
    }
    assert(" == CR_POLL_READY || "@ =~= " == "@ + "CR_POLL_READY"@ + " || "@) by {
        reveal_strlit(" == CR_POLL_READY || ");
        reveal_strlit(" == ");
        reveal_strlit("CR_POLL_READY");
        reveal_strlit(" || ");
    }
    assert(" == CR_POLL_ERROR || "@ =~= " == "@ + "CR_POLL_ERROR"@ + " || "@) by {
        reveal_strlit(" == CR_POLL_ERROR || ");
        reveal_strlit(" == ");
        reveal_strlit("CR_POLL_ERROR");
        reveal_strlit(" || ");
    }
    assert(" == CR_POLL_CANCELED) return "@ =~= " == "@ + "CR_POLL_CANCELED"@ + ") return "@) by {
        reveal_strlit(" == CR_POLL_CANCELED) return ");
        reveal_strlit(" == ");
        reveal_strlit("CR_POLL_CANCELED");
        reveal_strlit(") return ");
    }
    assert(" = (cr_error){CR_ERROR_INVALID_POLL_CONTEXT, \"invalid poll context\"};\n        cr_cleanup_run_all(&"@ =~= " = "@ + "(cr_error){"@ + "CR_ERROR_INVALID_POLL_CONTEXT"@ + ", \""@ + "invalid poll context"@ + "\"}"@ + ";\n"@ + "        "@ + "cr_cleanup_run_all"@ + "("@ + "&"@) by {
        reveal_strlit(" = (cr_error){CR_ERROR_INVALID_POLL_CONTEXT, \"invalid poll context\"};\n        cr_cleanup_run_all(&");
        reveal_strlit(" = ");
        reveal_strlit("(cr_error){");
        reveal_strlit("CR_ERROR_INVALID_POLL_CONTEXT");
        reveal_strlit(", \"");
        reveal_strlit("invalid poll context");
        reveal_strlit("\"}");
        reveal_strlit(";\n");
        reveal_strlit("        ");
        reveal_strlit("cr_cleanup_run_all");
        reveal_strlit("(");
        reveal_strlit("&");
    }
    assert(");\n        "@ =~= ")"@ + ";\n"@ + "        "@) by {
        reveal_strlit(");\n        ");
        reveal_strlit(")");
        reveal_strlit(";\n");
        reveal_strlit("        ");
    }
    assert(" = CR_POLL_ERROR;\n        return "@ =~= " = "@ + "CR_POLL_ERROR"@ + ";\n"@ + "        "@ + "return "@) by {
        reveal_strlit(" = CR_POLL_ERROR;\n        return ");
        reveal_strlit(" = ");
        reveal_strlit("CR_POLL_ERROR");
        reveal_strlit(";\n");
        reveal_strlit("        ");
        reveal_strlit("return ");
    }
    assert(";\n    }\n"@ =~= ";\n"@ + "    "@ + "}\n"@) by {
        reveal_strlit(";\n    }\n");
        reveal_strlit(";\n");
        reveal_strlit("    ");
        reveal_strlit("}\n");
    }
    assert(" == CR_POLL_YIELDED) "@ =~= " == "@ + "CR_POLL_YIELDED"@ + ") "@) by {
        reveal_strlit(" == CR_POLL_YIELDED) ");
        reveal_strlit(" == ");
        reveal_strlit("CR_POLL_YIELDED");
        reveal_strlit(") ");
    }
    assert("    static void *const cr_dispatch[] = {"@ =~= "    "@ + "static void *const cr_dispatch[] = {"@) by {
        reveal_strlit("    static void *const cr_dispatch[] = {");
        reveal_strlit("    ");
        reveal_strlit("static void *const cr_dispatch[] = {");
    }
    assert("};\n    if ("@ =~= "};\n"@ + "    "@ + "if ("@) by {
        reveal_strlit("};\n    if (");
        reveal_strlit("};\n");
        reveal_strlit("    ");
        reveal_strlit("if (");
    }
    assert("    }\n    goto *cr_dispatch["@ =~= "    "@ + "}\n"@ + "    "@ + "goto *cr_dispatch["@) by {
        reveal_strlit("    }\n    goto *cr_dispatch[");
        reveal_strlit("    ");
        reveal_strlit("}\n");
        reveal_strlit("goto *cr_dispatch[");
    }
    assert(") {\n    if ("@ =~= ") {\n"@ + "    "@ + "if ("@) by {
        reveal_strlit(") {\n    if (");
        reveal_strlit(") {\n");
        reveal_strlit("    ");
        reveal_strlit("if (");
    }
    assert(" == NULL) return;\n"@ =~= " == "@ + "NULL"@ + ") return;\n"@) by {
        reveal_strlit(" == NULL) return;\n");
        reveal_strlit(" == ");
        reveal_strlit("NULL");
        reveal_strlit(") return;\n");
    }
    assert("_drop(&"@ =~= "_drop"@ + "("@ + "&"@) by {
        reveal_strlit("_drop(&");
        reveal_strlit("_drop");
        reveal_strlit("(");
        reveal_strlit("&");
    }
    assert("_destroy("@ =~= "_destroy"@ + "("@) by {
        reveal_strlit("_destroy(");
        reveal_strlit("_destroy");
        reveal_strlit("(");
    }
    assert(" = NULL;\n"@ =~= " = "@ + "NULL"@ + ";\n"@) by {
        reveal_strlit(" = NULL;\n");
        reveal_strlit(" = ");
        reveal_strlit("NULL");
        reveal_strlit(";\n");
    }
    assert(" = false;\n    }\n"@ =~= " = "@ + "false"@ + ";\n"@ + "    "@ + "}\n"@) by {
        reveal_strlit(" = false;\n    }\n");
        reveal_strlit(" = ");
        reveal_strlit("false");
        reveal_strlit(";\n");
        reveal_strlit("    ");
        reveal_strlit("}\n");
    }
    assert("        if ("@ =~= "        "@ + "if ("@) by {
        reveal_strlit("        if (");
        reveal_strlit("        ");
        reveal_strlit("if (");
    }
    assert(".vtable != NULL && "@ =~= ".vtable"@ + " != "@ + "NULL"@ + " && "@) by {
        reveal_strlit(".vtable != NULL && ");
        reveal_strlit(".vtable");
        reveal_strlit(" != ");
        reveal_strlit("NULL");
        reveal_strlit(" && ");
    }
    assert(".vtable->drop != NULL) "@ =~= ".vtable->"@ + "drop"@ + " != "@ + "NULL"@ + ") "@) by {
        reveal_strlit(".vtable->drop != NULL) ");
        reveal_strlit(".vtable->");
        reveal_strlit("drop");
        reveal_strlit(" != ");
        reveal_strlit("NULL");
        reveal_strlit(") ");
    }
    assert(".vtable->drop("@ =~= ".vtable->drop"@ + "("@) by {
        reveal_strlit(".vtable->drop(");
        reveal_strlit(".vtable->drop");
        reveal_strlit("(");
    }
    assert(".state);\n"@ =~= ".state"@ + ")"@ + ";\n"@) by {
        reveal_strlit(".state);\n");
        reveal_strlit(".state");
        reveal_strlit(")");
        reveal_strlit(";\n");
    }
    assert("    cr_cleanup_stack_destroy(&"@ =~= "    "@ + "cr_cleanup_stack_destroy"@ + "("@ + "&"@) by {
        reveal_strlit("    cr_cleanup_stack_destroy(&");
        reveal_strlit("    ");
        reveal_strlit("cr_cleanup_stack_destroy");
        reveal_strlit("(");
        reveal_strlit("&");
    }
    assert(");\n    if ("@ =~= ")"@ + ";\n"@ + "    "@ + "if ("@) by {
        reveal_strlit(");\n    if (");
        reveal_strlit(")");
        reveal_strlit(";\n");
        reveal_strlit("    ");
        reveal_strlit("if (");
    }
    assert(" != CR_POLL_READY && "@ =~= " != "@ + "CR_POLL_READY"@ + " && "@) by {
        reveal_strlit(" != CR_POLL_READY && ");
        reveal_strlit(" != ");
        reveal_strlit("CR_POLL_READY");
        reveal_strlit(" && ");
    }
    assert(" != CR_POLL_ERROR) "@ =~= " != "@ + "CR_POLL_ERROR"@ + ") "@) by {
        reveal_strlit(" != CR_POLL_ERROR) ");
        reveal_strlit(" != ");
        reveal_strlit("CR_POLL_ERROR");
        reveal_strlit(") ");
    }
    assert(" = CR_POLL_CANCELED;\n}\n\n"@ =~= " = "@ + "CR_POLL_CANCELED"@ + ";\n"@ + "}\n\n"@) by {
        reveal_strlit(" = CR_POLL_CANCELED;\n}\n\n");
        reveal_strlit(" = ");
        reveal_strlit("CR_POLL_CANCELED");
        reveal_strlit(";\n");
        reveal_strlit("}\n\n");
    }
    assert(" = (cr_error){1001, \"invalid coroutine state\"};\n        "@ =~= " = "@ + "(cr_error){"@ + "1001"@ + ", \""@ + "invalid coroutine state"@ + "\"}"@ + ";\n"@ + "        "@) by {
        reveal_strlit(" = (cr_error){1001, \"invalid coroutine state\"};\n        ");
        reveal_strlit(" = ");
        reveal_strlit("(cr_error){");
        reveal_strlit("1001");
        reveal_strlit(", \"");
        reveal_strlit("invalid coroutine state");
        reveal_strlit("\"}");
        reveal_strlit(";\n");
        reveal_strlit("        ");
    }
    assert("    switch ("@ =~= "    "@ + "switch ("@) by {
        reveal_strlit("    switch (");
        reveal_strlit("    ");
        reveal_strlit("switch (");
    }
    assert("    default:\n"@ =~= "    "@ + "default:\n"@) by {
        reveal_strlit("    default:\n");
        reveal_strlit("    ");
        reveal_strlit("default:\n");
    }
    assert("    }\n"@ =~= "    "@ + "}\n"@) by {
        reveal_strlit("    }\n");
        reveal_strlit("    ");
        reveal_strlit("}\n");
    }
    assert("    if (poll_context != NULL && (poll_context->abi_version < CR_POLL_CONTEXT_ABI_VERSION || poll_context->struct_size < CR_POLL_CONTEXT_V1_MIN_SIZE || ((poll_context->available_capabilities & CR_POLL_CAP_WAKER) != 0u && poll_context->waker == NULL))) {\n"@ =~= "    "@ + "if ("@ + "poll_context != NULL && (poll_context->abi_version < CR_POLL_CONTEXT_ABI_VERSION || poll_context->struct_size < CR_POLL_CONTEXT_V1_MIN_SIZE || ((poll_context->available_capabilities & CR_POLL_CAP_WAKER) != 0u && poll_context->waker == NULL))"@ + ") {\n"@) by {
        reveal_strlit("    if (poll_context != NULL && (poll_context->abi_version < CR_POLL_CONTEXT_ABI_VERSION || poll_context->struct_size < CR_POLL_CONTEXT_V1_MIN_SIZE || ((poll_context->available_capabilities & CR_POLL_CAP_WAKER) != 0u && poll_context->waker == NULL))) {\n");
        reveal_strlit("    ");
        reveal_strlit("if (");
        reveal_strlit("poll_context != NULL && (poll_context->abi_version < CR_POLL_CONTEXT_ABI_VERSION || poll_context->struct_size < CR_POLL_CONTEXT_V1_MIN_SIZE || ((poll_context->available_capabilities & CR_POLL_CAP_WAKER) != 0u && poll_context->waker == NULL))");
        reveal_strlit(") {\n");
    }
}

/// The C that a task is set up with is that of resetting it, in a function that
/// takes the task and its parameters.
proof fn reset_is_written(
    out: Seq<char>,
    task: TaskView,
    context: Seq<char>,
    init_name: Seq<char>,
    task_type: Seq<char>,
    parameters: Seq<char>,
)
    ensures
        c_meaning::same(
            c_function_text::init_head_text(out, task, context, init_name, task_type, parameters),
            c_meaning::written(
                out + "void "@ + init_name + "("@ + task_type + " *"@ + context + parameters
                    + ") {\n"@,
                reset_code(context),
                task,
                "    "@,
            ),
        ),
{
    broadcast use {
        c_meaning::joined,
        c_meaning::nothing_behind,
        c_meaning::written_then,
        c_meaning::written_if_in_function,
        c_meaning::written_nothing,
    };

    task_literals();
}

proof fn keeping_is_written(
    out: Seq<char>,
    task: TaskView,
    fields: Seq<LiftedField>,
    parameters: Seq<CfgParameter>,
    n: int,
)
    ensures
        c_meaning::same(
            c_task::stored_parameters(out, task, fields, parameters, n),
            c_meaning::written(out, keep_code(fields, parameters, n), task, "    "@),
        ),
    decreases n,
{
    broadcast use {c_meaning::written_then, c_meaning::written_nothing};

    if n > 0 {
        keeping_is_written(out, task, fields, parameters, n - 1);
        let id = parameters[n - 1].id;
        instruction_laws::lifted_are_found(fields, id, fields.len() as int);
        if c_symbols::symbol_field(fields, id) is Some {
            let k = c_symbols::lifted_last(fields, id, fields.len() as int)->0;
            assert(fields[k].declaration == id);
        }
    }
}

/// The C that sets a task up is that of resetting it and keeping its lifted
/// parameters.
pub proof fn init_is_written(out: Seq<char>, function: LivenessFunction, task: TaskView)
    ensures
        ({
            let coroutine = function.coroutine;
            let parameters = coroutine.cfg.parameters@;
            c_meaning::same(
                c_task::init_text(out, function, task),
                c_meaning::written(
                    out + "void "@ + coroutine.init_name@ + "("@ + coroutine.task_type@ + " *"@
                        + task.context + c_task::init_parameters(coroutine) + ") {\n"@,
                    c_meaning::both(
                        reset_code(task.context),
                        keep_code(function.lifted_fields@, parameters, parameters.len() as int),
                    ),
                    task,
                    "    "@,
                ) + "}\n\n"@,
            )
        }),
{
    broadcast use c_meaning::written_then;

    let coroutine = function.coroutine;
    let parameters = coroutine.cfg.parameters@;
    let head = out + "void "@ + coroutine.init_name@ + "("@ + coroutine.task_type@ + " *"@
        + task.context + c_task::init_parameters(coroutine) + ") {\n"@;
    reset_is_written(
        out,
        task,
        task.context,
        coroutine.init_name@,
        coroutine.task_type@,
        c_task::init_parameters(coroutine),
    );
    keeping_is_written(
        c_meaning::written(head, reset_code(task.context), task, "    "@),
        task,
        function.lifted_fields@,
        parameters,
        parameters.len() as int,
    );
}

proof fn entering_is_written(
    out: Seq<char>,
    task: TaskView,
    context: Seq<char>,
    poll_name: Seq<char>,
    task_type: Seq<char>,
)
    ensures
        ({
            let shown = c_source::path(task, LogicalFieldId::Status);
            let head = out + "cr_poll_status "@ + poll_name + "("@ + task_type + " *"@ + context
                + ", const cr_poll_context *poll_context) {\n"@;
            c_meaning::same(
                out + "cr_poll_status "@ + poll_name + "("@ + task_type + " *"@ + context
                    + ", const cr_poll_context *poll_context) {\n    if ("@ + context
                    + " == NULL) return CR_POLL_ERROR;\n"@ + "    if ("@ + shown
                    + " == CR_POLL_READY || "@ + shown + " == CR_POLL_ERROR || "@ + shown
                    + " == CR_POLL_CANCELED) return "@ + shown + ";\n"@,
                c_meaning::written(
                    head,
                    c_meaning::both(
                        Statement::ReturnIf(
                            Test::Is(Value::Read(Place::Local(context)), "NULL"@),
                            Value::Text("CR_POLL_ERROR"@),
                        ),
                        Statement::ReturnIf(
                            Test::Either(
                                Box::new(
                                    Test::Either(
                                        Box::new(in_status("CR_POLL_READY"@)),
                                        Box::new(in_status("CR_POLL_ERROR"@)),
                                    ),
                                ),
                                Box::new(in_status("CR_POLL_CANCELED"@)),
                            ),
                            status(),
                        ),
                    ),
                    task,
                    "    "@,
                ),
            )
        }),
{
    broadcast use {
        c_meaning::joined,
        c_meaning::nothing_behind,
        c_meaning::written_then,
        c_meaning::written_if_in_function,
        c_meaning::written_nothing,
    };

    reveal_with_fuel(c_meaning::test_text, 4);
    task_literals();
}

proof fn context_check_is_written(out: Seq<char>, task: TaskView)
    ensures
        ({
            let shown = c_source::path(task, LogicalFieldId::Status);
            c_meaning::same(
                out + "    if (poll_context != NULL && (poll_context->abi_version < CR_POLL_CONTEXT_ABI_VERSION || poll_context->struct_size < CR_POLL_CONTEXT_V1_MIN_SIZE || ((poll_context->available_capabilities & CR_POLL_CAP_WAKER) != 0u && poll_context->waker == NULL))) {\n"@ + "        "@ + c_source::path(
                    task,
                    LogicalFieldId::Error,
                )
                    + " = (cr_error){CR_ERROR_INVALID_POLL_CONTEXT, \"invalid poll context\"};\n        cr_cleanup_run_all(&"@
                    + c_source::path(task, LogicalFieldId::Cleanups) + ");\n        "@ + shown
                    + " = CR_POLL_ERROR;\n        return "@ + shown + ";\n    }\n"@ + "    if ("@
                    + shown + " == CR_POLL_YIELDED) "@ + shown + " = CR_POLL_PENDING;\n"@,
                c_meaning::written(
                    out,
                    c_meaning::both(
                        c_meaning::when(
                            bad_context(),
                            wait_code::fail(
                                "CR_ERROR_INVALID_POLL_CONTEXT"@,
                                "invalid poll context"@,
                            ),
                        ),
                        Statement::StoreIf(
                            in_status("CR_POLL_YIELDED"@),
                            Place::Own(LogicalFieldId::Status),
                            Value::Text("CR_POLL_PENDING"@),
                        ),
                    ),
                    task,
                    "    "@,
                ),
            )
        }),
{
    broadcast use {
        c_meaning::joined,
        c_meaning::nothing_behind,
        c_meaning::written_then,
        c_meaning::written_if_in_function,
        c_meaning::written_nothing,
    };

    task_literals();
}

/// A test of the context stands behind a line.
broadcast proof fn context_behind_line(a: Seq<char>)
    ensures
        #[trigger] (a + ";\n    if (poll_context != NULL && (poll_context->abi_version < CR_POLL_CONTEXT_ABI_VERSION || poll_context->struct_size < CR_POLL_CONTEXT_V1_MIN_SIZE || ((poll_context->available_capabilities & CR_POLL_CAP_WAKER) != 0u && poll_context->waker == NULL))) {\n"@) == (a + ";\n"@) + "    if (poll_context != NULL && (poll_context->abi_version < CR_POLL_CONTEXT_ABI_VERSION || poll_context->struct_size < CR_POLL_CONTEXT_V1_MIN_SIZE || ((poll_context->available_capabilities & CR_POLL_CAP_WAKER) != 0u && poll_context->waker == NULL))) {\n"@,
{
    reveal_strlit(";\n    if (poll_context != NULL && (poll_context->abi_version < CR_POLL_CONTEXT_ABI_VERSION || poll_context->struct_size < CR_POLL_CONTEXT_V1_MIN_SIZE || ((poll_context->available_capabilities & CR_POLL_CAP_WAKER) != 0u && poll_context->waker == NULL))) {\n");
    reveal_strlit(";\n");
    reveal_strlit("    if (poll_context != NULL && (poll_context->abi_version < CR_POLL_CONTEXT_ABI_VERSION || poll_context->struct_size < CR_POLL_CONTEXT_V1_MIN_SIZE || ((poll_context->available_capabilities & CR_POLL_CAP_WAKER) != 0u && poll_context->waker == NULL))) {\n");
    assert(a + ";\n    if (poll_context != NULL && (poll_context->abi_version < CR_POLL_CONTEXT_ABI_VERSION || poll_context->struct_size < CR_POLL_CONTEXT_V1_MIN_SIZE || ((poll_context->available_capabilities & CR_POLL_CAP_WAKER) != 0u && poll_context->waker == NULL))) {\n"@ =~= (a + ";\n"@) + "    if (poll_context != NULL && (poll_context->abi_version < CR_POLL_CONTEXT_ABI_VERSION || poll_context->struct_size < CR_POLL_CONTEXT_V1_MIN_SIZE || ((poll_context->available_capabilities & CR_POLL_CAP_WAKER) != 0u && poll_context->waker == NULL))) {\n"@);
}

/// The C that a poll starts with is that of entering it.
pub proof fn poll_head_is_written(
    out: Seq<char>,
    task: TaskView,
    context: Seq<char>,
    poll_name: Seq<char>,
    task_type: Seq<char>,
)
    ensures
        c_meaning::same(
            c_function_text::poll_head_text(out, task, context, poll_name, task_type),
            c_meaning::written(
                out + "cr_poll_status "@ + poll_name + "("@ + task_type + " *"@ + context
                    + ", const cr_poll_context *poll_context) {\n"@,
                enter_code(context),
                task,
                "    "@,
            ),
        ),
{
    broadcast use {c_meaning::written_then, context_behind_line};

    let shown = c_source::path(task, LogicalFieldId::Status);
    entering_is_written(out, task, context, poll_name, task_type);
    context_check_is_written(
        out + "cr_poll_status "@ + poll_name + "("@ + task_type + " *"@ + context
            + ", const cr_poll_context *poll_context) {\n    if ("@ + context
            + " == NULL) return CR_POLL_ERROR;\n"@ + "    if ("@ + shown + " == CR_POLL_READY || "@
            + shown + " == CR_POLL_ERROR || "@ + shown + " == CR_POLL_CANCELED) return "@ + shown
            + ";\n"@,
        task,
    );
}

proof fn lost_is_written(out: Seq<char>, task: TaskView)
    ensures
        c_meaning::same(
            c_runtime_text::invalid_state_text(out, task),
            c_meaning::written(out, lost_code(), task, "        "@),
        ),
{
    broadcast use {
        c_meaning::joined,
        c_meaning::nothing_behind,
        c_meaning::written_then,
        c_meaning::written_if_in_function,
        c_meaning::written_nothing,
    };

    task_literals();
}

proof fn states_are_written(out: Seq<char>, states: Seq<CoroutineState>, n: int)
    requires
        n <= states.len(),
    ensures
        c_meaning::same(
            c_task::dispatch_cases(out, states, n),
            c_meaning::states_text(
                out,
                Seq::new(
                    states.len(),
                    |i: int| (states[i].state as nat, ending_laws::label(states[i].block)),
                ),
                n,
            ),
        ),
    decreases n,
{
    if n > 0 {
        states_are_written(out, states, n - 1);
    }
}

proof fn labels_are_listed(states: Seq<CoroutineState>, n: int)
    requires
        0 <= n <= states.len(),
    ensures
        c_task::dispatch_labels(states, n) == c_meaning::listed(
            Seq::new(states.len(), |i: int| "&&cr_b"@ + ending_laws::label(states[i].block)),
            n,
        ),
    decreases n,
{
    if n > 0 {
        labels_are_listed(states, n - 1);
        let items = Seq::new(
            states.len(),
            |i: int| "&&cr_b"@ + ending_laws::label(states[i].block),
        );
        let before = c_task::dispatch_labels(states, n - 1);
        let shown = text::dec(states[n - 1].block.0 as nat);
        if n == 1 {
            assert(before =~= Seq::<char>::empty());
            assert(before + "&&cr_b"@ + shown =~= items[0]);
        } else {
            assert(before + ", "@ + "&&cr_b"@ + shown =~= before + ", "@ + items[n - 1]);
        }
    }
}

/// The C that goes on where a task stopped is that of resuming it.
pub proof fn dispatch_is_written(
    out: Seq<char>,
    states: Seq<CoroutineState>,
    task: TaskView,
    backend: CBackend,
)
    ensures
        c_meaning::same(
            c_task::dispatch_text(out, states, task, backend),
            c_meaning::written(out, resume_code(states, backend), task, "    "@),
        ),
{
    let n = states.len() as int;
    let state = c_source::path(task, LogicalFieldId::State);
    assert("    "@ + "    "@ == "        "@) by {
        reveal_strlit("    ");
        reveal_strlit("        ");
        assert("    "@ + "    "@ =~= "        "@);
    }
    match backend {
        CBackend::Portable => {
            let listed = Seq::new(
                states.len(),
                |i: int| (states[i].state as nat, ending_laws::label(states[i].block)),
            );
            let opened = out + "    switch ("@ + state + ") {\n"@;
            states_are_written(opened, states, n);
            lost_is_written(c_task::dispatch_cases(opened, states, n) + "    default:\n"@, task);
            resuming_is_written(out, task, listed, c_task::dispatch_cases(opened, states, n));
        },
        CBackend::ComputedGoto => {
            labels_are_listed(states, n);
            let labels = Seq::new(states.len(), |i: int| ending_laws::label(states[i].block));
            assert(Seq::new(labels.len(), |i: int| "&&cr_b"@ + labels[i]) =~= Seq::new(
                states.len(),
                |i: int| "&&cr_b"@ + ending_laws::label(states[i].block),
            ));
            let shown = c_task::dispatch_labels(states, n);
            lost_is_written(
                out + "    static void *const cr_dispatch[] = {"@ + shown + "};\n    if ("@ + state
                    + " >= (sizeof(cr_dispatch) / sizeof(cr_dispatch[0]))) {\n"@,
                task,
            );
            indexing_is_written(out, task, shown);
        },
    }
}

proof fn resuming_is_written(
    out: Seq<char>,
    task: TaskView,
    states: Seq<(nat, Seq<char>)>,
    listed: Seq<char>,
)
    requires
        "    "@ + "    "@ == "        "@,
        c_meaning::same(
            listed,
            c_meaning::states_text(
                out + "    switch ("@ + c_source::path(task, LogicalFieldId::State) + ") {\n"@,
                states,
                states.len() as int,
            ),
        ),
    ensures
        c_meaning::same(
            c_meaning::written(listed + "    default:\n"@, lost_code(), task, "        "@)
                + "    }\n"@,
            c_meaning::written(
                out,
                Statement::Resume(states, Box::new(lost_code())),
                task,
                "    "@,
            ),
        ),
{
    let state = c_source::path(task, LogicalFieldId::State);
    assert(c_meaning::same(
        out + "    switch ("@ + state + ") {\n"@,
        out + "    "@ + "switch ("@ + state + ") {\n"@,
    )) by {
        broadcast use c_meaning::joined;

        task_literals();
    }
    assert(c_meaning::same(listed + "    default:\n"@, listed + "    "@ + "default:\n"@)) by {
        broadcast use c_meaning::joined;

        task_literals();
    }
    let body = c_meaning::written(
        listed + "    "@ + "default:\n"@,
        lost_code(),
        task,
        "        "@,
    );
    assert(c_meaning::same(body + "    }\n"@, body + "    "@ + "}\n"@)) by {
        broadcast use c_meaning::joined;

        task_literals();
    }
}

proof fn indexing_is_written(out: Seq<char>, task: TaskView, labels: Seq<char>)
    ensures
        ({
            let state = c_source::path(task, LogicalFieldId::State);
            let body = c_meaning::written(
                out + "    static void *const cr_dispatch[] = {"@ + labels + "};\n    if ("@ + state
                    + " >= (sizeof(cr_dispatch) / sizeof(cr_dispatch[0]))) {\n"@,
                lost_code(),
                task,
                "        "@,
            );
            let same_body = c_meaning::written(
                out + "    "@ + "static void *const cr_dispatch[] = {"@ + labels + "};\n"@ + "    "@
                    + "if ("@ + state
                    + " >= (sizeof(cr_dispatch) / sizeof(cr_dispatch[0]))) {\n"@,
                lost_code(),
                task,
                "        "@,
            );
            c_meaning::same(
                body + "    }\n    goto *cr_dispatch["@ + state + "];\n"@,
                same_body + "    "@ + "}\n"@ + "    "@ + "goto *cr_dispatch["@ + state + "];\n"@,
            )
        }),
{
    broadcast use c_meaning::joined;

    task_literals();
}

proof fn child_end_is_written(
    out: Seq<char>,
    task: TaskView,
    instance: ChildInstanceId,
    stem: Seq<char>,
    embedded: bool,
)
    ensures
        c_meaning::same(
            c_function_text::drop_child_text(out, task, instance, stem, embedded),
            c_meaning::written(
                out,
                end_child_code(
                    if embedded {
                        wait_code::embedded_child(instance, stem)
                    } else {
                        wait_code::boxed_child(instance, stem, false, ""@)
                    },
                ),
                task,
                "    "@,
            ),
        ),
{
    broadcast use {
        c_meaning::joined,
        c_meaning::nothing_behind,
        c_meaning::written_then,
        c_meaning::written_if_in_function,
        c_meaning::written_nothing,
    };

    task_literals();
}

proof fn slot_end_is_written(out: Seq<char>, task: TaskView, slot: AwaitSlotId, bound: bool)
    ensures
        c_meaning::same(
            c_function_text::drop_slot_text(out, task, slot, bound),
            c_meaning::written(out, end_slot_code(task, slot, bound), task, "    "@),
        ),
{
    broadcast use {
        c_meaning::joined,
        c_meaning::nothing_behind,
        c_meaning::written_then,
        c_meaning::written_if_in_function,
        c_meaning::written_nothing,
    };

    reveal_with_fuel(c_meaning::test_text, 3);
    task_literals();
}

proof fn closing_is_written(out: Seq<char>, task: TaskView)
    ensures
        c_meaning::same(
            c_function_text::drop_tail_text(out, task),
            c_meaning::written(out, close_code(), task, "    "@) + "}\n\n"@,
        ),
{
    broadcast use {
        c_meaning::joined,
        c_meaning::nothing_behind,
        c_meaning::written_then,
        c_meaning::written_if_in_function,
        c_meaning::written_nothing,
    };

    reveal_with_fuel(c_meaning::test_text, 3);
    task_literals();
}

proof fn leaving_is_written(
    out: Seq<char>,
    task: TaskView,
    context: Seq<char>,
    drop_name: Seq<char>,
    task_type: Seq<char>,
)
    ensures
        c_meaning::same(
            c_function_text::drop_head_text(out, context, drop_name, task_type),
            c_meaning::written(
                out + "void "@ + drop_name + "("@ + task_type + " *"@ + context + ") {\n"@,
                Statement::LeaveIf(Test::Is(Value::Read(Place::Local(context)), "NULL"@)),
                task,
                "    "@,
            ),
        ),
{
    broadcast use {
        c_meaning::joined,
        c_meaning::nothing_behind,
        c_meaning::written_then,
        c_meaning::written_if_in_function,
        c_meaning::written_nothing,
    };

    task_literals();
}

/// Code that ends the first `n` planned children.
pub open spec fn end_children_code(
    children: Seq<(ChildInstanceId, ChildPlanView)>,
    n: int,
) -> Statement
    decreases n,
{
    if n <= 0 {
        Statement::Nothing
    } else {
        let child = children[n - 1].1;
        match (child.target, child.origin) {
            (ChildTargetView::Static(callee), ChildOrigin::Direct(edge)) => if child.effective_storage is Opaque {
                end_children_code(children, n - 1)
            } else {
                c_meaning::both(
                    end_children_code(children, n - 1),
                    end_child_code(
                        if child.effective_storage is Embedded {
                            wait_code::embedded_child(child.instance, callee.stem)
                        } else {
                            wait_code::boxed_child(child.instance, callee.stem, false, ""@)
                        },
                    ),
                )
            },
            _ => end_children_code(children, n - 1),
        }
    }
}

/// Code that gives up the awaitables of the first `n` slots without typed
/// children.
pub open spec fn end_slots_code(
    view: FunctionView,
    task: TaskView,
    slots: Seq<CoroutineAwaitSlot>,
    n: int,
) -> Statement
    decreases n,
{
    if n <= 0 {
        Statement::Nothing
    } else if identity_layout::typed_slot(
        view.function.coroutine.await_plan.edges@,
        view.plan,
        slots[n - 1].id,
    ) {
        end_slots_code(view, task, slots, n - 1)
    } else {
        c_meaning::both(
            end_slots_code(view, task, slots, n - 1),
            end_slot_code(
                task,
                slots[n - 1].id,
                c_task::binding_slot(view.function.coroutine, slots[n - 1].id),
            ),
        )
    }
}

proof fn children_end_as_written(
    out: Seq<char>,
    task: TaskView,
    children: Seq<(ChildInstanceId, ChildPlanView)>,
    n: int,
)
    ensures
        c_meaning::same(
            c_task::dropped_children(out, task, children, n),
            c_meaning::written(out, end_children_code(children, n), task, "    "@),
        ),
    decreases n,
{
    broadcast use {c_meaning::written_then, c_meaning::written_nothing};

    if n > 0 {
        children_end_as_written(out, task, children, n - 1);
        let child = children[n - 1].1;
        if let (ChildTargetView::Static(callee), ChildOrigin::Direct(edge)) = (
            child.target,
            child.origin,
        ) {
            child_end_is_written(
                c_task::dropped_children(out, task, children, n - 1),
                task,
                child.instance,
                callee.stem,
                child.effective_storage is Embedded,
            );
        }
    }
}

proof fn slots_end_as_written(
    out: Seq<char>,
    view: FunctionView,
    task: TaskView,
    slots: Seq<CoroutineAwaitSlot>,
    n: int,
)
    ensures
        c_meaning::same(
            c_task::dropped_slots(out, view, task, slots, n),
            c_meaning::written(out, end_slots_code(view, task, slots, n), task, "    "@),
        ),
    decreases n,
{
    broadcast use {c_meaning::written_then, c_meaning::written_nothing};

    if n > 0 {
        slots_end_as_written(out, view, task, slots, n - 1);
        slot_end_is_written(
            c_task::dropped_slots(out, view, task, slots, n - 1),
            task,
            slots[n - 1].id,
            c_task::binding_slot(view.function.coroutine, slots[n - 1].id),
        );
    }
}

/// What dropping a task does.
pub open spec fn drop_code(view: FunctionView, task: TaskView) -> Statement {
    let slots = view.function.coroutine.await_slots@;
    c_meaning::both(
        Statement::LeaveIf(Test::Is(Value::Read(Place::Local(task.context)), "NULL"@)),
        c_meaning::both(
            match view.plan {
                Some(plan) => end_children_code(plan.children, plan.children.len() as int),
                None => Statement::Nothing,
            },
            c_meaning::both(
                end_slots_code(view, task, slots, slots.len() as int),
                close_code(),
            ),
        ),
    )
}

/// The C that drops a task is that of dropping it.
pub proof fn drop_is_written(out: Seq<char>, view: FunctionView, task: TaskView)
    ensures
        ({
            let coroutine = view.function.coroutine;
            c_meaning::same(
                c_task::drop_text(out, view, task),
                c_meaning::written(
                    out + "void "@ + coroutine.drop_name@ + "("@ + coroutine.task_type@ + " *"@
                        + task.context + ") {\n"@,
                    drop_code(view, task),
                    task,
                    "    "@,
                ) + "}\n\n"@,
            )
        }),
{
    broadcast use {c_meaning::written_then, c_meaning::written_nothing};

    let coroutine = view.function.coroutine;
    let slots = coroutine.await_slots@;
    let head = out + "void "@ + coroutine.drop_name@ + "("@ + coroutine.task_type@ + " *"@
        + task.context + ") {\n"@;
    leaving_is_written(
        out,
        task,
        task.context,
        coroutine.drop_name@,
        coroutine.task_type@,
    );
    let w1 = c_function_text::drop_head_text(
        out,
        task.context,
        coroutine.drop_name@,
        coroutine.task_type@,
    );
    let w2 = match view.plan {
        Some(plan) => {
            children_end_as_written(w1, task, plan.children, plan.children.len() as int);
            c_task::dropped_children(w1, task, plan.children, plan.children.len() as int)
        },
        None => w1,
    };
    slots_end_as_written(w2, view, task, slots, slots.len() as int);
    closing_is_written(
        c_task::dropped_slots(w2, view, task, slots, slots.len() as int),
        task,
    );
}

proof fn parameters_are_kept(
    fields: Seq<LiftedField>,
    parameters: Seq<CfgParameter>,
    n: int,
    machine: Machine,
    world: World,
)
    requires
        0 <= n <= parameters.len(),
        forall|i: int, j: int|
            0 <= i < j < parameters.len() ==> (#[trigger] parameters[i]).id != (
            #[trigger] parameters[j]).id,
    ensures
        ({
            let r = c_meaning::run(keep_code(fields, parameters, n), machine, world);
            &&& r.exit is Falls
            &&& r.machine.calls == machine.calls
            &&& forall|q: Place|
                !(q is Own && q->Own_0 is Lifted) ==> #[trigger] (r.machine.memory)(q) == (
                machine.memory)(q)
            &&& forall|k: int|
                0 <= k < n && (exists|i: int|
                    0 <= i < fields.len() && (#[trigger] fields[i]).declaration
                        == parameters[k].id) ==> (r.machine.memory)(
                    Place::Own(LogicalFieldId::Lifted((#[trigger] parameters[k]).id)),
                ) == Datum::Text(parameters[k].name@)
        }),
    decreases n,
{
    broadcast use {c_meaning::run_then, c_meaning::run_nothing};

    if n > 0 {
        parameters_are_kept(fields, parameters, n - 1, machine, world);
    }
}

/// A task that is set up is pending in its first state, with an empty stack of
/// deferred calls, and every lifted parameter has the value that was passed for
/// it.
pub proof fn tasks_are_set_up(
    context: Seq<char>,
    fields: Seq<LiftedField>,
    parameters: Seq<CfgParameter>,
    machine: Machine,
    world: World,
)
    requires
        forall|i: int, j: int|
            0 <= i < j < parameters.len() ==> (#[trigger] parameters[i]).id != (
            #[trigger] parameters[j]).id,
    ensures
        ({
            let r = c_meaning::run(
                c_meaning::both(
                    reset_code(context),
                    keep_code(fields, parameters, parameters.len() as int),
                ),
                machine,
                world,
            );
            let own = |field: LogicalFieldId| (r.machine.memory)(Place::Own(field));
            &&& r.exit is Falls
            &&& c_meaning::numeral(own(LogicalFieldId::State), 0)
            &&& own(LogicalFieldId::Status) == Datum::Text("CR_POLL_PENDING"@)
            &&& r.machine.calls == machine.calls.push(
                Called {
                    function: "memset"@,
                    subject: Datum::Text(context),
                    rest: ", 0, sizeof(*"@ + context + ")"@,
                },
            ).push(
                Called {
                    function: "cr_cleanup_stack_init"@,
                    subject: Datum::Pointer(Place::Own(LogicalFieldId::Cleanups)),
                    rest: ""@,
                },
            )
            &&& forall|k: int|
                0 <= k < parameters.len() && (exists|i: int|
                    0 <= i < fields.len() && (#[trigger] fields[i]).declaration
                        == parameters[k].id) ==> own(
                    LogicalFieldId::Lifted((#[trigger] parameters[k]).id),
                ) == Datum::Text(parameters[k].name@)
        }),
{
    broadcast use {c_meaning::run_then, c_meaning::run_nothing};

    assert(text::dec(0) == "0"@) by {
        reveal_strlit("0");
        assert(text::dec(0) =~= "0"@);
    }
    let m = c_meaning::run(reset_code(context), machine, world).machine;
    parameters_are_kept(fields, parameters, parameters.len() as int, m, world);
}

/// A task that has finished, failed or was canceled stays as it is: a poll
/// returns its status and changes nothing. Any other poll needs a task and a
/// valid context. A task that has yielded is pending again.
pub proof fn ended_tasks_stay_ended(context: Seq<char>, machine: Machine, world: World)
    ensures
        ({
            let r = c_meaning::run(enter_code(context), machine, world);
            let was = (machine.memory)(Place::Own(LogicalFieldId::Status));
            let there = (machine.memory)(Place::Local(context)) != Datum::Text("NULL"@);
            let over = was == Datum::Text("CR_POLL_READY"@) || was == Datum::Text(
                "CR_POLL_ERROR"@,
            ) || was == Datum::Text("CR_POLL_CANCELED"@);
            let bad = (world.truth)("poll_context != NULL && (poll_context->abi_version < CR_POLL_CONTEXT_ABI_VERSION || poll_context->struct_size < CR_POLL_CONTEXT_V1_MIN_SIZE || ((poll_context->available_capabilities & CR_POLL_CAP_WAKER) != 0u && poll_context->waker == NULL))"@);
            &&& !there ==> r == (Run {
                machine,
                exit: Exit::Returns(Datum::Text("CR_POLL_ERROR"@)),
            })
            &&& there && over ==> r == (Run { machine, exit: Exit::Returns(was) })
            &&& there && !over && bad ==> awaitable_laws::failed_with(
                r,
                "CR_ERROR_INVALID_POLL_CONTEXT"@,
                "invalid poll context"@,
                machine.calls,
            )
            &&& there && !over && !bad ==> {
                &&& r.exit is Falls
                &&& r.machine.calls == machine.calls
                &&& (r.machine.memory)(Place::Own(LogicalFieldId::Status)) == if was
                    == Datum::Text("CR_POLL_YIELDED"@) {
                    Datum::Text("CR_POLL_PENDING"@)
                } else {
                    was
                }
                &&& forall|q: Place|
                    q != Place::Own(LogicalFieldId::Status) ==> #[trigger] (r.machine.memory)(q)
                        == (machine.memory)(q)
            }
        }),
{
    broadcast use {c_meaning::run_then, c_meaning::run_nothing, c_meaning::run_if};

    reveal_with_fuel(c_meaning::test_of, 4);
    wait_laws::failing_stops(
        "CR_ERROR_INVALID_POLL_CONTEXT"@,
        "invalid poll context"@,
        machine,
        world,
    );
}

proof fn numerals_tell(n: nat, m: nat, value: Datum)
    requires
        c_meaning::numeral(value, n),
        c_meaning::numeral(value, m),
    ensures
        n == m,
{
    ending_laws::numerals_differ(n, m);
    reveal_strlit("u");
    digits_only(n);
    digits_only(m);
    let a = text::dec(n);
    let b = text::dec(m);
    if a + "u"@ == b + "u"@ {
        assert((a + "u"@).drop_last() =~= a);
        assert((b + "u"@).drop_last() =~= b);
    }
    assert((a + "u"@).last() == 'u');
    assert((b + "u"@).last() == 'u');
}

proof fn digits_only(n: nat)
    ensures
        text::dec(n).len() > 0,
        text::dec(n).last() != 'u',
{
}

proof fn resumed_where(states: Seq<(nat, Seq<char>)>, value: Datum, i: int, k: int)
    requires
        0 <= i <= k < states.len(),
        c_meaning::numeral(value, states[k].0),
        forall|a: int, b: int|
            0 <= a < b < states.len() ==> (#[trigger] states[a]).0 != (#[trigger] states[b]).0,
    ensures
        c_meaning::resumed(states, value, i) == Some(states[k].1),
    decreases k - i,
{
    if i < k {
        if c_meaning::numeral(value, states[i].0) {
            numerals_tell(states[i].0, states[k].0, value);
        }
        resumed_where(states, value, i + 1, k);
    }
}

proof fn resumed_nowhere(states: Seq<(nat, Seq<char>)>, value: Datum, i: int)
    requires
        0 <= i <= states.len(),
        forall|k: int| 0 <= k < states.len() ==> !c_meaning::numeral(value, (#[trigger] states[k]).0),
    ensures
        c_meaning::resumed(states, value, i) is None,
    decreases states.len() - i,
{
    if i < states.len() {
        resumed_nowhere(states, value, i + 1);
    }
}

proof fn indexed_where(labels: Seq<Seq<char>>, value: Datum, i: int, k: int)
    requires
        0 <= i <= k < labels.len(),
        c_meaning::numeral(value, k as nat),
    ensures
        c_meaning::indexed(labels, value, i) == Some(labels[k]),
    decreases k - i,
{
    if i < k {
        if c_meaning::numeral(value, i as nat) {
            numerals_tell(i as nat, k as nat, value);
        }
        indexed_where(labels, value, i + 1, k);
    }
}

/// A task goes on in the block of the state that it was left in, with the same
/// memory and without a call, whichever way labels are reached. Labels reached
/// through a table are counted, so there the states must be numbered in order.
/// With one label per state, a state that a task can't be in ends it with an
/// error.
pub proof fn tasks_go_on_where_they_stopped(
    states: Seq<CoroutineState>,
    backend: CBackend,
    k: int,
    machine: Machine,
    world: World,
)
    requires
        forall|a: int, b: int|
            0 <= a < b < states.len() ==> (#[trigger] states[a]).state != (
            #[trigger] states[b]).state,
        backend is ComputedGoto ==> forall|a: int|
            0 <= a < states.len() ==> (#[trigger] states[a]).state == a,
    ensures
        ({
            let r = c_meaning::run(resume_code(states, backend), machine, world);
            let state = (machine.memory)(Place::Own(LogicalFieldId::State));
            &&& 0 <= k < states.len() && c_meaning::numeral(state, states[k].state as nat) ==> r
                == (Run { machine, exit: Exit::Jumps(ending_laws::label(states[k].block)) })
            &&& backend is Portable && (forall|i: int|
                0 <= i < states.len() ==> !c_meaning::numeral(
                    state,
                    (#[trigger] states[i]).state as nat,
                )) ==> {
                &&& wait_laws::stopped(r, "CR_POLL_ERROR"@)
                &&& (r.machine.memory)(Place::Own(LogicalFieldId::Error)) == Datum::Failure(
                    "1001"@,
                    "invalid coroutine state"@,
                )
                &&& r.machine.calls == machine.calls
            }
        }),
{
    broadcast use {c_meaning::run_then, c_meaning::run_nothing, c_meaning::run_resume};

    let state = (machine.memory)(Place::Own(LogicalFieldId::State));
    let listed = Seq::new(
        states.len(),
        |i: int| (states[i].state as nat, ending_laws::label(states[i].block)),
    );
    let labels = Seq::new(states.len(), |i: int| ending_laws::label(states[i].block));
    if 0 <= k < states.len() && c_meaning::numeral(state, states[k].state as nat) {
        if backend is Portable {
            resumed_where(listed, state, 0, k);
        } else {
            indexed_where(labels, state, 0, k);
        }
    }
    if backend is Portable && (forall|i: int|
        0 <= i < states.len() ==> !c_meaning::numeral(state, (#[trigger] states[i]).state as nat)) {
        resumed_nowhere(listed, state, 0);
    }
}

/// Dropping a task makes its deferred calls, and cancels the task unless it has
/// finished or failed.
pub proof fn dropped_tasks_are_closed(machine: Machine, world: World)
    ensures
        ({
            let r = c_meaning::run(close_code(), machine, world);
            let was = (machine.memory)(Place::Own(LogicalFieldId::Status));
            &&& r.exit is Falls
            &&& r.machine.calls == machine.calls.push(
                Called {
                    function: "cr_cleanup_stack_destroy"@,
                    subject: Datum::Pointer(Place::Own(LogicalFieldId::Cleanups)),
                    rest: ""@,
                },
            )
            &&& (r.machine.memory)(Place::Own(LogicalFieldId::Status)) == if was == Datum::Text(
                "CR_POLL_READY"@,
            ) || was == Datum::Text("CR_POLL_ERROR"@) {
                was
            } else {
                Datum::Text("CR_POLL_CANCELED"@)
            }
        }),
{
    broadcast use {c_meaning::run_then, c_meaning::run_nothing};

    reveal_with_fuel(c_meaning::test_of, 3);
}

/// Dropping a task ends the child that it waits for, once, if it is active, and
/// the awaitable of a slot likewise. What isn't active is left alone.
pub proof fn dropped_tasks_end_what_they_wait_for(
    child: Awaited,
    task: TaskView,
    slot: AwaitSlotId,
    bound: bool,
    machine: Machine,
    world: World,
)
    requires
        wait_laws::apart(child),
        child.owned,
    ensures
        ({
            let r = c_meaning::run(end_child_code(child), machine, world);
            if (machine.memory)(Place::Own(child.active)) == c_meaning::yes() {
                r.exit is Falls && r.machine.calls == wait_laws::ended(child, machine)
                    && wait_laws::inactive(child, r.machine)
            } else {
                r == (Run { machine, exit: Exit::Falls })
            }
        }),
        ({
            let r = c_meaning::run(end_slot_code(task, slot, bound), machine, world);
            let active = Place::Own(LogicalFieldId::AwaitableActive(slot));
            if (machine.memory)(active) == c_meaning::yes() {
                r.exit is Falls && r.machine.calls == awaitable_laws::gone(
                    c_source::path(task, LogicalFieldId::Awaitable(slot)),
                    !bound,
                    machine,
                ) && (r.machine.memory)(active) == Datum::Text("false"@)
            } else {
                r == (Run { machine, exit: Exit::Falls })
            }
        }),
{
    broadcast use {c_meaning::run_then, c_meaning::run_nothing, c_meaning::run_if};

    reveal_with_fuel(c_meaning::test_of, 3);
}

} // verus!
