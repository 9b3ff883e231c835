//! What the functions do that others use a task through.

use vstd::prelude::*;

use crate::c_function_text;
use crate::c_meaning;
use crate::c_meaning::{Called, Datum, Exit, Machine, Place, Run, Statement, Test, Value, World};
use crate::c_source;
use crate::c_source::TaskView;
use crate::context_layout::LogicalFieldId;
use crate::wait_laws;

verus! {

/// The variable of a function that gets a task.
pub open spec fn given_task() -> Value {
    Value::Read(Place::Local("task"@))
}

/// Code that creates a task on the heap: it is allocated, set up with the
/// arguments and returned. Without memory there is an error and no task.
pub open spec fn create_code(
    task_type: Seq<char>,
    init_name: Seq<char>,
    arguments: Seq<char>,
) -> Statement {
    let wanted = Test::Isnt(Value::Read(Place::Local("out_error"@)), "NULL"@);
    c_meaning::both(
        Statement::Result(
            task_type + " *task"@,
            "task"@,
            "("@ + task_type + " *)malloc"@,
            Value::Text("sizeof(*task)"@),
            ""@,
        ),
        c_meaning::both(
            c_meaning::when(
                Test::Is(given_task(), "NULL"@),
                c_meaning::both(
                    Statement::StoreIf(
                        wanted,
                        Place::Local("*out_error"@),
                        Value::Failure("1006"@, "async task allocation failed"@),
                    ),
                    Statement::Return(Value::Text("NULL"@)),
                ),
            ),
            c_meaning::both(
                Statement::StoreIf(
                    wanted,
                    Place::Local("*out_error"@),
                    Value::Text("(cr_error){0, NULL}"@),
                ),
                c_meaning::both(
                    Statement::Call(
                        init_name,
                        given_task(),
                        if arguments == ""@ {
                            ""@
                        } else {
                            ", "@ + arguments
                        },
                    ),
                    Statement::Return(given_task()),
                ),
            ),
        ),
    )
}

/// Code that destroys a task on the heap: it is dropped and freed.
pub open spec fn destroy_code(drop_name: Seq<char>) -> Statement {
    c_meaning::both(
        Statement::LeaveIf(Test::Is(given_task(), "NULL"@)),
        c_meaning::both(
            Statement::Call(drop_name, given_task(), ""@),
            Statement::Call("free"@, given_task(), ""@),
        ),
    )
}

/// How the task of a cleanup is kept.
pub enum Kept {
    /// In a place of its own type.
    Embedded(Seq<char>, Seq<char>),
    /// On the heap.
    Boxed(Seq<char>, Seq<char>),
    /// As an awaitable of any make.
    Any,
}

/// The type of what a cleanup keeps.
pub open spec fn kept_type(kept: Kept) -> Seq<char> {
    match kept {
        Kept::Embedded(task_type, child) => task_type + " *"@,
        Kept::Boxed(task_type, child) => task_type + " **"@,
        Kept::Any => "cr_awaitable *"@,
    }
}

/// Code that ends the task of a cleanup.
pub open spec fn end_kept_code(kept: Kept) -> Statement {
    match kept {
        Kept::Embedded(task_type, child) => Statement::Call(
            child + "_drop"@,
            Value::Read(Place::Local("payload->slot"@)),
            ""@,
        ),
        Kept::Boxed(task_type, child) => c_meaning::both(
            Statement::Call(
                child + "_destroy"@,
                Value::Read(Place::Local("*payload->slot"@)),
                ""@,
            ),
            Statement::Store(Place::Local("*payload->slot"@), Value::Text("NULL"@)),
        ),
        Kept::Any => Statement::Call(
            "payload->slot->vtable->drop"@,
            Value::Text("payload->slot->state"@),
            ""@,
        ),
    }
}

/// Code of the cleanup of a binding: it ends the task that it was made for, if
/// that one is still bound.
pub open spec fn cleanup_code(kept: Kept) -> Statement {
    c_meaning::both(
        Statement::LeaveIf(
            Test::Either(
                Box::new(Test::Not(Value::Read(Place::Local("*payload->active"@)))),
                Box::new(
                    Test::Source("*payload->generation != payload->captured_generation"@),
                ),
            ),
        ),
        c_meaning::both(
            end_kept_code(kept),
            Statement::Store(Place::Local("*payload->active"@), Value::Text("false"@)),
        ),
    )
}

/// Code by which an awaitable polls its task: the value goes where the caller
/// wants it, and the status is returned.
pub open spec fn await_poll_code(
    task_type: Seq<char>,
    poll_name: Seq<char>,
    return_type: Seq<char>,
) -> Statement {
    let wants = |status: Seq<char>|
        Test::Both(
            Box::new(Test::Isnt(Value::Read(Place::Local("out_value"@)), "NULL"@)),
            Box::new(Test::Is(Value::Read(Place::Local("status"@)), status)),
        );
    let target = Place::Local("*("@ + return_type + " *)out_value"@);
    let rest = Statement::Return(Value::Read(Place::Local("status"@)));
    c_meaning::both(
        Statement::ReturnIf(
            Test::Is(Value::Read(Place::Local("state"@)), "NULL"@),
            Value::Text("CR_POLL_ERROR"@),
        ),
        c_meaning::both(
            Statement::Declare(
                task_type + " *task"@,
                "task"@,
                Value::Text("("@ + task_type + " *)state"@),
            ),
            c_meaning::both(
                Statement::Result(
                    "cr_poll_status status"@,
                    "status"@,
                    poll_name,
                    given_task(),
                    ", poll_context"@,
                ),
                if return_type != "void"@ {
                    c_meaning::both(
                        Statement::StoreIf(
                            wants("CR_POLL_READY"@),
                            target,
                            Value::Read(Place::Own(LogicalFieldId::Result)),
                        ),
                        c_meaning::both(
                            Statement::StoreIf(
                                wants("CR_POLL_YIELDED"@),
                                target,
                                Value::Read(Place::Own(LogicalFieldId::Yielded)),
                            ),
                            rest,
                        ),
                    )
                } else {
                    rest
                },
            ),
        ),
    )
}

/// How the fixed parts of the C are made up.
proof fn surface_literals()
    ensures
        " *slot;\n"@ == " *"@ + "slot;\n"@,
        " **slot;\n"@ == " **"@ + "slot;\n"@,
        "    cr_awaitable *slot;\n"@ == "    "@ + "cr_awaitable *"@ + "slot;\n"@,
        " *)raw;\n    if (!*payload->active || *payload->generation != payload->captured_generation) return;\n"@ == " *)raw;\n"@ + "    "@ + "if ("@ + "!"@ + "*payload->active"@ + " || "@ + "*payload->generation != payload->captured_generation"@ + ") return;\n"@,
        "_drop(payload->slot);\n"@ == "_drop"@ + "("@ + "payload->slot"@ + ")"@ + ";\n"@,
        "_destroy(*payload->slot);\n    *payload->slot = NULL;\n"@ == "_destroy"@ + "("@ + "*payload->slot"@ + ")"@ + ";\n"@ + "    "@ + "*payload->slot"@ + " = "@ + "NULL"@ + ";\n"@,
        "    payload->slot->vtable->drop(payload->slot->state);\n"@ == "    "@ + "payload->slot->vtable->drop"@ + "("@ + "payload->slot->state"@ + ")"@ + ";\n"@,
        "    *payload->active = false;\n}\n\n"@ == "    "@ + "*payload->active"@ + " = "@ + "false"@ + ";\n"@ + "}\n\n"@,
        " *task = ("@ == " *task"@ + " = "@ + "("@,
        " *)malloc(sizeof(*task));\n    if (task == NULL) {\n        if (out_error != NULL) *out_error = (cr_error){1006, \"async task allocation failed\"};\n        return NULL;\n    }\n    if (out_error != NULL) *out_error = (cr_error){0, NULL};\n"@ == " *)malloc"@ + "("@ + "sizeof(*task)"@ + ")"@ + ";\n"@ + "    "@ + "if ("@ + "task"@ + " == "@ + "NULL"@ + ") {\n"@ + "        "@ + "if ("@ + "out_error"@ + " != "@ + "NULL"@ + ") "@ + "*out_error"@ + " = "@ + "(cr_error){"@ + "1006"@ + ", \""@ + "async task allocation failed"@ + "\"}"@ + ";\n"@ + "        "@ + "return "@ + "NULL"@ + ";\n"@ + "    "@ + "}\n"@ + "    "@ + "if ("@ + "out_error"@ + " != "@ + "NULL"@ + ") "@ + "*out_error"@ + " = "@ + "(cr_error){0, NULL}"@ + ";\n"@,
        "(task"@ == "("@ + "task"@,
        ");\n    return task;\n}\n\n"@ == ")"@ + ";\n"@ + "    "@ + "return "@ + "task"@ + ";\n"@ + "}\n\n"@,
        " *task) {\n    if (task == NULL) return;\n    "@ == " *task) {\n"@ + "    "@ + "if ("@ + "task"@ + " == "@ + "NULL"@ + ") return;\n"@ + "    "@,
        "(task);\n    free(task);\n}\n\n"@ == "("@ + "task"@ + ")"@ + ";\n"@ + "    "@ + "free"@ + "("@ + "task"@ + ")"@ + ";\n"@ + "}\n\n"@,
        "_result(const "@ == "_"@ + "result"@ + "(const "@,
        "_yielded(const "@ == "_"@ + "yielded"@ + "(const "@,
        "const cr_error *"@ == "const "@ + "cr_error"@ + " *"@,
        "_error(const "@ == "_"@ + "error"@ + "(const "@,
        "; }\n\n"@ == "; }\n"@ + "\n"@,
        "_await_poll,\n    "@ == "_await_poll"@ + ",\n"@ + "    "@,
        "_await_error,\n    "@ == "_await_error"@ + ",\n"@ + "    "@,
        ",\n    "@ == ",\n"@ + "    "@,
        "_await_poll(void *state, const cr_poll_context *poll_context, void *out_value) {\n    if (state == NULL) return CR_POLL_ERROR;\n    "@ == "_await_poll(void *state, const cr_poll_context *poll_context, void *out_value) {\n"@ + "    "@ + "if ("@ + "state"@ + " == "@ + "NULL"@ + ") return "@ + "CR_POLL_ERROR"@ + ";\n"@ + "    "@,
        " *)state;\n    cr_poll_status status = "@ == " *)state"@ + ";\n"@ + "    "@ + "cr_poll_status status"@ + " = "@,
        "(task, poll_context);\n"@ == "("@ + "task"@ + ", poll_context"@ + ")"@ + ";\n"@,
        "    if (out_value != NULL && status == CR_POLL_READY) *("@ == "    "@ + "if ("@ + "out_value"@ + " != "@ + "NULL"@ + " && "@ + "status"@ + " == "@ + "CR_POLL_READY"@ + ") "@ + "*("@,
        " *)out_value = "@ == " *)out_value"@ + " = "@,
        ";\n    if (out_value != NULL && status == CR_POLL_YIELDED) *("@ == ";\n"@ + "    "@ + "if ("@ + "out_value"@ + " != "@ + "NULL"@ + " && "@ + "status"@ + " == "@ + "CR_POLL_YIELDED"@ + ") "@ + "*("@,
        "_await_error(const void *state) { return state != NULL ? &"@ == "_await_error"@ + "(const void *state) { return state != NULL ? &"@,
        "_await_drop(void *state) { "@ == "_await_drop"@ + "(void *state) { "@,
        "_await_destroy(void *state) { "@ == "_await_destroy"@ + "(void *state) { "@,
        "_destroy(("@ == "_destroy"@ + "(("@,
        "    return status;\n"@ == "    "@ + "return "@ + "status"@ + ";\n"@,
        "}\n\nstatic const cr_error "@ == "}\n\n"@ + "static const cr_error "@,
        "_await_poll(void *state, const cr_poll_context *poll_context, void *out_value) {\n"@ == "_await_poll"@ + "(void *state, const cr_poll_context *poll_context, void *out_value) {\n"@,
{
    assert(" *slot;\n"@ =~= " *"@ + "slot;\n"@) by {
        reveal_strlit(" *slot;\n");
        reveal_strlit(" *");
        reveal_strlit("slot;\n");
    }
    assert(" **slot;\n"@ =~= " **"@ + "slot;\n"@) by {
        reveal_strlit(" **slot;\n");
        reveal_strlit(" **");
        reveal_strlit("slot;\n");
    }
    assert("    cr_awaitable *slot;\n"@ =~= "    "@ + "cr_awaitable *"@ + "slot;\n"@) by {
        reveal_strlit("    cr_awaitable *slot;\n");
        reveal_strlit("    ");
        reveal_strlit("cr_awaitable *");
        reveal_strlit("slot;\n");
    }
    assert(" *)raw;\n    if (!*payload->active || *payload->generation != payload->captured_generation) return;\n"@ =~= " *)raw;\n"@ + "    "@ + "if ("@ + "!"@ + "*payload->active"@ + " || "@ + "*payload->generation != payload->captured_generation"@ + ") return;\n"@) by {
        reveal_strlit(" *)raw;\n    if (!*payload->active || *payload->generation != payload->captured_generation) return;\n");
        reveal_strlit(" *)raw;\n");
        reveal_strlit("    ");
        reveal_strlit("if (");
        reveal_strlit("!");
        reveal_strlit("*payload->active");
        reveal_strlit(" || ");
        reveal_strlit("*payload->generation != payload->captured_generation");
        reveal_strlit(") return;\n");
    }
    assert("_drop(payload->slot);\n"@ =~= "_drop"@ + "("@ + "payload->slot"@ + ")"@ + ";\n"@) by {
        reveal_strlit("_drop(payload->slot);\n");
        reveal_strlit("_drop");
        reveal_strlit("(");
        reveal_strlit("payload->slot");
        reveal_strlit(")");
        reveal_strlit(";\n");
    }
    assert("_destroy(*payload->slot);\n    *payload->slot = NULL;\n"@ =~= "_destroy"@ + "("@ + "*payload->slot"@ + ")"@ + ";\n"@ + "    "@ + "*payload->slot"@ + " = "@ + "NULL"@ + ";\n"@) by {
        reveal_strlit("_destroy(*payload->slot);\n    *payload->slot = NULL;\n");
        reveal_strlit("_destroy");
        reveal_strlit("(");
        reveal_strlit("*payload->slot");
        reveal_strlit(")");
        reveal_strlit(";\n");
        reveal_strlit("    ");
        reveal_strlit(" = ");
        reveal_strlit("NULL");
    }
    assert("    payload->slot->vtable->drop(payload->slot->state);\n"@ =~= "    "@ + "payload->slot->vtable->drop"@ + "("@ + "payload->slot->state"@ + ")"@ + ";\n"@) by {
        reveal_strlit("    payload->slot->vtable->drop(payload->slot->state);\n");
        reveal_strlit("    ");
        reveal_strlit("payload->slot->vtable->drop");
        reveal_strlit("(");
        reveal_strlit("payload->slot->state");
        reveal_strlit(")");
        reveal_strlit(";\n");
    }
    assert("    *payload->active = false;\n}\n\n"@ =~= "    "@ + "*payload->active"@ + " = "@ + "false"@ + ";\n"@ + "}\n\n"@) by {
        reveal_strlit("    *payload->active = false;\n}\n\n");
        reveal_strlit("    ");
        reveal_strlit("*payload->active");
        reveal_strlit(" = ");
        reveal_strlit("false");
        reveal_strlit(";\n");
        reveal_strlit("}\n\n");
    }
    assert(" *task = ("@ =~= " *task"@ + " = "@ + "("@) by {
        reveal_strlit(" *task = (");
        reveal_strlit(" *task");
        reveal_strlit(" = ");
        reveal_strlit("(");
    }
    assert(" *)malloc(sizeof(*task));\n    if (task == NULL) {\n        if (out_error != NULL) *out_error = (cr_error){1006, \"async task allocation failed\"};\n        return NULL;\n    }\n    if (out_error != NULL) *out_error = (cr_error){0, NULL};\n"@ =~= " *)malloc"@ + "("@ + "sizeof(*task)"@ + ")"@ + ";\n"@ + "    "@ + "if ("@ + "task"@ + " == "@ + "NULL"@ + ") {\n"@ + "        "@ + "if ("@ + "out_error"@ + " != "@ + "NULL"@ + ") "@ + "*out_error"@ + " = "@ + "(cr_error){"@ + "1006"@ + ", \""@ + "async task allocation failed"@ + "\"}"@ + ";\n"@ + "        "@ + "return "@ + "NULL"@ + ";\n"@ + "    "@ + "}\n"@ + "    "@ + "if ("@ + "out_error"@ + " != "@ + "NULL"@ + ") "@ + "*out_error"@ + " = "@ + "(cr_error){0, NULL}"@ + ";\n"@) by {
        reveal_strlit(" *)malloc(sizeof(*task));\n    if (task == NULL) {\n        if (out_error != NULL) *out_error = (cr_error){1006, \"async task allocation failed\"};\n        return NULL;\n    }\n    if (out_error != NULL) *out_error = (cr_error){0, NULL};\n");
        reveal_strlit(" *)malloc");
        reveal_strlit("(");
        reveal_strlit("sizeof(*task)");
        reveal_strlit(")");
        reveal_strlit(";\n");
        reveal_strlit("    ");
        reveal_strlit("if (");
        reveal_strlit("task");
        reveal_strlit(" == ");
        reveal_strlit("NULL");
        reveal_strlit(") {\n");
        reveal_strlit("        ");
        reveal_strlit("out_error");
        reveal_strlit(" != ");
        reveal_strlit(") ");
        reveal_strlit("*out_error");
        reveal_strlit(" = ");
        reveal_strlit("(cr_error){");
        reveal_strlit("1006");
        reveal_strlit(", \"");
        reveal_strlit("async task allocation failed");
        reveal_strlit("\"}");
        reveal_strlit("return ");
        reveal_strlit("}\n");
        reveal_strlit("(cr_error){0, NULL}");
    }
    assert("(task"@ =~= "("@ + "task"@) by {
        reveal_strlit("(task");
        reveal_strlit("(");
        reveal_strlit("task");
    }
    assert(");\n    return task;\n}\n\n"@ =~= ")"@ + ";\n"@ + "    "@ + "return "@ + "task"@ + ";\n"@ + "}\n\n"@) by {
        reveal_strlit(");\n    return task;\n}\n\n");
        reveal_strlit(")");
        reveal_strlit(";\n");
        reveal_strlit("    ");
        reveal_strlit("return ");
        reveal_strlit("task");
        reveal_strlit("}\n\n");
    }
    assert(" *task) {\n    if (task == NULL) return;\n    "@ =~= " *task) {\n"@ + "    "@ + "if ("@ + "task"@ + " == "@ + "NULL"@ + ") return;\n"@ + "    "@) by {
        reveal_strlit(" *task) {\n    if (task == NULL) return;\n    ");
        reveal_strlit(" *task) {\n");
        reveal_strlit("    ");
        reveal_strlit("if (");
        reveal_strlit("task");
        reveal_strlit(" == ");
        reveal_strlit("NULL");
        reveal_strlit(") return;\n");
    }
    assert("(task);\n    free(task);\n}\n\n"@ =~= "("@ + "task"@ + ")"@ + ";\n"@ + "    "@ + "free"@ + "("@ + "task"@ + ")"@ + ";\n"@ + "}\n\n"@) by {
        reveal_strlit("(task);\n    free(task);\n}\n\n");
        reveal_strlit("(");
        reveal_strlit("task");
        reveal_strlit(")");
        reveal_strlit(";\n");
        reveal_strlit("    ");
        reveal_strlit("free");
        reveal_strlit("}\n\n");
    }
    assert("_result(const "@ =~= "_"@ + "result"@ + "(const "@) by {
        reveal_strlit("_result(const ");
        reveal_strlit("_");
        reveal_strlit("result");
        reveal_strlit("(const ");
    }
    assert("_yielded(const "@ =~= "_"@ + "yielded"@ + "(const "@) by {
        reveal_strlit("_yielded(const ");
        reveal_strlit("_");
        reveal_strlit("yielded");
        reveal_strlit("(const ");
    }
    assert("const cr_error *"@ =~= "const "@ + "cr_error"@ + " *"@) by {
        reveal_strlit("const cr_error *");
        reveal_strlit("const ");
        reveal_strlit("cr_error");
        reveal_strlit(" *");
    }
    assert("_error(const "@ =~= "_"@ + "error"@ + "(const "@) by {
        reveal_strlit("_error(const ");
        reveal_strlit("_");
        reveal_strlit("error");
        reveal_strlit("(const ");
    }
    assert("; }\n\n"@ =~= "; }\n"@ + "\n"@) by {
        reveal_strlit("; }\n\n");
        reveal_strlit("; }\n");
        reveal_strlit("\n");
    }
    assert("_await_poll,\n    "@ =~= "_await_poll"@ + ",\n"@ + "    "@) by {
        reveal_strlit("_await_poll,\n    ");
        reveal_strlit("_await_poll");
        reveal_strlit(",\n");
        reveal_strlit("    ");
    }
    assert("_await_error,\n    "@ =~= "_await_error"@ + ",\n"@ + "    "@) by {
        reveal_strlit("_await_error,\n    ");
        reveal_strlit("_await_error");
        reveal_strlit(",\n");
        reveal_strlit("    ");
    }
    assert(",\n    "@ =~= ",\n"@ + "    "@) by {
        reveal_strlit(",\n    ");
        reveal_strlit(",\n");
        reveal_strlit("    ");
    }
    assert("_await_poll(void *state, const cr_poll_context *poll_context, void *out_value) {\n    if (state == NULL) return CR_POLL_ERROR;\n    "@ =~= "_await_poll(void *state, const cr_poll_context *poll_context, void *out_value) {\n"@ + "    "@ + "if ("@ + "state"@ + " == "@ + "NULL"@ + ") return "@ + "CR_POLL_ERROR"@ + ";\n"@ + "    "@) by {
        reveal_strlit("_await_poll(void *state, const cr_poll_context *poll_context, void *out_value) {\n    if (state == NULL) return CR_POLL_ERROR;\n    ");
        reveal_strlit("_await_poll(void *state, const cr_poll_context *poll_context, void *out_value) {\n");
        reveal_strlit("    ");
        reveal_strlit("if (");
        reveal_strlit("state");
        reveal_strlit(" == ");
        reveal_strlit("NULL");
        reveal_strlit(") return ");
        reveal_strlit("CR_POLL_ERROR");
        reveal_strlit(";\n");
    }
    assert(" *)state;\n    cr_poll_status status = "@ =~= " *)state"@ + ";\n"@ + "    "@ + "cr_poll_status status"@ + " = "@) by {
        reveal_strlit(" *)state;\n    cr_poll_status status = ");
        reveal_strlit(" *)state");
        reveal_strlit(";\n");
        reveal_strlit("    ");
        reveal_strlit("cr_poll_status status");
        reveal_strlit(" = ");
    }
    assert("(task, poll_context);\n"@ =~= "("@ + "task"@ + ", poll_context"@ + ")"@ + ";\n"@) by {
        reveal_strlit("(task, poll_context);\n");
        reveal_strlit("(");
        reveal_strlit("task");
        reveal_strlit(", poll_context");
        reveal_strlit(")");
        reveal_strlit(";\n");
    }
    assert("    if (out_value != NULL && status == CR_POLL_READY) *("@ =~= "    "@ + "if ("@ + "out_value"@ + " != "@ + "NULL"@ + " && "@ + "status"@ + " == "@ + "CR_POLL_READY"@ + ") "@ + "*("@) by {
        reveal_strlit("    if (out_value != NULL && status == CR_POLL_READY) *(");
        reveal_strlit("    ");
        reveal_strlit("if (");
        reveal_strlit("out_value");
        reveal_strlit(" != ");
        reveal_strlit("NULL");
        reveal_strlit(" && ");
        reveal_strlit("status");
        reveal_strlit(" == ");
        reveal_strlit("CR_POLL_READY");
        reveal_strlit(") ");
        reveal_strlit("*(");
    }
    assert(" *)out_value = "@ =~= " *)out_value"@ + " = "@) by {
        reveal_strlit(" *)out_value = ");
        reveal_strlit(" *)out_value");
        reveal_strlit(" = ");
    }
    assert(";\n    if (out_value != NULL && status == CR_POLL_YIELDED) *("@ =~= ";\n"@ + "    "@ + "if ("@ + "out_value"@ + " != "@ + "NULL"@ + " && "@ + "status"@ + " == "@ + "CR_POLL_YIELDED"@ + ") "@ + "*("@) by {
        reveal_strlit(";\n    if (out_value != NULL && status == CR_POLL_YIELDED) *(");
        reveal_strlit(";\n");
        reveal_strlit("    ");
        reveal_strlit("if (");
        reveal_strlit("out_value");
        reveal_strlit(" != ");
        reveal_strlit("NULL");
        reveal_strlit(" && ");
        reveal_strlit("status");
        reveal_strlit(" == ");
        reveal_strlit("CR_POLL_YIELDED");
        reveal_strlit(") ");
        reveal_strlit("*(");
    }
    assert("_await_error(const void *state) { return state != NULL ? &"@ =~= "_await_error"@ + "(const void *state) { return state != NULL ? &"@) by {
        reveal_strlit("_await_error(const void *state) { return state != NULL ? &");
        reveal_strlit("_await_error");
        reveal_strlit("(const void *state) { return state != NULL ? &");
    }
    assert("_await_drop(void *state) { "@ =~= "_await_drop"@ + "(void *state) { "@) by {
        reveal_strlit("_await_drop(void *state) { ");
        reveal_strlit("_await_drop");
        reveal_strlit("(void *state) { ");
    }
    assert("_await_destroy(void *state) { "@ =~= "_await_destroy"@ + "(void *state) { "@) by {
        reveal_strlit("_await_destroy(void *state) { ");
        reveal_strlit("_await_destroy");
        reveal_strlit("(void *state) { ");
    }
    assert("_destroy(("@ =~= "_destroy"@ + "(("@) by {
        reveal_strlit("_destroy((");
        reveal_strlit("_destroy");
        reveal_strlit("((");
    }
    assert("    return status;\n"@ =~= "    "@ + "return "@ + "status"@ + ";\n"@) by {
        reveal_strlit("    return status;\n");
        reveal_strlit("    ");
        reveal_strlit("return ");
        reveal_strlit("status");
        reveal_strlit(";\n");
    }
    assert("}\n\nstatic const cr_error "@ =~= "}\n\n"@ + "static const cr_error "@) by {
        reveal_strlit("}\n\nstatic const cr_error ");
        reveal_strlit("}\n\n");
        reveal_strlit("static const cr_error ");
    }
    assert("_await_poll(void *state, const cr_poll_context *poll_context, void *out_value) {\n"@ =~= "_await_poll"@ + "(void *state, const cr_poll_context *poll_context, void *out_value) {\n"@) by {
        reveal_strlit("_await_poll(void *state, const cr_poll_context *poll_context, void *out_value) {\n");
        reveal_strlit("_await_poll");
        reveal_strlit("(void *state, const cr_poll_context *poll_context, void *out_value) {\n");
    }
}

/// The functions that create and destroy a task on the heap are written as
/// creating and destroying it.
pub proof fn heap_functions_are_written(
    out: Seq<char>,
    stem: Seq<char>,
    task_type: Seq<char>,
    init_name: Seq<char>,
    drop_name: Seq<char>,
    parameters: Seq<char>,
    arguments: Seq<char>,
    task: TaskView,
)
    ensures
        ({
            let created = c_meaning::written(
                out + task_type + " *"@ + stem + "_create("@ + parameters + ") {\n"@,
                create_code(task_type, init_name, arguments),
                task,
                "    "@,
            ) + "}\n\n"@;
            c_meaning::same(
                c_function_text::heap_api_text(
                    out,
                    stem,
                    task_type,
                    init_name,
                    drop_name,
                    parameters,
                    arguments,
                ),
                c_meaning::written(
                    created + "void "@ + stem + "_destroy("@ + task_type + " *task) {\n"@,
                    destroy_code(drop_name),
                    task,
                    "    "@,
                ) + "}\n\n"@,
            )
        }),
{
    broadcast use c_meaning::written_then;

    let head = out + task_type + " *"@ + stem + "_create("@ + parameters + ") {\n"@;
    allocation_is_written(head, task_type, task);
    let comma = if arguments == ""@ {
        ""@
    } else {
        ", "@
    };
    let allocated = head + "    "@ + task_type + " *task = ("@ + task_type
        + " *)malloc(sizeof(*task));\n    if (task == NULL) {\n        if (out_error != NULL) *out_error = (cr_error){1006, \"async task allocation failed\"};\n        return NULL;\n    }\n    if (out_error != NULL) *out_error = (cr_error){0, NULL};\n"@;
    set_up_is_written(allocated, init_name, arguments, task);
    let created = allocated + "    "@ + init_name + "(task"@ + comma + arguments
        + ");\n    return task;\n}\n\n"@;
    destruction_is_written(created, stem, task_type, drop_name, task);
}

proof fn allocation_is_written(out: Seq<char>, task_type: Seq<char>, task: TaskView)
    ensures
        ({
            let wanted = Test::Isnt(Value::Read(Place::Local("out_error"@)), "NULL"@);
            c_meaning::same(
                out + "    "@ + task_type + " *task = ("@ + task_type
                    + " *)malloc(sizeof(*task));\n    if (task == NULL) {\n        if (out_error != NULL) *out_error = (cr_error){1006, \"async task allocation failed\"};\n        return NULL;\n    }\n    if (out_error != NULL) *out_error = (cr_error){0, NULL};\n"@,
                c_meaning::written(
                    out,
                    c_meaning::both(
                        Statement::Result(
                            task_type + " *task"@,
                            "task"@,
                            "("@ + task_type + " *)malloc"@,
                            Value::Text("sizeof(*task)"@),
                            ""@,
                        ),
                        c_meaning::both(
                            c_meaning::when(
                                Test::Is(given_task(), "NULL"@),
                                c_meaning::both(
                                    Statement::StoreIf(
                                        wanted,
                                        Place::Local("*out_error"@),
                                        Value::Failure("1006"@, "async task allocation failed"@),
                                    ),
                                    Statement::Return(Value::Text("NULL"@)),
                                ),
                            ),
                            Statement::StoreIf(
                                wanted,
                                Place::Local("*out_error"@),
                                Value::Text("(cr_error){0, NULL}"@),
                            ),
                        ),
                    ),
                    task,
                    "    "@,
                ),
            )
        }),
{
    broadcast use {
        c_meaning::joined,
        c_meaning::nothing_behind,
        c_meaning::written_then,
        c_meaning::written_if_in_function,
        c_meaning::written_nothing,
    };

    surface_literals();
}

proof fn set_up_is_written(
    out: Seq<char>,
    init_name: Seq<char>,
    arguments: Seq<char>,
    task: TaskView,
)
    ensures
        ({
            let comma = if arguments == ""@ {
                ""@
            } else {
                ", "@
            };
            c_meaning::same(
                out + "    "@ + init_name + "(task"@ + comma + arguments
                    + ");\n    return task;\n}\n\n"@,
                c_meaning::written(
                    out,
                    c_meaning::both(
                        Statement::Call(
                            init_name,
                            given_task(),
                            if arguments == ""@ {
                                ""@
                            } else {
                                ", "@ + arguments
                            },
                        ),
                        Statement::Return(given_task()),
                    ),
                    task,
                    "    "@,
                ) + "}\n\n"@,
            )
        }),
{
    broadcast use {
        c_meaning::joined,
        c_meaning::nothing_behind,
        c_meaning::written_then,
        c_meaning::written_if_in_function,
        c_meaning::written_nothing,
    };

    surface_literals();
}

proof fn destruction_is_written(
    out: Seq<char>,
    stem: Seq<char>,
    task_type: Seq<char>,
    drop_name: Seq<char>,
    task: TaskView,
)
    ensures
        c_meaning::same(
            out + "void "@ + stem + "_destroy("@ + task_type
                + " *task) {\n    if (task == NULL) return;\n    "@ + drop_name
                + "(task);\n    free(task);\n}\n\n"@,
            c_meaning::written(
                out + "void "@ + stem + "_destroy("@ + task_type + " *task) {\n"@,
                destroy_code(drop_name),
                task,
                "    "@,
            ) + "}\n\n"@,
        ),
{
    broadcast use {
        c_meaning::joined,
        c_meaning::nothing_behind,
        c_meaning::written_then,
        c_meaning::written_if_in_function,
        c_meaning::written_nothing,
    };

    surface_literals();
}

/// The cleanup of a bound task is written as ending the task that it was made
/// for.
pub proof fn cleanups_are_written(
    out: Seq<char>,
    stem: Seq<char>,
    field: Seq<char>,
    typed: bool,
    embedded: bool,
    task_type: Seq<char>,
    child: Seq<char>,
    task: TaskView,
)
    ensures
        ({
            let kept = if !typed {
                Kept::Any
            } else if embedded {
                Kept::Embedded(task_type, child)
            } else {
                Kept::Boxed(task_type, child)
            };
            let prefix = stem + "_"@ + field;
            let payload = prefix + "_cleanup_payload"@;
            c_meaning::same(
                c_function_text::task_cleanup_text(
                    out,
                    stem,
                    field,
                    typed,
                    embedded,
                    task_type,
                    child,
                ),
                c_meaning::written(
                    out + "typedef struct "@ + payload + " {\n"@ + "    "@ + kept_type(kept)
                        + "slot;\n"@
                        + "    bool *active;\n    uint64_t *generation;\n    uint64_t captured_generation;\n} "@
                        + payload + ";\nstatic void "@ + (prefix + "_cleanup"@)
                        + "(void *raw) {\n    "@ + payload + " *payload = ("@ + payload
                        + " *)raw;\n"@,
                    cleanup_code(kept),
                    task,
                    "    "@,
                ) + "}\n\n"@,
            )
        }),
{
    let prefix = stem + "_"@ + field;
    cleanup_parts_are_written(
        out,
        prefix + "_cleanup_payload"@,
        prefix + "_cleanup"@,
        typed,
        embedded,
        task_type,
        child,
        task,
    );
}

proof fn cleanup_parts_are_written(
    out: Seq<char>,
    payload: Seq<char>,
    helper: Seq<char>,
    typed: bool,
    embedded: bool,
    task_type: Seq<char>,
    child: Seq<char>,
    task: TaskView,
)
    ensures
        ({
            let kept = if !typed {
                Kept::Any
            } else if embedded {
                Kept::Embedded(task_type, child)
            } else {
                Kept::Boxed(task_type, child)
            };
            let opened = out + "typedef struct "@ + payload + " {\n"@;
            let slot = if typed {
                if embedded {
                    opened + "    "@ + task_type + " *slot;\n"@
                } else {
                    opened + "    "@ + task_type + " **slot;\n"@
                }
            } else {
                opened + "    cr_awaitable *slot;\n"@
            };
            let started = slot
                + "    bool *active;\n    uint64_t *generation;\n    uint64_t captured_generation;\n} "@
                + payload + ";\nstatic void "@ + helper + "(void *raw) {\n    "@ + payload
                + " *payload = ("@ + payload
                + " *)raw;\n    if (!*payload->active || *payload->generation != payload->captured_generation) return;\n"@;
            let ended = if typed {
                if embedded {
                    started + "    "@ + child + "_drop(payload->slot);\n"@
                } else {
                    started + "    "@ + child
                        + "_destroy(*payload->slot);\n    *payload->slot = NULL;\n"@
                }
            } else {
                started + "    payload->slot->vtable->drop(payload->slot->state);\n"@
            };
            c_meaning::same(
                ended + "    *payload->active = false;\n}\n\n"@,
                c_meaning::written(
                    out + "typedef struct "@ + payload + " {\n"@ + "    "@ + kept_type(kept)
                        + "slot;\n"@
                        + "    bool *active;\n    uint64_t *generation;\n    uint64_t captured_generation;\n} "@
                        + payload + ";\nstatic void "@ + helper + "(void *raw) {\n    "@ + payload
                        + " *payload = ("@ + payload + " *)raw;\n"@,
                    cleanup_code(kept),
                    task,
                    "    "@,
                ) + "}\n\n"@,
            )
        }),
{
    broadcast use {
        c_meaning::joined,
        c_meaning::nothing_behind,
        c_meaning::written_then,
        c_meaning::written_if_in_function,
        c_meaning::written_nothing,
    };

    reveal_with_fuel(c_meaning::test_text, 3);
    surface_literals();
}

/// A function that returns where a field of every task is.
pub open spec fn accessor_text(
    out: Seq<char>,
    task: TaskView,
    stem: Seq<char>,
    task_type: Seq<char>,
    ty: Seq<char>,
    field: LogicalFieldId,
) -> Seq<char> {
    out + "const "@ + ty + " *"@ + stem + "_"@ + c_meaning::member_name(field) + "(const "@
        + task_type + " *task) { return &"@ + c_source::path(task, field) + "; }\n"@
}

/// Each function that reads a task returns where the field of its name is: the
/// result and the yielded value if there is a value, and the error.
pub proof fn accessors_find_their_fields(
    out: Seq<char>,
    task: TaskView,
    stem: Seq<char>,
    task_type: Seq<char>,
    return_type: Seq<char>,
)
    ensures
        ({
            let values = if return_type == "void"@ {
                out
            } else {
                accessor_text(
                    accessor_text(
                        out,
                        task,
                        stem,
                        task_type,
                        return_type,
                        LogicalFieldId::Result,
                    ),
                    task,
                    stem,
                    task_type,
                    return_type,
                    LogicalFieldId::Yielded,
                )
            };
            c_meaning::same(
                c_function_text::accessors_text(out, task, stem, task_type, return_type),
                accessor_text(
                    values,
                    task,
                    stem,
                    task_type,
                    "cr_error"@,
                    LogicalFieldId::Error,
                ) + "\n"@,
            )
        }),
{
    broadcast use c_meaning::joined;

    surface_literals();
}

/// The function by which an awaitable polls its task is written as polling it.
proof fn await_poll_is_written(
    out: Seq<char>,
    task: TaskView,
    stem: Seq<char>,
    task_type: Seq<char>,
    poll_name: Seq<char>,
    return_type: Seq<char>,
)
    ensures
        ({
            let head = out + "static cr_poll_status "@ + stem
                + "_await_poll(void *state, const cr_poll_context *poll_context, void *out_value) {\n    if (state == NULL) return CR_POLL_ERROR;\n    "@
                + task_type + " *task = ("@ + task_type
                + " *)state;\n    cr_poll_status status = "@ + poll_name
                + "(task, poll_context);\n"@;
            let values = if return_type != "void"@ {
                head + "    if (out_value != NULL && status == CR_POLL_READY) *("@ + return_type
                    + " *)out_value = "@ + c_source::path(task, LogicalFieldId::Result)
                    + ";\n    if (out_value != NULL && status == CR_POLL_YIELDED) *("@ + return_type
                    + " *)out_value = "@ + c_source::path(task, LogicalFieldId::Yielded) + ";\n"@
            } else {
                head
            };
            c_meaning::same(
                values + "    return status;\n"@,
                c_meaning::written(
                    out + "static cr_poll_status "@ + stem
                        + "_await_poll(void *state, const cr_poll_context *poll_context, void *out_value) {\n"@,
                    await_poll_code(task_type, poll_name, return_type),
                    task,
                    "    "@,
                ),
            )
        }),
{
    broadcast use {
        c_meaning::joined,
        c_meaning::nothing_behind,
        c_meaning::written_then,
        c_meaning::written_if_in_function,
        c_meaning::written_nothing,
    };

    reveal_with_fuel(c_meaning::test_text, 3);
    surface_literals();
}

/// A table by which others poll a task: its functions poll the task, find its
/// error, and give it up.
pub open spec fn table_text(
    out: Seq<char>,
    name: Seq<char>,
    poll: Seq<char>,
    error: Seq<char>,
    give_up: Seq<char>,
    ty: Seq<char>,
) -> Seq<char> {
    out + "static const cr_awaitable_vtable "@ + name
        + " = {\n    CR_AWAITABLE_VTABLE_ABI_VERSION,\n    sizeof(cr_awaitable_vtable),\n    CR_AWAITABLE_CAN_YIELD,\n    0u,\n    "@
        + poll + ",\n    "@ + error + ",\n    "@ + give_up + ",\n    "@ + if ty == "void"@ {
        "0u"@
    } else {
        "sizeof("@ + ty + ")"@
    } + ",\n    "@ + if ty == "void"@ {
        "0u"@
    } else {
        "_Alignof("@ + ty + ")"@
    } + "\n};\n\n"@
}

/// A function that makes an awaitable of a task with a table.
pub open spec fn maker_text(
    out: Seq<char>,
    name: Seq<char>,
    task_type: Seq<char>,
    table: Seq<char>,
) -> Seq<char> {
    out + "cr_awaitable "@ + name + "("@ + task_type
        + " *task) {\n    return (cr_awaitable){task, &"@ + table + "};\n}\n\n"@
}

/// A task becomes an awaitable in two ways. Both are polled by polling the task,
/// and find its error. A borrowed task is dropped with the awaitable; one that
/// was handed over is destroyed with it.
pub proof fn tasks_become_awaitables(
    out: Seq<char>,
    task: TaskView,
    state: TaskView,
    stem: Seq<char>,
    task_type: Seq<char>,
    poll_name: Seq<char>,
    drop_name: Seq<char>,
    return_type: Seq<char>,
)
    ensures
        ({
            let poll = stem + "_await_poll"@;
            let error = stem + "_await_error"@;
            let dropping = stem + "_await_drop"@;
            let destroying = stem + "_await_destroy"@;
            let borrowed = stem + "_borrowed_awaitable_vtable"@;
            let owning = stem + "_owning_awaitable_vtable"@;
            let o1 = c_meaning::written(
                out + "static cr_poll_status "@ + poll
                    + "(void *state, const cr_poll_context *poll_context, void *out_value) {\n"@,
                await_poll_code(task_type, poll_name, return_type),
                task,
                "    "@,
            ) + "}\n\n"@;
            let o2 = o1 + "static const cr_error "@ + stem
                + "_await_null_error = {1006, \"async task allocation failed\"};\n"@
                + "static const cr_error *"@ + error
                + "(const void *state) { return state != NULL ? &"@ + c_source::path(
                state,
                LogicalFieldId::Error,
            ) + " : &"@ + stem + "_await_null_error; }\n"@;
            let o3 = o2 + "static void "@ + dropping + "(void *state) { "@ + drop_name + "(("@
                + task_type + " *)state); }\n"@;
            let o4 = o3 + "static void "@ + destroying + "(void *state) { "@ + (stem
                + "_destroy"@) + "(("@ + task_type + " *)state); }\n"@;
            let o5 = table_text(o4, borrowed, poll, error, dropping, return_type);
            let o6 = table_text(o5, owning, poll, error, destroying, return_type);
            let o7 = maker_text(o6, stem + "_as_awaitable"@, task_type, borrowed);
            c_meaning::same(
                c_function_text::adapters_text(
                    out,
                    task,
                    state,
                    stem,
                    task_type,
                    poll_name,
                    drop_name,
                    return_type,
                ),
                maker_text(o7, stem + "_into_awaitable"@, task_type, owning),
            )
        }),
{
    broadcast use end_behind_status;

    reveal(c_function_text::adapters_text);
    let poll = stem + "_await_poll"@;
    let error = stem + "_await_error"@;
    let dropping = stem + "_await_drop"@;
    let destroying = stem + "_await_destroy"@;
    let borrowed = stem + "_borrowed_awaitable_vtable"@;
    let owning = stem + "_owning_awaitable_vtable"@;
    await_poll_is_written(out, task, stem, task_type, poll_name, return_type);
    let w = c_meaning::written(
        out + "static cr_poll_status "@ + stem
            + "_await_poll(void *state, const cr_poll_context *poll_context, void *out_value) {\n"@,
        await_poll_code(task_type, poll_name, return_type),
        task,
        "    "@,
    );
    poll_name_is_joined(out, stem);
    maker_names();
    error_functions_are_written(w, state, stem, task_type, drop_name);
    let size = if return_type != "void"@ {
        "sizeof("@ + return_type + ")"@
    } else {
        "0u"@
    };
    let align = if return_type != "void"@ {
        "_Alignof("@ + return_type + ")"@
    } else {
        "0u"@
    };
    let o4 = given_up_functions(w + "}\n\n"@, state, stem, task_type, drop_name);
    table_is_written(o4, borrowed, stem, dropping, return_type);
    let o5 = table_text(o4, borrowed, poll, error, dropping, return_type);
    table_is_written(o5, owning, stem, destroying, return_type);
    let o6 = table_text(o5, owning, poll, error, destroying, return_type);
    maker_is_written(o6, stem, "_as_awaitable"@, "_as_awaitable("@, task_type, borrowed);
    let o7 = maker_text(o6, stem + "_as_awaitable"@, task_type, borrowed);
    maker_is_written(o7, stem, "_into_awaitable"@, "_into_awaitable("@, task_type, owning);
}

/// What stands between the poll function and the tables.
pub open spec fn given_up_functions(
    out: Seq<char>,
    state: TaskView,
    stem: Seq<char>,
    task_type: Seq<char>,
    drop_name: Seq<char>,
) -> Seq<char> {
    let o2 = out + "static const cr_error "@ + stem
        + "_await_null_error = {1006, \"async task allocation failed\"};\n"@
        + "static const cr_error *"@ + (stem + "_await_error"@)
        + "(const void *state) { return state != NULL ? &"@ + c_source::path(
        state,
        LogicalFieldId::Error,
    ) + " : &"@ + stem + "_await_null_error; }\n"@;
    let o3 = o2 + "static void "@ + (stem + "_await_drop"@) + "(void *state) { "@ + drop_name
        + "(("@ + task_type + " *)state); }\n"@;
    o3 + "static void "@ + (stem + "_await_destroy"@) + "(void *state) { "@ + (stem + "_destroy"@)
        + "(("@ + task_type + " *)state); }\n"@
}

/// The end of a function stands behind its last line.
broadcast proof fn end_behind_status(a: Seq<char>)
    ensures
        #[trigger] (a + "    return status;\n}\n\nstatic const cr_error "@) == (a
            + "    return status;\n"@) + "}\n\nstatic const cr_error "@,
{
    reveal_strlit("    return status;\n}\n\nstatic const cr_error ");
    reveal_strlit("    return status;\n");
    reveal_strlit("}\n\nstatic const cr_error ");
    assert(a + "    return status;\n}\n\nstatic const cr_error "@ =~= (a
        + "    return status;\n"@) + "}\n\nstatic const cr_error "@);
}

proof fn maker_names()
    ensures
        "_as_awaitable("@ == "_as_awaitable"@ + "("@,
        "_into_awaitable("@ == "_into_awaitable"@ + "("@,
{
    reveal_strlit("_as_awaitable(");
    reveal_strlit("_as_awaitable");
    reveal_strlit("_into_awaitable(");
    reveal_strlit("_into_awaitable");
    reveal_strlit("(");
    assert("_as_awaitable("@ =~= "_as_awaitable"@ + "("@);
    assert("_into_awaitable("@ =~= "_into_awaitable"@ + "("@);
}

proof fn poll_name_is_joined(out: Seq<char>, stem: Seq<char>)
    ensures
        c_meaning::same(
            out + "static cr_poll_status "@ + stem
                + "_await_poll(void *state, const cr_poll_context *poll_context, void *out_value) {\n"@,
            out + "static cr_poll_status "@ + (stem + "_await_poll"@)
                + "(void *state, const cr_poll_context *poll_context, void *out_value) {\n"@,
        ),
{
    broadcast use c_meaning::joined;

    surface_literals();
}

proof fn error_functions_are_written(
    out: Seq<char>,
    state: TaskView,
    stem: Seq<char>,
    task_type: Seq<char>,
    drop_name: Seq<char>,
)
    ensures
        ({
            let error = c_source::path(state, LogicalFieldId::Error);
            let o1 = out + "}\n\nstatic const cr_error "@ + stem
                + "_await_null_error = {1006, \"async task allocation failed\"};\n"@;
            let o2 = o1 + "static const cr_error *"@ + stem
                + "_await_error(const void *state) { return state != NULL ? &"@ + error + " : &"@
                + stem + "_await_null_error; }\n"@;
            let o3 = o2 + "static void "@ + stem + "_await_drop(void *state) { "@ + drop_name
                + "(("@ + task_type + " *)state); }\n"@;
            let o4 = o3 + "static void "@ + stem + "_await_destroy(void *state) { "@ + stem
                + "_destroy(("@ + task_type + " *)state); }\n"@;
            c_meaning::same(
                o4,
                given_up_functions(out + "}\n\n"@, state, stem, task_type, drop_name),
            )
        }),
{
    broadcast use c_meaning::joined;

    surface_literals();
}

proof fn table_is_written(
    out: Seq<char>,
    table: Seq<char>,
    stem: Seq<char>,
    callback: Seq<char>,
    ty: Seq<char>,
)
    ensures
        c_meaning::same(
            c_function_text::awaitable_table_text(
                out,
                table,
                stem,
                callback,
                if ty != "void"@ {
                    "sizeof("@ + ty + ")"@
                } else {
                    "0u"@
                },
                if ty != "void"@ {
                    "_Alignof("@ + ty + ")"@
                } else {
                    "0u"@
                },
            ),
            table_text(
                out,
                table,
                stem + "_await_poll"@,
                stem + "_await_error"@,
                callback,
                ty,
            ),
        ),
{
    broadcast use c_meaning::joined;

    surface_literals();
}

proof fn maker_is_written(
    out: Seq<char>,
    stem: Seq<char>,
    name: Seq<char>,
    opened: Seq<char>,
    task_type: Seq<char>,
    table: Seq<char>,
)
    requires
        opened == name + "("@,
    ensures
        c_meaning::same(
            out + "cr_awaitable "@ + stem + opened + task_type
                + " *task) {\n    return (cr_awaitable){task, &"@ + table + "};\n}\n\n"@,
            maker_text(out, stem + name, task_type, table),
        ),
{
    broadcast use c_meaning::joined;

}

/// Creating a task takes memory once. Without memory there is no task, and the
/// caller learns the error if it asked for it. Else the task is set up with the
/// arguments and handed out, without an error.
pub proof fn creation_hands_tasks_out(
    task_type: Seq<char>,
    init_name: Seq<char>,
    arguments: Seq<char>,
    machine: Machine,
    world: World,
)
    ensures
        ({
            let r = c_meaning::run(create_code(task_type, init_name, arguments), machine, world);
            let memory = (world.returned)(machine.calls.len());
            let asked = (machine.memory)(Place::Local("out_error"@)) != Datum::Text("NULL"@);
            let error = (r.machine.memory)(Place::Local("*out_error"@));
            if memory == Datum::Text("NULL"@) {
                &&& r.exit == Exit::Returns(Datum::Text("NULL"@))
                &&& r.machine.calls.len() == machine.calls.len() + 1
                &&& asked ==> error == Datum::Failure("1006"@, "async task allocation failed"@)
            } else {
                &&& r.exit == Exit::Returns(memory)
                &&& r.machine.calls.len() == machine.calls.len() + 2
                &&& r.machine.calls.last() == (Called {
                    function: init_name,
                    subject: memory,
                    rest: if arguments == ""@ {
                        ""@
                    } else {
                        ", "@ + arguments
                    },
                })
                &&& asked ==> error == Datum::Text("(cr_error){0, NULL}"@)
            }
        }),
{
    broadcast use {c_meaning::run_then, c_meaning::run_nothing, c_meaning::run_if};

    assert("task"@ != "out_error"@ && "task"@ != "*out_error"@) by {
        reveal_strlit("task");
        reveal_strlit("out_error");
        reveal_strlit("*out_error");
        assert("task"@.len() != "out_error"@.len());
    }
}

/// Destroying a task drops it and frees it, in this order. No task is nothing to
/// destroy.
pub proof fn destruction_drops_and_frees(drop_name: Seq<char>, machine: Machine, world: World)
    ensures
        ({
            let r = c_meaning::run(destroy_code(drop_name), machine, world);
            let given = (machine.memory)(Place::Local("task"@));
            if given == Datum::Text("NULL"@) {
                r == (Run { machine, exit: Exit::Leaves })
            } else {
                r.exit is Falls && r.machine.calls == machine.calls.push(
                    Called { function: drop_name, subject: given, rest: ""@ },
                ).push(Called { function: "free"@, subject: given, rest: ""@ })
            }
        }),
{
    broadcast use {c_meaning::run_then, c_meaning::run_nothing};

}

/// The cleanup of a binding ends the task that it was made for, once: a task that
/// isn't active, or that was bound in another generation, is left alone.
pub proof fn cleanups_end_their_own_task(kept: Kept, machine: Machine, world: World)
    ensures
        ({
            let r = c_meaning::run(cleanup_code(kept), machine, world);
            let active = Place::Local("*payload->active"@);
            let other = (world.truth)("*payload->generation != payload->captured_generation"@);
            if (machine.memory)(active) != c_meaning::yes() || other {
                r == (Run { machine, exit: Exit::Leaves })
            } else {
                &&& r.exit is Falls
                &&& (r.machine.memory)(active) == Datum::Text("false"@)
                &&& r.machine.calls == machine.calls.push(
                    match kept {
                        Kept::Embedded(task_type, child) => Called {
                            function: child + "_drop"@,
                            subject: (machine.memory)(Place::Local("payload->slot"@)),
                            rest: ""@,
                        },
                        Kept::Boxed(task_type, child) => Called {
                            function: child + "_destroy"@,
                            subject: (machine.memory)(Place::Local("*payload->slot"@)),
                            rest: ""@,
                        },
                        Kept::Any => Called {
                            function: "payload->slot->vtable->drop"@,
                            subject: Datum::Text("payload->slot->state"@),
                            rest: ""@,
                        },
                    },
                )
            }
        }),
{
    broadcast use {c_meaning::run_then, c_meaning::run_nothing};

    reveal_with_fuel(c_meaning::test_of, 3);
}

/// Polling an awaitable polls its task once and returns its status. A value goes
/// to the caller, if it wants one, when there is one: the result of a finished
/// task, and the value that a task has yielded.
pub proof fn awaitables_poll_their_tasks(
    task_type: Seq<char>,
    poll_name: Seq<char>,
    return_type: Seq<char>,
    machine: Machine,
    world: World,
)
    ensures
        ({
            let r = c_meaning::run(
                await_poll_code(task_type, poll_name, return_type),
                machine,
                world,
            );
            let local = |name: Seq<char>| (machine.memory)(Place::Local(name));
            let own = |field: LogicalFieldId| (machine.memory)(Place::Own(field));
            let status = (world.returned)(machine.calls.len());
            let given = (r.machine.memory)(Place::Local("*("@ + return_type + " *)out_value"@));
            let wanted = return_type != "void"@ && local("out_value"@) != Datum::Text("NULL"@);
            if local("state"@) == Datum::Text("NULL"@) {
                r == (Run { machine, exit: Exit::Returns(Datum::Text("CR_POLL_ERROR"@)) })
            } else {
                &&& r.exit == Exit::Returns(status)
                &&& r.machine.calls == machine.calls.push(
                    Called {
                        function: poll_name,
                        subject: Datum::Text("("@ + task_type + " *)state"@),
                        rest: ", poll_context"@,
                    },
                )
                &&& wanted && status == Datum::Text("CR_POLL_READY"@) ==> given == own(
                    LogicalFieldId::Result,
                )
                &&& wanted && status == Datum::Text("CR_POLL_YIELDED"@) ==> given == own(
                    LogicalFieldId::Yielded,
                )
            }
        }),
{
    broadcast use {c_meaning::run_then, c_meaning::run_nothing};

    reveal_with_fuel(c_meaning::test_of, 3);
    wait_laws::statuses_differ();
    let target = "*("@ + return_type + " *)out_value"@;
    assert("state"@ != "task"@ && "status"@ != "task"@ && "out_value"@ != "task"@ && "out_value"@
        != "status"@ && target != "status"@ && target != "out_value"@ && target != "task"@) by {
        reveal_strlit("state");
        reveal_strlit("status");
        reveal_strlit("task");
        reveal_strlit("out_value");
        reveal_strlit("*(");
        reveal_strlit(" *)out_value");
        assert("state"@.len() == 5 && "status"@.len() == 6 && "task"@.len() == 4
            && "out_value"@.len() == 9);
        assert(target[0] == '*');
        assert("status"@[0] == 's' && "out_value"@[0] == 'o' && "task"@[0] == 't');
    }
}

} // verus!
