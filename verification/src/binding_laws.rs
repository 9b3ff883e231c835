//! What binding a task to a declaration does when it runs.

use vstd::prelude::*;

use crate::awaitable_code;
use crate::awaitable_laws;
use crate::awaitable_text_laws;
use crate::c_function_text;
use crate::c_meaning;
use crate::c_meaning::{Called, Datum, Machine, Place, Statement, Test, Value, World};
use crate::c_source;
use crate::c_source::TaskView;
use crate::context_layout::LogicalFieldId;
use crate::semantic::DeclarationId;
use crate::wait_code;
use crate::wait_code::Awaited;
use crate::wait_laws;
use crate::wait_text_laws;

verus! {

/// The task that a declaration binds.
pub open spec fn bound(declaration: DeclarationId, stem: Seq<char>, embedded: bool) -> Awaited {
    Awaited {
        holder: LogicalFieldId::Lifted(declaration),
        active: LogicalFieldId::BindingActive(declaration),
        stem,
        pointed: !embedded,
        accessors: false,
        owned: true,
        detail: ""@,
        missing: ""@,
    }
}

/// Code that ends the task that a declaration has bound before, if there is one,
/// and starts a new generation.
pub open spec fn rebind_code(
    declaration: DeclarationId,
    stem: Seq<char>,
    embedded: bool,
) -> Statement {
    c_meaning::both(
        c_meaning::when(
            Test::Holds(Value::Read(Place::Own(LogicalFieldId::BindingActive(declaration)))),
            wait_code::release(bound(declaration, stem, embedded)),
        ),
        Statement::Increment(Place::Own(LogicalFieldId::BindingGeneration(declaration))),
    )
}

/// Code that starts the task of a declaration.
pub open spec fn launch_code(
    declaration: DeclarationId,
    number: Seq<char>,
    stem: Seq<char>,
    embedded: bool,
    arguments: Seq<char>,
) -> Statement {
    let task = bound(declaration, stem, embedded);
    let create_error = "cr_binding_"@ + number + "_create_error"@;
    if embedded {
        Statement::Call(
            stem + "_init"@,
            wait_code::handle(task),
            if arguments == ""@ {
                ""@
            } else {
                ", "@ + arguments
            },
        )
    } else {
        c_meaning::both(
            wait_code::no_error(create_error),
            c_meaning::both(
                Statement::Create(
                    Place::Own(task.holder),
                    stem + "_create"@,
                    if arguments == ""@ {
                        ""@
                    } else {
                        arguments + ", "@
                    },
                    create_error,
                ),
                wait_code::unless_created(task, create_error),
            ),
        )
    }
}

/// What the cleanup of a binding keeps: where the task is, whether it is active,
/// and the generation that it was bound in.
pub open spec fn binding_record(task: TaskView, declaration: DeclarationId) -> Seq<char> {
    let value = c_source::path(task, LogicalFieldId::Lifted(declaration));
    let active = c_source::path(task, LogicalFieldId::BindingActive(declaration));
    let generation = c_source::path(task, LogicalFieldId::BindingGeneration(declaration));
    "{&"@ + value + ", &"@ + active + ", &"@ + generation + ", "@ + generation + "}"@
}

/// Code that registers the cleanup of a binding.
pub open spec fn register_code(
    task: TaskView,
    declaration: DeclarationId,
    number: Seq<char>,
    scope: Seq<char>,
    prefix: Seq<char>,
) -> Statement {
    let captured = "cr_binding_payload_"@ + number;
    let helper = prefix + "_cleanup"@;
    c_meaning::both(
        Statement::Store(
            Place::Own(LogicalFieldId::BindingActive(declaration)),
            Value::Text("true"@),
        ),
        c_meaning::both(
            Statement::Declare(
                prefix + "_cleanup_payload"@ + " "@ + captured,
                captured,
                Value::Text(binding_record(task, declaration)),
            ),
            Statement::Unless(
                "cr_cleanup_push"@,
                Value::Address(Place::Own(LogicalFieldId::Cleanups)),
                ", "@ + scope + "u, "@ + helper + ", &"@ + captured + ", sizeof("@ + captured
                    + ")"@,
                Box::new(
                    c_meaning::both(
                        Statement::Call(helper, Value::Address(Place::Local(captured)), ""@),
                        wait_code::fail("1002"@, "cleanup allocation failed"@),
                    ),
                ),
            ),
        ),
    )
}

/// Code that binds an awaitable of any make: the one before is dropped if there
/// is one, and the new one is checked.
pub open spec fn bind_code(
    task: TaskView,
    declaration: DeclarationId,
    initializer: Seq<char>,
    valued: bool,
    expected: Seq<char>,
) -> Statement {
    let value = c_source::path(task, LogicalFieldId::Lifted(declaration));
    c_meaning::both(
        Statement::CallAndStoreIf(
            Test::Holds(Value::Read(Place::Own(LogicalFieldId::BindingActive(declaration)))),
            value + ".vtable->drop"@,
            Value::Text(value + ".state"@),
            Place::Own(LogicalFieldId::BindingActive(declaration)),
            Value::Text("false"@),
        ),
        c_meaning::both(
            Statement::Increment(Place::Own(LogicalFieldId::BindingGeneration(declaration))),
            c_meaning::both(
                Statement::Store(
                    Place::Own(LogicalFieldId::Lifted(declaration)),
                    Value::Text(initializer),
                ),
                awaitable_code::check_code(value, valued, expected, true),
            ),
        ),
    )
}

/// How the fixed parts of the C are made up.
proof fn binding_literals()
    ensures
        "    if ("@ == "    "@ + "if ("@,
        "_drop(&"@ == "_drop"@ + "("@ + "&"@,
        ");\n"@ == ")"@ + ";\n"@,
        " = false;\n    }\n    "@ == " = "@ + "false"@ + ";\n"@ + "    "@ + "}\n"@ + "    "@,
        "++;\n"@ == "++"@ + ";\n"@,
        "_destroy("@ == "_destroy"@ + "("@,
        ");\n        "@ == ")"@ + ";\n"@ + "        "@,
        " = NULL;\n"@ == " = "@ + "NULL"@ + ";\n"@,
        "_init(&"@ == "_init"@ + "("@ + "&"@,
        "_create("@ == "_create"@ + "("@,
        "    cr_error "@ == "    "@ + "cr_error "@,
        " = {0, NULL};\n"@ == " = "@ + "{0, NULL}"@ + ";\n"@,
        " == NULL) {\n        "@ == " == "@ + "NULL"@ + ") {\n"@ + "        "@,
        " : (cr_error){1006, \"async task allocation failed\"};\n"@ == " : "@ + "(cr_error){"@ + "1006"@ + ", \""@ + "async task allocation failed"@ + "\"}"@ + ";\n"@,
        "        cr_cleanup_run_all(&"@ == "        "@ + "cr_cleanup_run_all"@ + "("@ + "&"@,
        " = CR_POLL_ERROR;\n        return "@ == " = "@ + "CR_POLL_ERROR"@ + ";\n"@ + "        "@ + "return "@,
        ";\n    }\n"@ == ";\n"@ + "    "@ + "}\n"@,
        " = true;\n"@ == " = "@ + "true"@ + ";\n"@,
        " = {&"@ == " = "@ + "{&"@,
        "};\n"@ == "}"@ + ";\n"@,
        "    if (!cr_cleanup_push(&"@ == "    "@ + "if (!"@ + "cr_cleanup_push"@ + "("@ + "&"@,
        "))) {\n"@ == ")"@ + ")"@ + ") {\n"@,
        "(&"@ == "("@ + "&"@,
        ".vtable->drop("@ == ".vtable->drop"@ + "("@,
        ".state); "@ == ".state"@ + ")"@ + "; "@,
        " = false; }\n"@ == " = "@ + "false"@ + "; }\n"@,
        "++;\n    "@ == "++"@ + ";\n"@ + "    "@,
{
    assert("    if ("@ =~= "    "@ + "if ("@) by {
        reveal_strlit("    if (");
        reveal_strlit("    ");
        reveal_strlit("if (");
    }
    assert("_drop(&"@ =~= "_drop"@ + "("@ + "&"@) by {
        reveal_strlit("_drop(&");
        reveal_strlit("_drop");
        reveal_strlit("(");
        reveal_strlit("&");
    }
    assert(");\n"@ =~= ")"@ + ";\n"@) by {
        reveal_strlit(");\n");
        reveal_strlit(")");
        reveal_strlit(";\n");
    }
    assert(" = false;\n    }\n    "@ =~= " = "@ + "false"@ + ";\n"@ + "    "@ + "}\n"@ + "    "@) by {
        reveal_strlit(" = false;\n    }\n    ");
        reveal_strlit(" = ");
        reveal_strlit("false");
        reveal_strlit(";\n");
        reveal_strlit("    ");
        reveal_strlit("}\n");
    }
    assert("++;\n"@ =~= "++"@ + ";\n"@) by {
        reveal_strlit("++;\n");
        reveal_strlit("++");
        reveal_strlit(";\n");
    }
    assert("_destroy("@ =~= "_destroy"@ + "("@) by {
        reveal_strlit("_destroy(");
        reveal_strlit("_destroy");
        reveal_strlit("(");
    }
    assert(");\n        "@ =~= ")"@ + ";\n"@ + "        "@) by {
        reveal_strlit(");\n        ");
        reveal_strlit(")");
        reveal_strlit(";\n");
        reveal_strlit("        ");
    }
    assert(" = NULL;\n"@ =~= " = "@ + "NULL"@ + ";\n"@) by {
        reveal_strlit(" = NULL;\n");
        reveal_strlit(" = ");
        reveal_strlit("NULL");
        reveal_strlit(";\n");
    }
    assert("_init(&"@ =~= "_init"@ + "("@ + "&"@) by {
        reveal_strlit("_init(&");
        reveal_strlit("_init");
        reveal_strlit("(");
        reveal_strlit("&");
    }
    assert("_create("@ =~= "_create"@ + "("@) by {
        reveal_strlit("_create(");
        reveal_strlit("_create");
        reveal_strlit("(");
    }
    assert("    cr_error "@ =~= "    "@ + "cr_error "@) by {
        reveal_strlit("    cr_error ");
        reveal_strlit("    ");
        reveal_strlit("cr_error ");
    }
    assert(" = {0, NULL};\n"@ =~= " = "@ + "{0, NULL}"@ + ";\n"@) by {
        reveal_strlit(" = {0, NULL};\n");
        reveal_strlit(" = ");
        reveal_strlit("{0, NULL}");
        reveal_strlit(";\n");
    }
    assert(" == NULL) {\n        "@ =~= " == "@ + "NULL"@ + ") {\n"@ + "        "@) by {
        reveal_strlit(" == NULL) {\n        ");
        reveal_strlit(" == ");
        reveal_strlit("NULL");
        reveal_strlit(") {\n");
        reveal_strlit("        ");
    }
    assert(" : (cr_error){1006, \"async task allocation failed\"};\n"@ =~= " : "@ + "(cr_error){"@ + "1006"@ + ", \""@ + "async task allocation failed"@ + "\"}"@ + ";\n"@) by {
        reveal_strlit(" : (cr_error){1006, \"async task allocation failed\"};\n");
        reveal_strlit(" : ");
        reveal_strlit("(cr_error){");
        reveal_strlit("1006");
        reveal_strlit(", \"");
        reveal_strlit("async task allocation failed");
        reveal_strlit("\"}");
        reveal_strlit(";\n");
    }
    assert("        cr_cleanup_run_all(&"@ =~= "        "@ + "cr_cleanup_run_all"@ + "("@ + "&"@) by {
        reveal_strlit("        cr_cleanup_run_all(&");
        reveal_strlit("        ");
        reveal_strlit("cr_cleanup_run_all");
        reveal_strlit("(");
        reveal_strlit("&");
    }
    assert(" = CR_POLL_ERROR;\n        return "@ =~= " = "@ + "CR_POLL_ERROR"@ + ";\n"@ + "        "@ + "return "@) by {
        reveal_strlit(" = CR_POLL_ERROR;\n        return ");
        reveal_strlit(" = ");
        reveal_strlit("CR_POLL_ERROR");
        reveal_strlit(";\n");
        reveal_strlit("        ");
        reveal_strlit("return ");
    }
    assert(";\n    }\n"@ =~= ";\n"@ + "    "@ + "}\n"@) by {
        reveal_strlit(";\n    }\n");
        reveal_strlit(";\n");
        reveal_strlit("    ");
        reveal_strlit("}\n");
    }
    assert(" = true;\n"@ =~= " = "@ + "true"@ + ";\n"@) by {
        reveal_strlit(" = true;\n");
        reveal_strlit(" = ");
        reveal_strlit("true");
        reveal_strlit(";\n");
    }
    assert(" = {&"@ =~= " = "@ + "{&"@) by {
        reveal_strlit(" = {&");
        reveal_strlit(" = ");
        reveal_strlit("{&");
    }
    assert("};\n"@ =~= "}"@ + ";\n"@) by {
        reveal_strlit("};\n");
        reveal_strlit("}");
        reveal_strlit(";\n");
    }
    assert("    if (!cr_cleanup_push(&"@ =~= "    "@ + "if (!"@ + "cr_cleanup_push"@ + "("@ + "&"@) by {
        reveal_strlit("    if (!cr_cleanup_push(&");
        reveal_strlit("    ");
        reveal_strlit("if (!");
        reveal_strlit("cr_cleanup_push");
        reveal_strlit("(");
        reveal_strlit("&");
    }
    assert("))) {\n"@ =~= ")"@ + ")"@ + ") {\n"@) by {
        reveal_strlit("))) {\n");
        reveal_strlit(")");
        reveal_strlit(") {\n");
    }
    assert("(&"@ =~= "("@ + "&"@) by {
        reveal_strlit("(&");
        reveal_strlit("(");
        reveal_strlit("&");
    }
    assert(".vtable->drop("@ =~= ".vtable->drop"@ + "("@) by {
        reveal_strlit(".vtable->drop(");
        reveal_strlit(".vtable->drop");
        reveal_strlit("(");
    }
    assert(".state); "@ =~= ".state"@ + ")"@ + "; "@) by {
        reveal_strlit(".state); ");
        reveal_strlit(".state");
        reveal_strlit(")");
        reveal_strlit("; ");
    }
    assert(" = false; }\n"@ =~= " = "@ + "false"@ + "; }\n"@) by {
        reveal_strlit(" = false; }\n");
        reveal_strlit(" = ");
        reveal_strlit("false");
        reveal_strlit("; }\n");
    }
    assert("++;\n    "@ =~= "++"@ + ";\n"@ + "    "@) by {
        reveal_strlit("++;\n    ");
        reveal_strlit("++");
        reveal_strlit(";\n");
        reveal_strlit("    ");
    }
}

proof fn embedded_rebinding_is_written(
    out: Seq<char>,
    task: TaskView,
    declaration: DeclarationId,
    stem: Seq<char>,
)
    ensures
        ({
            let value = c_source::path(task, LogicalFieldId::Lifted(declaration));
            let  active = c_source::path(task, LogicalFieldId::BindingActive(declaration));
            let  generation = c_source::path(task, LogicalFieldId::BindingGeneration(declaration));
            c_meaning::same(
                out + "    if ("@ + active + ") {\n"@ + "        "@ + stem + "_drop(&"@ + value + ");\n"@ + "        "@ + active + " = false;\n    }\n    "@ + generation + "++;\n"@,
                c_meaning::written(out, rebind_code(declaration, stem, true), task, "    "@),
            )
        }),
{
    broadcast use {
        c_meaning::joined,
        c_meaning::nothing_behind,
        c_meaning::written_then,
        c_meaning::written_if_in_function,
        c_meaning::written_unless_in_function,
        c_meaning::written_nothing,
    };

    binding_literals();
}

proof fn boxed_rebinding_is_written(
    out: Seq<char>,
    task: TaskView,
    declaration: DeclarationId,
    stem: Seq<char>,
)
    ensures
        ({
            let value = c_source::path(task, LogicalFieldId::Lifted(declaration));
            let  active = c_source::path(task, LogicalFieldId::BindingActive(declaration));
            let  generation = c_source::path(task, LogicalFieldId::BindingGeneration(declaration));
            c_meaning::same(
                out + "    if ("@ + active + ") {\n"@ + "        "@ + stem + "_destroy("@ + value + ");\n        "@ + value + " = NULL;\n"@ + "        "@ + active + " = false;\n    }\n    "@ + generation + "++;\n"@,
                c_meaning::written(out, rebind_code(declaration, stem, false), task, "    "@),
            )
        }),
{
    broadcast use {
        c_meaning::joined,
        c_meaning::nothing_behind,
        c_meaning::written_then,
        c_meaning::written_if_in_function,
        c_meaning::written_unless_in_function,
        c_meaning::written_nothing,
    };

    binding_literals();
}

/// The C that gives up the task that a binding holds is that of rebinding.
pub proof fn rebinding_is_written(
    out: Seq<char>,
    task: TaskView,
    declaration: DeclarationId,
    stem: Seq<char>,
    embedded: bool,
)
    ensures
        c_meaning::same(
            c_function_text::binding_release_text(out, task, declaration, stem, embedded),
            c_meaning::written(out, rebind_code(declaration, stem, embedded), task, "    "@),
        ),
{
    if embedded {
        embedded_rebinding_is_written(out, task, declaration, stem);
    } else {
        boxed_rebinding_is_written(out, task, declaration, stem);
    }
}

proof fn embedded_launch_is_written(
    out: Seq<char>,
    task: TaskView,
    declaration: DeclarationId,
    number: Seq<char>,
    stem: Seq<char>,
    arguments: Seq<char>,
)
    ensures
        ({
            let value = c_source::path(task, LogicalFieldId::Lifted(declaration));
            let  comma = if arguments == ""@ { ""@ } else { ", "@ };
            c_meaning::same(
                out + "    "@ + stem + "_init(&"@ + value + comma + arguments + ");\n"@,
                c_meaning::written(out, launch_code(declaration, number, stem, true, arguments), task, "    "@),
            )
        }),
{
    broadcast use {
        c_meaning::joined,
        c_meaning::nothing_behind,
        c_meaning::written_then,
        c_meaning::written_if_in_function,
        c_meaning::written_unless_in_function,
        c_meaning::written_nothing,
    };

    binding_literals();
}

proof fn creation_is_written(
    out: Seq<char>,
    task: TaskView,
    declaration: DeclarationId,
    stem: Seq<char>,
    arguments: Seq<char>,
    create_error: Seq<char>,
)
    ensures
        ({
            let value = c_source::path(task, LogicalFieldId::Lifted(declaration));
            let  comma = if arguments == ""@ { ""@ } else { ", "@ };
            c_meaning::same(
                out + "    "@ + value + " = "@ + stem + "_create("@ + arguments + comma + "&"@ + create_error + ");\n"@,
                c_meaning::written(out, Statement::Create(Place::Own(LogicalFieldId::Lifted(declaration)), stem + "_create"@, if arguments == ""@ { ""@ } else { arguments + ", "@ }, create_error), task, "    "@),
            )
        }),
{
    broadcast use {
        c_meaning::joined,
        c_meaning::nothing_behind,
        c_meaning::written_then,
        c_meaning::written_if_in_function,
        c_meaning::written_unless_in_function,
        c_meaning::written_nothing,
    };

    binding_literals();
}

proof fn creation_place_is_written(
    out: Seq<char>,
    task: TaskView,
    create_error: Seq<char>,
)
    ensures
        ({
            c_meaning::same(
                out + "    cr_error "@ + create_error + " = {0, NULL};\n"@,
                c_meaning::written(out, wait_code::no_error(create_error), task, "    "@),
            )
        }),
{
    broadcast use {
        c_meaning::joined,
        c_meaning::nothing_behind,
        c_meaning::written_then,
        c_meaning::written_if_in_function,
        c_meaning::written_unless_in_function,
        c_meaning::written_nothing,
    };

    binding_literals();
}

proof fn creation_check_is_written(
    out: Seq<char>,
    task: TaskView,
    declaration: DeclarationId,
    stem: Seq<char>,
    create_error: Seq<char>,
)
    ensures
        ({
            let value = c_source::path(task, LogicalFieldId::Lifted(declaration));
            let  cleanups = c_source::path(task, LogicalFieldId::Cleanups);
            let  error = c_source::path(task, LogicalFieldId::Error);
            let  status = c_source::path(task, LogicalFieldId::Status);
            c_meaning::same(
                out + "    if ("@ + value + " == NULL) {\n        "@ + error + " = "@ + create_error + ".code != 0 ? "@ + create_error + " : (cr_error){1006, \"async task allocation failed\"};\n"@ + "        cr_cleanup_run_all(&"@ + cleanups + ");\n        "@ + status + " = CR_POLL_ERROR;\n        return "@ + status + ";\n    }\n"@,
                c_meaning::written(out, wait_code::unless_created(bound(declaration, stem, false), create_error), task, "    "@),
            )
        }),
{
    broadcast use {
        c_meaning::joined,
        c_meaning::nothing_behind,
        c_meaning::written_then,
        c_meaning::written_if_in_function,
        c_meaning::written_unless_in_function,
        c_meaning::written_nothing,
    };

    binding_literals();
}

/// The C that starts the task of a binding is that of launching it.
pub proof fn launching_is_written(
    out: Seq<char>,
    task: TaskView,
    declaration: DeclarationId,
    number: Seq<char>,
    stem: Seq<char>,
    embedded: bool,
    arguments: Seq<char>,
)
    ensures
        c_meaning::same(
            c_function_text::binding_init_text(
                out,
                task,
                declaration,
                number,
                stem,
                embedded,
                arguments,
            ),
            c_meaning::written(
                out,
                launch_code(declaration, number, stem, embedded, arguments),
                task,
                "    "@,
            ),
        ),
{
    broadcast use c_meaning::written_then;

    if embedded {
        embedded_launch_is_written(out, task, declaration, number, stem, arguments);
    } else {
        let create_error = "cr_binding_"@ + number + "_create_error"@;
        let w1 = c_meaning::written(out, wait_code::no_error(create_error), task, "    "@);
        let w2 = c_meaning::written(
            w1,
            Statement::Create(
                Place::Own(LogicalFieldId::Lifted(declaration)),
                stem + "_create"@,
                if arguments == ""@ {
                    ""@
                } else {
                    arguments + ", "@
                },
                create_error,
            ),
            task,
            "    "@,
        );
        creation_place_is_written(out, task, create_error);
        creation_is_written(w1, task, declaration, stem, arguments, create_error);
        creation_check_is_written(w2, task, declaration, stem, create_error);
    }
}

proof fn record_is_written(
    out: Seq<char>,
    task: TaskView,
    declaration: DeclarationId,
    prefix: Seq<char>,
    captured: Seq<char>,
)
    ensures
        ({
            let value = c_source::path(task, LogicalFieldId::Lifted(declaration));
            let  active = c_source::path(task, LogicalFieldId::BindingActive(declaration));
            let  generation = c_source::path(task, LogicalFieldId::BindingGeneration(declaration));
            c_meaning::same(
                out + "    "@ + active + " = true;\n"@ + "    "@ + (prefix + "_cleanup_payload"@) + " "@ + captured + " = {&"@ + value + ", &"@ + active + ", &"@ + generation + ", "@ + generation + "};\n"@,
                c_meaning::written(out, c_meaning::both(Statement::Store(Place::Own(LogicalFieldId::BindingActive(declaration)), Value::Text("true"@)), Statement::Declare(prefix + "_cleanup_payload"@ + " "@ + captured, captured, Value::Text(binding_record(task, declaration)))), task, "    "@),
            )
        }),
{
    broadcast use {
        c_meaning::joined,
        c_meaning::nothing_behind,
        c_meaning::written_then,
        c_meaning::written_if_in_function,
        c_meaning::written_unless_in_function,
        c_meaning::written_nothing,
    };

    binding_literals();
}

proof fn refused_record_is_written(
    out: Seq<char>,
    task: TaskView,
    helper: Seq<char>,
    captured: Seq<char>,
    scope: Seq<char>,
)
    ensures
        ({
            let cleanups = c_source::path(task, LogicalFieldId::Cleanups);
            c_meaning::same(
                out + "    if (!cr_cleanup_push(&"@ + cleanups + ", "@ + scope + "u, "@ + helper
                    + ", &"@ + captured + ", sizeof("@ + captured + "))) {\n"@ + "        "@ + helper
                    + "(&"@ + captured + ");\n"@,
                c_meaning::written(
                    out + "    "@ + "if (!"@ + c_meaning::call_text(
                        "cr_cleanup_push"@,
                        Value::Address(Place::Own(LogicalFieldId::Cleanups)),
                        ", "@ + scope + "u, "@ + helper + ", &"@ + captured + ", sizeof("@
                            + captured + ")"@,
                        task,
                    ) + ") {\n"@,
                    Statement::Call(helper, Value::Address(Place::Local(captured)), ""@),
                    task,
                    "        "@,
                ),
            )
        }),
{
    broadcast use {c_meaning::joined, c_meaning::nothing_behind};

    binding_literals();
}

/// The C that registers the cleanup of a binding is that of registering it.
pub proof fn registering_is_written(
    out: Seq<char>,
    task: TaskView,
    declaration: DeclarationId,
    number: Seq<char>,
    scope: Seq<char>,
    stem: Seq<char>,
    field: Seq<char>,
)
    ensures
        c_meaning::same(
            c_function_text::binding_register_text(
                out,
                task,
                declaration,
                number,
                scope,
                stem,
                field,
            ),
            c_meaning::written(
                out,
                register_code(task, declaration, number, scope, stem + "_"@ + field),
                task,
                "    "@,
            ),
        ),
{
    broadcast use {
        c_meaning::written_then,
        c_meaning::written_unless_in_function,
        awaitable_text_laws::block_end,
    };

    let captured = "cr_binding_payload_"@ + number;
    let prefix = stem + "_"@ + field;
    let helper = prefix + "_cleanup"@;
    record_is_written(out, task, declaration, prefix, captured);
    let w = c_meaning::written(
        out,
        c_meaning::both(
            Statement::Store(
                Place::Own(LogicalFieldId::BindingActive(declaration)),
                Value::Text("true"@),
            ),
            Statement::Declare(
                prefix + "_cleanup_payload"@ + " "@ + captured,
                captured,
                Value::Text(binding_record(task, declaration)),
            ),
        ),
        task,
        "    "@,
    );
    refused_record_is_written(w, task, helper, captured, scope);
    wait_text_laws::failure_is_written(
        w + "    if (!cr_cleanup_push(&"@ + c_source::path(task, LogicalFieldId::Cleanups) + ", "@
            + scope + "u, "@ + helper + ", &"@ + captured + ", sizeof("@ + captured + "))) {\n"@
            + "        "@ + helper + "(&"@ + captured + ");\n"@,
        task,
        "1002"@,
        "cleanup allocation failed"@,
        "        "@,
    );
}

proof fn replacing_is_written(
    out: Seq<char>,
    task: TaskView,
    declaration: DeclarationId,
    initializer: Seq<char>,
)
    ensures
        ({
            let value = c_source::path(task, LogicalFieldId::Lifted(declaration));
            let  active = c_source::path(task, LogicalFieldId::BindingActive(declaration));
            let  generation = c_source::path(task, LogicalFieldId::BindingGeneration(declaration));
            c_meaning::same(
                out + "    if ("@ + active + ") { "@ + value + ".vtable->drop("@ + value + ".state); "@ + active + " = false; }\n"@ + "    "@ + generation + "++;\n    "@ + value + " = "@ + initializer + ";\n"@,
                c_meaning::written(out, c_meaning::both(Statement::CallAndStoreIf(Test::Holds(Value::Read(Place::Own(LogicalFieldId::BindingActive(declaration)))), value + ".vtable->drop"@, Value::Text(value + ".state"@), Place::Own(LogicalFieldId::BindingActive(declaration)), Value::Text("false"@)), c_meaning::both(Statement::Increment(Place::Own(LogicalFieldId::BindingGeneration(declaration))), Statement::Store(Place::Own(LogicalFieldId::Lifted(declaration)), Value::Text(initializer)))), task, "    "@),
            )
        }),
{
    broadcast use {
        c_meaning::joined,
        c_meaning::nothing_behind,
        c_meaning::written_then,
        c_meaning::written_if_in_function,
        c_meaning::written_unless_in_function,
        c_meaning::written_nothing,
    };

    binding_literals();
}

/// The C that binds an awaitable is that of binding it.
pub proof fn binding_is_written(
    out: Seq<char>,
    task: TaskView,
    declaration: DeclarationId,
    initializer: Seq<char>,
    valued: bool,
    expected: Seq<char>,
)
    ensures
        c_meaning::same(
            c_function_text::awaitable_binding_text(
                out,
                task,
                declaration,
                initializer,
                valued,
                expected,
            ),
            c_meaning::written(
                out,
                bind_code(task, declaration, initializer, valued, expected),
                task,
                "    "@,
            ),
        ),
{
    broadcast use c_meaning::written_then;

    let value = c_source::path(task, LogicalFieldId::Lifted(declaration));
    let active = c_source::path(task, LogicalFieldId::BindingActive(declaration));
    let generation = c_source::path(task, LogicalFieldId::BindingGeneration(declaration));
    replacing_is_written(out, task, declaration, initializer);
    awaitable_text_laws::check_is_written(
        out + "    if ("@ + active + ") { "@ + value + ".vtable->drop("@ + value + ".state); "@
            + active + " = false; }\n"@ + "    "@ + generation + "++;\n    "@ + value + " = "@
            + initializer + ";\n"@,
        task,
        value,
        valued,
        expected,
        "    "@,
        true,
    );
}

/// Binding a task again ends the one before, once, if it is active, and each
/// binding has a generation of its own.
pub proof fn rebinding_ends_the_task_before(
    declaration: DeclarationId,
    stem: Seq<char>,
    embedded: bool,
    machine: Machine,
    world: World,
)
    ensures
        ({
            let r = c_meaning::run(rebind_code(declaration, stem, embedded), machine, world);
            let task = bound(declaration, stem, embedded);
            let generation = Place::Own(LogicalFieldId::BindingGeneration(declaration));
            &&& r.exit is Falls
            &&& (r.machine.memory)(generation) == c_meaning::next((machine.memory)(generation))
            &&& if (machine.memory)(Place::Own(task.active)) == c_meaning::yes() {
                r.machine.calls == wait_laws::ended(task, machine) && wait_laws::inactive(
                    task,
                    r.machine,
                )
            } else {
                r.machine.calls == machine.calls
            }
        }),
{
    broadcast use {c_meaning::run_then, c_meaning::run_nothing, c_meaning::run_if};

}

/// A bound task starts with its arguments, by one call: in its place if it is
/// embedded, and on the heap if it isn't. If nothing could be created, the
/// running task fails with the error that came back, or with one of its own if
/// none did.
pub proof fn bound_tasks_start(
    declaration: DeclarationId,
    number: Seq<char>,
    stem: Seq<char>,
    embedded: bool,
    arguments: Seq<char>,
    machine: Machine,
    world: World,
)
    ensures
        ({
            let r = c_meaning::run(
                launch_code(declaration, number, stem, embedded, arguments),
                machine,
                world,
            );
            let n = machine.calls.len();
            let holder = Place::Own(LogicalFieldId::Lifted(declaration));
            let create_error = Place::Local("cr_binding_"@ + number + "_create_error"@);
            let found = (world.left)(n, create_error);
            let created = machine.calls.push(
                Called {
                    function: stem + "_create"@,
                    subject: Datum::Pointer(create_error),
                    rest: if arguments == ""@ {
                        ""@
                    } else {
                        arguments + ", "@
                    },
                },
            );
            if embedded {
                &&& r.exit is Falls
                &&& r.machine.calls == machine.calls.push(
                    Called {
                        function: stem + "_init"@,
                        subject: Datum::Pointer(holder),
                        rest: if arguments == ""@ {
                            ""@
                        } else {
                            ", "@ + arguments
                        },
                    },
                )
            } else if (world.returned)(n) == Datum::Text("NULL"@) {
                &&& wait_laws::stopped(r, "CR_POLL_ERROR"@)
                &&& (r.machine.memory)(Place::Own(LogicalFieldId::Error)) == if found is Failure {
                    found
                } else {
                    Datum::Failure("1006"@, "async task allocation failed"@)
                }
                &&& r.machine.calls == wait_laws::cleaned(created)
            } else {
                &&& r.exit is Falls
                &&& (r.machine.memory)(holder) == (world.returned)(n)
                &&& r.machine.calls == created
            }
        }),
{
    broadcast use {c_meaning::run_then, c_meaning::run_nothing, c_meaning::run_if};

    if !embedded {
        let create_error = "cr_binding_"@ + number + "_create_error"@;
        let m1 = c_meaning::run(wait_code::no_error(create_error), machine, world).machine;
        let m2 = c_meaning::run(
            Statement::Create(
                Place::Own(LogicalFieldId::Lifted(declaration)),
                stem + "_create"@,
                if arguments == ""@ {
                    ""@
                } else {
                    arguments + ", "@
                },
                create_error,
            ),
            m1,
            world,
        ).machine;
        let m3 = c_meaning::stored(
            m2,
            Place::Own(LogicalFieldId::Error),
            c_meaning::value_of(
                Value::Detailed(create_error, "1006"@, "async task allocation failed"@),
                m2,
            ),
        );
        wait_laws::giving_up_stops("CR_POLL_ERROR"@, m3, world);
    }
}

/// A bound task is active, and its cleanup is kept for the scope of its
/// declaration, with the generation it was bound in. If the cleanup can't be
/// kept, it is done at once and the running task fails.
pub proof fn bindings_are_registered(
    task: TaskView,
    declaration: DeclarationId,
    number: Seq<char>,
    scope: Seq<char>,
    prefix: Seq<char>,
    machine: Machine,
    world: World,
)
    ensures
        ({
            let r = c_meaning::run(
                register_code(task, declaration, number, scope, prefix),
                machine,
                world,
            );
            let n = machine.calls.len();
            let captured = "cr_binding_payload_"@ + number;
            let pushed = machine.calls.push(
                Called {
                    function: "cr_cleanup_push"@,
                    subject: Datum::Pointer(Place::Own(LogicalFieldId::Cleanups)),
                    rest: ", "@ + scope + "u, "@ + (prefix + "_cleanup"@) + ", &"@ + captured
                        + ", sizeof("@ + captured + ")"@,
                },
            );
            &&& (r.machine.memory)(Place::Own(LogicalFieldId::BindingActive(declaration)))
                == c_meaning::yes()
            &&& if (world.returned)(n) == c_meaning::yes() {
                &&& r.exit is Falls
                &&& r.machine.calls == pushed
                &&& (r.machine.memory)(Place::Local(captured)) == Datum::Text(
                    binding_record(task, declaration),
                )
            } else {
                &&& wait_laws::stopped(r, "CR_POLL_ERROR"@)
                &&& (r.machine.memory)(Place::Own(LogicalFieldId::Error)) == Datum::Failure(
                    "1002"@,
                    "cleanup allocation failed"@,
                )
                &&& r.machine.calls == wait_laws::cleaned(
                    pushed.push(
                        Called {
                            function: prefix + "_cleanup"@,
                            subject: Datum::Pointer(Place::Local(captured)),
                            rest: ""@,
                        },
                    ),
                )
            }
        }),
{
    broadcast use {c_meaning::run_then, c_meaning::run_nothing, c_meaning::run_unless};

    let captured = "cr_binding_payload_"@ + number;
    let helper = prefix + "_cleanup"@;
    let m1 = c_meaning::stored(
        machine,
        Place::Own(LogicalFieldId::BindingActive(declaration)),
        c_meaning::yes(),
    );
    let m2 = c_meaning::stored(
        m1,
        Place::Local(captured),
        Datum::Text(binding_record(task, declaration)),
    );
    let m3 = c_meaning::called(
        m2,
        "cr_cleanup_push"@,
        Value::Address(Place::Own(LogicalFieldId::Cleanups)),
        ", "@ + scope + "u, "@ + helper + ", &"@ + captured + ", sizeof("@ + captured + ")"@,
        world,
    );
    let m4 = c_meaning::called(m3, helper, Value::Address(Place::Local(captured)), ""@, world);
    wait_laws::failing_stops("1002"@, "cleanup allocation failed"@, m4, world);
}

/// Binding an awaitable of any make drops the one before, if it is active, starts
/// a new generation, and checks the new one.
pub proof fn awaitables_are_bound(
    task: TaskView,
    declaration: DeclarationId,
    initializer: Seq<char>,
    valued: bool,
    expected: Seq<char>,
    machine: Machine,
    world: World,
)
    ensures
        ({
            let r = c_meaning::run(
                bind_code(task, declaration, initializer, valued, expected),
                machine,
                world,
            );
            let value = c_source::path(task, LogicalFieldId::Lifted(declaration));
            let generation = Place::Own(LogicalFieldId::BindingGeneration(declaration));
            let active = Place::Own(LogicalFieldId::BindingActive(declaration));
            let before = if (machine.memory)(active) == c_meaning::yes() {
                c_meaning::stored(
                    Machine {
                        memory: machine.memory,
                        calls: machine.calls.push(awaitable_laws::drop_call(value)),
                    },
                    active,
                    Datum::Text("false"@),
                )
            } else {
                machine
            };
            exists|m: Machine|
                {
                    &&& r == #[trigger] c_meaning::run(
                        awaitable_code::check_code(value, valued, expected, true),
                        m,
                        world,
                    )
                    &&& m.calls == before.calls
                    &&& (m.memory)(Place::Own(LogicalFieldId::Lifted(declaration)))
                        == Datum::Text(initializer)
                    &&& (m.memory)(generation) == c_meaning::next((machine.memory)(generation))
                    &&& (m.memory)(active) == (before.memory)(active)
                }
        }),
{
    broadcast use {c_meaning::run_then, c_meaning::run_nothing};

    let value = c_source::path(task, LogicalFieldId::Lifted(declaration));
    let active = Place::Own(LogicalFieldId::BindingActive(declaration));
    let m1 = c_meaning::run(
        Statement::CallAndStoreIf(
            Test::Holds(Value::Read(active)),
            value + ".vtable->drop"@,
            Value::Text(value + ".state"@),
            active,
            Value::Text("false"@),
        ),
        machine,
        world,
    ).machine;
    let m2 = c_meaning::changed(m1, Place::Own(LogicalFieldId::BindingGeneration(declaration)));
    let m3 = c_meaning::stored(
        m2,
        Place::Own(LogicalFieldId::Lifted(declaration)),
        Datum::Text(initializer),
    );
    assert(c_meaning::run(
        bind_code(task, declaration, initializer, valued, expected),
        machine,
        world,
    ) == c_meaning::run(awaitable_code::check_code(value, valued, expected, true), m3, world));
}

} // verus!
