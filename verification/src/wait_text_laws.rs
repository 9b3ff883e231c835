//! The C of suspensions, taken apart into statements.

use vstd::prelude::*;

use crate::await_plan::ChildInstanceId;
use crate::c_expression::SceneView;
use crate::c_instruction::FunctionView;
use crate::c_meaning;
use crate::c_meaning::{Place, Statement, Value};
use crate::c_runtime_text;
use crate::c_source;
use crate::c_source::TaskView;
use crate::c_static_plan::CalleeView;
use crate::c_suspend;
use crate::c_symbols;
use crate::c_terminator;
use crate::context_layout::LogicalFieldId;
use crate::semantic::{AwaitSlotId, DeclarationId, HirExpr, ScopeId};
use crate::symbol_index::AsyncParameter;
use crate::wait_code;
use crate::wait_code::Awaited;

verus! {

/// The C that ends a task with an error is that of a failure.
pub proof fn failure_is_written(out: Seq<char>, task: TaskView, code: Seq<char>, message: Seq<char>, indent: Seq<char>)
    ensures
        c_runtime_text::async_error_at_text(out, task, code, message, indent)
            == c_meaning::written(out, wait_code::fail(code, message), task, indent),
{
    broadcast use {
        c_meaning::joined,
        c_meaning::nothing_behind,
        c_meaning::written_then,
        c_meaning::written_if_in_function,
        c_meaning::written_nothing,
    };
    wait_literals();
}

/// How the fixed parts of the C are made up.
proof fn wait_literals()
    ensures
        "    if ("@ == "    "@ + "if ("@,
        " == CR_POLL_PENDING) return "@ == " == "@ + "CR_POLL_PENDING"@ + ") return "@,
        "_init(&"@ == "_init"@ + "("@ + "&"@,
        ");\n        "@ == ")"@ + ";\n"@ + "        "@,
        " = true;\n    }\n"@ == " = "@ + "true"@ + ";\n"@ + "    "@ + "}\n"@,
        "u;\n"@ == "u"@ + ";\n"@,
        "    cr_poll_status "@ == "    "@ + "cr_poll_status "@,
        "_poll(&"@ == "_poll"@ + "("@ + "&"@,
        ", poll_context);\n"@ == ", poll_context"@ + ")"@ + ";\n"@,
        " == CR_POLL_READY) {\n"@ == " == "@ + "CR_POLL_READY"@ + ") {\n"@,
        ".result;\n"@ == "."@ + "result"@ + ";\n"@,
        "_drop(&"@ == "_drop"@ + "("@ + "&"@,
        " = false;\n        goto cr_b"@ == " = "@ + "false"@ + ";\n"@ + "        "@ + "goto cr_b"@,
        ";\n    }\n"@ == ";\n"@ + "    "@ + "}\n"@,
        " == CR_POLL_ERROR) {\n        "@ == " == "@ + "CR_POLL_ERROR"@ + ") {\n"@ + "        "@,
        ".error;\n"@ == "."@ + "error"@ + ";\n"@,
        " = false;\n        cr_cleanup_run_all(&"@ == " = "@ + "false"@ + ";\n"@ + "        "@ + "cr_cleanup_run_all"@ + "("@ + "&"@,
        ");\n"@ == ")"@ + ";\n"@,
        " = CR_POLL_ERROR;\n        return "@ == " = "@ + "CR_POLL_ERROR"@ + ";\n"@ + "        "@ + "return "@,
        " == CR_POLL_CANCELED) {\n"@ == " == "@ + "CR_POLL_CANCELED"@ + ") {\n"@,
        " = CR_POLL_CANCELED;\n        return "@ == " = "@ + "CR_POLL_CANCELED"@ + ";\n"@ + "        "@ + "return "@,
        " == CR_POLL_YIELDED) {\n"@ == " == "@ + "CR_POLL_YIELDED"@ + ") {\n"@,
        ".yielded;\n        "@ == "."@ + "yielded"@ + ";\n"@ + "        "@,
        " = CR_POLL_YIELDED;\n        return "@ == " = "@ + "CR_POLL_YIELDED"@ + ";\n"@ + "        "@ + "return "@,
        "    }\n"@ == "    "@ + "}\n"@,
        " = false;\n"@ == " = "@ + "false"@ + ";\n"@,
        ");\n    "@ == ")"@ + ";\n"@ + "    "@,
        "        cr_error "@ == "        "@ + "cr_error "@,
        " = {0, NULL};\n"@ == " = "@ + "{0, NULL}"@ + ";\n"@,
        "_create("@ == "_create"@ + "("@,
        "        if ("@ == "        "@ + "if ("@,
        " == NULL) {\n            "@ == " == "@ + "NULL"@ + ") {\n"@ + "            "@,
        " : (cr_error){1006, \"async task allocation failed\"};\n"@ == " : "@ + "(cr_error){"@ + "1006"@ + ", \""@ + "async task allocation failed"@ + "\"}"@ + ";\n"@,
        "            cr_cleanup_run_all(&"@ == "            "@ + "cr_cleanup_run_all"@ + "("@ + "&"@,
        ");\n            "@ == ")"@ + ";\n"@ + "            "@,
        " = CR_POLL_ERROR;\n            return "@ == " = "@ + "CR_POLL_ERROR"@ + ";\n"@ + "            "@ + "return "@,
        ";\n        }\n        "@ == ";\n"@ + "        "@ + "}\n"@ + "        "@,
        "_poll("@ == "_poll"@ + "("@,
        "->result;\n"@ == "->"@ + "result"@ + ";\n"@,
        "_destroy("@ == "_destroy"@ + "("@,
        " = NULL;\n        "@ == " = "@ + "NULL"@ + ";\n"@ + "        "@,
        "        goto cr_b"@ == "        "@ + "goto cr_b"@,
        " = *"@ == " = "@ + "*"@,
        "_result("@ == "_"@ + "result"@ + "("@,
        " == CR_POLL_ERROR) {\n"@ == " == "@ + "CR_POLL_ERROR"@ + ") {\n"@,
        "->error;\n"@ == "->"@ + "error"@ + ";\n"@,
        "        cr_cleanup_run_all(&"@ == "        "@ + "cr_cleanup_run_all"@ + "("@ + "&"@,
        "        const cr_error *"@ == "        "@ + "const cr_error *"@,
        "_error("@ == "_"@ + "error"@ + "("@,
        " : (cr_error){CR_ERROR_MISSING_CHILD_ERROR, \"boxed child error without details\"};\n"@ == " : "@ + "(cr_error){"@ + "CR_ERROR_MISSING_CHILD_ERROR"@ + ", \""@ + "boxed child error without details"@ + "\"}"@ + ";\n"@,
        "->yielded;\n"@ == "->"@ + "yielded"@ + ";\n"@,
        "_yielded("@ == "_"@ + "yielded"@ + "("@,
        " = NULL;\n    "@ == " = "@ + "NULL"@ + ";\n"@ + "    "@,
        "    if (!"@ == "    "@ + "if ("@ + "!"@,
        "result;\n"@ == "result"@ + ";\n"@,
        "error;\n"@ == "error"@ + ";\n"@,
        " : (cr_error){CR_ERROR_MISSING_CHILD_ERROR, \"boxed binding error without details\"};\n"@ == " : "@ + "(cr_error){"@ + "CR_ERROR_MISSING_CHILD_ERROR"@ + ", \""@ + "boxed binding error without details"@ + "\"}"@ + ";\n"@,
        "yielded;\n"@ == "yielded"@ + ";\n"@,
        " = (cr_error){"@ == " = "@ + "(cr_error){"@,
        "\"};\n"@ == "\"}"@ + ";\n"@,
        "cr_cleanup_run_all(&"@ == "cr_cleanup_run_all"@ + "("@ + "&"@,
        " = CR_POLL_ERROR;\n"@ == " = "@ + "CR_POLL_ERROR"@ + ";\n"@,
        "if (!"@ == "if ("@ + "!"@,
{
    assert("    if ("@ =~= "    "@ + "if ("@) by {
        reveal_strlit("    if (");
        reveal_strlit("    ");
        reveal_strlit("if (");
    }
    assert(" == CR_POLL_PENDING) return "@ =~= " == "@ + "CR_POLL_PENDING"@ + ") return "@) by {
        reveal_strlit(" == CR_POLL_PENDING) return ");
        reveal_strlit(" == ");
        reveal_strlit("CR_POLL_PENDING");
        reveal_strlit(") return ");
    }
    assert("_init(&"@ =~= "_init"@ + "("@ + "&"@) by {
        reveal_strlit("_init(&");
        reveal_strlit("_init");
        reveal_strlit("(");
        reveal_strlit("&");
    }
    assert(");\n        "@ =~= ")"@ + ";\n"@ + "        "@) by {
        reveal_strlit(");\n        ");
        reveal_strlit(")");
        reveal_strlit(";\n");
        reveal_strlit("        ");
    }
    assert(" = true;\n    }\n"@ =~= " = "@ + "true"@ + ";\n"@ + "    "@ + "}\n"@) by {
        reveal_strlit(" = true;\n    }\n");
        reveal_strlit(" = ");
        reveal_strlit("true");
        reveal_strlit(";\n");
        reveal_strlit("    ");
        reveal_strlit("}\n");
    }
    assert("u;\n"@ =~= "u"@ + ";\n"@) by {
        reveal_strlit("u;\n");
        reveal_strlit("u");
        reveal_strlit(";\n");
    }
    assert("    cr_poll_status "@ =~= "    "@ + "cr_poll_status "@) by {
        reveal_strlit("    cr_poll_status ");
        reveal_strlit("    ");
        reveal_strlit("cr_poll_status ");
    }
    assert("_poll(&"@ =~= "_poll"@ + "("@ + "&"@) by {
        reveal_strlit("_poll(&");
        reveal_strlit("_poll");
        reveal_strlit("(");
        reveal_strlit("&");
    }
    assert(", poll_context);\n"@ =~= ", poll_context"@ + ")"@ + ";\n"@) by {
        reveal_strlit(", poll_context);\n");
        reveal_strlit(", poll_context");
        reveal_strlit(")");
        reveal_strlit(";\n");
    }
    assert(" == CR_POLL_READY) {\n"@ =~= " == "@ + "CR_POLL_READY"@ + ") {\n"@) by {
        reveal_strlit(" == CR_POLL_READY) {\n");
        reveal_strlit(" == ");
        reveal_strlit("CR_POLL_READY");
        reveal_strlit(") {\n");
    }
    assert(".result;\n"@ =~= "."@ + "result"@ + ";\n"@) by {
        reveal_strlit(".result;\n");
        reveal_strlit(".");
        reveal_strlit("result");
        reveal_strlit(";\n");
    }
    assert("_drop(&"@ =~= "_drop"@ + "("@ + "&"@) by {
        reveal_strlit("_drop(&");
        reveal_strlit("_drop");
        reveal_strlit("(");
        reveal_strlit("&");
    }
    assert(" = false;\n        goto cr_b"@ =~= " = "@ + "false"@ + ";\n"@ + "        "@ + "goto cr_b"@) by {
        reveal_strlit(" = false;\n        goto cr_b");
        reveal_strlit(" = ");
        reveal_strlit("false");
        reveal_strlit(";\n");
        reveal_strlit("        ");
        reveal_strlit("goto cr_b");
    }
    assert(";\n    }\n"@ =~= ";\n"@ + "    "@ + "}\n"@) by {
        reveal_strlit(";\n    }\n");
        reveal_strlit(";\n");
        reveal_strlit("    ");
        reveal_strlit("}\n");
    }
    assert(" == CR_POLL_ERROR) {\n        "@ =~= " == "@ + "CR_POLL_ERROR"@ + ") {\n"@ + "        "@) by {
        reveal_strlit(" == CR_POLL_ERROR) {\n        ");
        reveal_strlit(" == ");
        reveal_strlit("CR_POLL_ERROR");
        reveal_strlit(") {\n");
        reveal_strlit("        ");
    }
    assert(".error;\n"@ =~= "."@ + "error"@ + ";\n"@) by {
        reveal_strlit(".error;\n");
        reveal_strlit(".");
        reveal_strlit("error");
        reveal_strlit(";\n");
    }
    assert(" = false;\n        cr_cleanup_run_all(&"@ =~= " = "@ + "false"@ + ";\n"@ + "        "@ + "cr_cleanup_run_all"@ + "("@ + "&"@) by {
        reveal_strlit(" = false;\n        cr_cleanup_run_all(&");
        reveal_strlit(" = ");
        reveal_strlit("false");
        reveal_strlit(";\n");
        reveal_strlit("        ");
        reveal_strlit("cr_cleanup_run_all");
        reveal_strlit("(");
        reveal_strlit("&");
    }
    assert(");\n"@ =~= ")"@ + ";\n"@) by {
        reveal_strlit(");\n");
        reveal_strlit(")");
        reveal_strlit(";\n");
    }
    assert(" = CR_POLL_ERROR;\n        return "@ =~= " = "@ + "CR_POLL_ERROR"@ + ";\n"@ + "        "@ + "return "@) by {
        reveal_strlit(" = CR_POLL_ERROR;\n        return ");
        reveal_strlit(" = ");
        reveal_strlit("CR_POLL_ERROR");
        reveal_strlit(";\n");
        reveal_strlit("        ");
        reveal_strlit("return ");
    }
    assert(" == CR_POLL_CANCELED) {\n"@ =~= " == "@ + "CR_POLL_CANCELED"@ + ") {\n"@) by {
        reveal_strlit(" == CR_POLL_CANCELED) {\n");
        reveal_strlit(" == ");
        reveal_strlit("CR_POLL_CANCELED");
        reveal_strlit(") {\n");
    }
    assert(" = CR_POLL_CANCELED;\n        return "@ =~= " = "@ + "CR_POLL_CANCELED"@ + ";\n"@ + "        "@ + "return "@) by {
        reveal_strlit(" = CR_POLL_CANCELED;\n        return ");
        reveal_strlit(" = ");
        reveal_strlit("CR_POLL_CANCELED");
        reveal_strlit(";\n");
        reveal_strlit("        ");
        reveal_strlit("return ");
    }
    assert(" == CR_POLL_YIELDED) {\n"@ =~= " == "@ + "CR_POLL_YIELDED"@ + ") {\n"@) by {
        reveal_strlit(" == CR_POLL_YIELDED) {\n");
        reveal_strlit(" == ");
        reveal_strlit("CR_POLL_YIELDED");
        reveal_strlit(") {\n");
    }
    assert(".yielded;\n        "@ =~= "."@ + "yielded"@ + ";\n"@ + "        "@) by {
        reveal_strlit(".yielded;\n        ");
        reveal_strlit(".");
        reveal_strlit("yielded");
        reveal_strlit(";\n");
        reveal_strlit("        ");
    }
    assert(" = CR_POLL_YIELDED;\n        return "@ =~= " = "@ + "CR_POLL_YIELDED"@ + ";\n"@ + "        "@ + "return "@) by {
        reveal_strlit(" = CR_POLL_YIELDED;\n        return ");
        reveal_strlit(" = ");
        reveal_strlit("CR_POLL_YIELDED");
        reveal_strlit(";\n");
        reveal_strlit("        ");
        reveal_strlit("return ");
    }
    assert("    }\n"@ =~= "    "@ + "}\n"@) by {
        reveal_strlit("    }\n");
        reveal_strlit("    ");
        reveal_strlit("}\n");
    }
    assert(" = false;\n"@ =~= " = "@ + "false"@ + ";\n"@) by {
        reveal_strlit(" = false;\n");
        reveal_strlit(" = ");
        reveal_strlit("false");
        reveal_strlit(";\n");
    }
    assert(");\n    "@ =~= ")"@ + ";\n"@ + "    "@) by {
        reveal_strlit(");\n    ");
        reveal_strlit(")");
        reveal_strlit(";\n");
        reveal_strlit("    ");
    }
    assert("        cr_error "@ =~= "        "@ + "cr_error "@) by {
        reveal_strlit("        cr_error ");
        reveal_strlit("        ");
        reveal_strlit("cr_error ");
    }
    assert(" = {0, NULL};\n"@ =~= " = "@ + "{0, NULL}"@ + ";\n"@) by {
        reveal_strlit(" = {0, NULL};\n");
        reveal_strlit(" = ");
        reveal_strlit("{0, NULL}");
        reveal_strlit(";\n");
    }
    assert("_create("@ =~= "_create"@ + "("@) by {
        reveal_strlit("_create(");
        reveal_strlit("_create");
        reveal_strlit("(");
    }
    assert("        if ("@ =~= "        "@ + "if ("@) by {
        reveal_strlit("        if (");
        reveal_strlit("        ");
        reveal_strlit("if (");
    }
    assert(" == NULL) {\n            "@ =~= " == "@ + "NULL"@ + ") {\n"@ + "            "@) by {
        reveal_strlit(" == NULL) {\n            ");
        reveal_strlit(" == ");
        reveal_strlit("NULL");
        reveal_strlit(") {\n");
        reveal_strlit("            ");
    }
    assert(" : (cr_error){1006, \"async task allocation failed\"};\n"@ =~= " : "@ + "(cr_error){"@ + "1006"@ + ", \""@ + "async task allocation failed"@ + "\"}"@ + ";\n"@) by {
        reveal_strlit(" : (cr_error){1006, \"async task allocation failed\"};\n");
        reveal_strlit(" : ");
        reveal_strlit("(cr_error){");
        reveal_strlit("1006");
        reveal_strlit(", \"");
        reveal_strlit("async task allocation failed");
        reveal_strlit("\"}");
        reveal_strlit(";\n");
    }
    assert("            cr_cleanup_run_all(&"@ =~= "            "@ + "cr_cleanup_run_all"@ + "("@ + "&"@) by {
        reveal_strlit("            cr_cleanup_run_all(&");
        reveal_strlit("            ");
        reveal_strlit("cr_cleanup_run_all");
        reveal_strlit("(");
        reveal_strlit("&");
    }
    assert(");\n            "@ =~= ")"@ + ";\n"@ + "            "@) by {
        reveal_strlit(");\n            ");
        reveal_strlit(")");
        reveal_strlit(";\n");
        reveal_strlit("            ");
    }
    assert(" = CR_POLL_ERROR;\n            return "@ =~= " = "@ + "CR_POLL_ERROR"@ + ";\n"@ + "            "@ + "return "@) by {
        reveal_strlit(" = CR_POLL_ERROR;\n            return ");
        reveal_strlit(" = ");
        reveal_strlit("CR_POLL_ERROR");
        reveal_strlit(";\n");
        reveal_strlit("            ");
        reveal_strlit("return ");
    }
    assert(";\n        }\n        "@ =~= ";\n"@ + "        "@ + "}\n"@ + "        "@) by {
        reveal_strlit(";\n        }\n        ");
        reveal_strlit(";\n");
        reveal_strlit("        ");
        reveal_strlit("}\n");
    }
    assert("_poll("@ =~= "_poll"@ + "("@) by {
        reveal_strlit("_poll(");
        reveal_strlit("_poll");
        reveal_strlit("(");
    }
    assert("->result;\n"@ =~= "->"@ + "result"@ + ";\n"@) by {
        reveal_strlit("->result;\n");
        reveal_strlit("->");
        reveal_strlit("result");
        reveal_strlit(";\n");
    }
    assert("_destroy("@ =~= "_destroy"@ + "("@) by {
        reveal_strlit("_destroy(");
        reveal_strlit("_destroy");
        reveal_strlit("(");
    }
    assert(" = NULL;\n        "@ =~= " = "@ + "NULL"@ + ";\n"@ + "        "@) by {
        reveal_strlit(" = NULL;\n        ");
        reveal_strlit(" = ");
        reveal_strlit("NULL");
        reveal_strlit(";\n");
        reveal_strlit("        ");
    }
    assert("        goto cr_b"@ =~= "        "@ + "goto cr_b"@) by {
        reveal_strlit("        goto cr_b");
        reveal_strlit("        ");
        reveal_strlit("goto cr_b");
    }
    assert(" = *"@ =~= " = "@ + "*"@) by {
        reveal_strlit(" = *");
        reveal_strlit(" = ");
        reveal_strlit("*");
    }
    assert("_result("@ =~= "_"@ + "result"@ + "("@) by {
        reveal_strlit("_result(");
        reveal_strlit("_");
        reveal_strlit("result");
        reveal_strlit("(");
    }
    assert(" == CR_POLL_ERROR) {\n"@ =~= " == "@ + "CR_POLL_ERROR"@ + ") {\n"@) by {
        reveal_strlit(" == CR_POLL_ERROR) {\n");
        reveal_strlit(" == ");
        reveal_strlit("CR_POLL_ERROR");
        reveal_strlit(") {\n");
    }
    assert("->error;\n"@ =~= "->"@ + "error"@ + ";\n"@) by {
        reveal_strlit("->error;\n");
        reveal_strlit("->");
        reveal_strlit("error");
        reveal_strlit(";\n");
    }
    assert("        cr_cleanup_run_all(&"@ =~= "        "@ + "cr_cleanup_run_all"@ + "("@ + "&"@) by {
        reveal_strlit("        cr_cleanup_run_all(&");
        reveal_strlit("        ");
        reveal_strlit("cr_cleanup_run_all");
        reveal_strlit("(");
        reveal_strlit("&");
    }
    assert("        const cr_error *"@ =~= "        "@ + "const cr_error *"@) by {
        reveal_strlit("        const cr_error *");
        reveal_strlit("        ");
        reveal_strlit("const cr_error *");
    }
    assert("_error("@ =~= "_"@ + "error"@ + "("@) by {
        reveal_strlit("_error(");
        reveal_strlit("_");
        reveal_strlit("error");
        reveal_strlit("(");
    }
    assert(" : (cr_error){CR_ERROR_MISSING_CHILD_ERROR, \"boxed child error without details\"};\n"@ =~= " : "@ + "(cr_error){"@ + "CR_ERROR_MISSING_CHILD_ERROR"@ + ", \""@ + "boxed child error without details"@ + "\"}"@ + ";\n"@) by {
        reveal_strlit(" : (cr_error){CR_ERROR_MISSING_CHILD_ERROR, \"boxed child error without details\"};\n");
        reveal_strlit(" : ");
        reveal_strlit("(cr_error){");
        reveal_strlit("CR_ERROR_MISSING_CHILD_ERROR");
        reveal_strlit(", \"");
        reveal_strlit("boxed child error without details");
        reveal_strlit("\"}");
        reveal_strlit(";\n");
    }
    assert("->yielded;\n"@ =~= "->"@ + "yielded"@ + ";\n"@) by {
        reveal_strlit("->yielded;\n");
        reveal_strlit("->");
        reveal_strlit("yielded");
        reveal_strlit(";\n");
    }
    assert("_yielded("@ =~= "_"@ + "yielded"@ + "("@) by {
        reveal_strlit("_yielded(");
        reveal_strlit("_");
        reveal_strlit("yielded");
        reveal_strlit("(");
    }
    assert(" = NULL;\n    "@ =~= " = "@ + "NULL"@ + ";\n"@ + "    "@) by {
        reveal_strlit(" = NULL;\n    ");
        reveal_strlit(" = ");
        reveal_strlit("NULL");
        reveal_strlit(";\n");
        reveal_strlit("    ");
    }
    assert("    if (!"@ =~= "    "@ + "if ("@ + "!"@) by {
        reveal_strlit("    if (!");
        reveal_strlit("    ");
        reveal_strlit("if (");
        reveal_strlit("!");
    }
    assert("result;\n"@ =~= "result"@ + ";\n"@) by {
        reveal_strlit("result;\n");
        reveal_strlit("result");
        reveal_strlit(";\n");
    }
    assert("error;\n"@ =~= "error"@ + ";\n"@) by {
        reveal_strlit("error;\n");
        reveal_strlit("error");
        reveal_strlit(";\n");
    }
    assert(" : (cr_error){CR_ERROR_MISSING_CHILD_ERROR, \"boxed binding error without details\"};\n"@ =~= " : "@ + "(cr_error){"@ + "CR_ERROR_MISSING_CHILD_ERROR"@ + ", \""@ + "boxed binding error without details"@ + "\"}"@ + ";\n"@) by {
        reveal_strlit(" : (cr_error){CR_ERROR_MISSING_CHILD_ERROR, \"boxed binding error without details\"};\n");
        reveal_strlit(" : ");
        reveal_strlit("(cr_error){");
        reveal_strlit("CR_ERROR_MISSING_CHILD_ERROR");
        reveal_strlit(", \"");
        reveal_strlit("boxed binding error without details");
        reveal_strlit("\"}");
        reveal_strlit(";\n");
    }
    assert("yielded;\n"@ =~= "yielded"@ + ";\n"@) by {
        reveal_strlit("yielded;\n");
        reveal_strlit("yielded");
        reveal_strlit(";\n");
    }
    assert(" = (cr_error){"@ =~= " = "@ + "(cr_error){"@) by {
        reveal_strlit(" = (cr_error){");
        reveal_strlit(" = ");
        reveal_strlit("(cr_error){");
    }
    assert("\"};\n"@ =~= "\"}"@ + ";\n"@) by {
        reveal_strlit("\"};\n");
        reveal_strlit("\"}");
        reveal_strlit(";\n");
    }
    assert("cr_cleanup_run_all(&"@ =~= "cr_cleanup_run_all"@ + "("@ + "&"@) by {
        reveal_strlit("cr_cleanup_run_all(&");
        reveal_strlit("cr_cleanup_run_all");
        reveal_strlit("(");
        reveal_strlit("&");
    }
    assert(" = CR_POLL_ERROR;\n"@ =~= " = "@ + "CR_POLL_ERROR"@ + ";\n"@) by {
        reveal_strlit(" = CR_POLL_ERROR;\n");
        reveal_strlit(" = ");
        reveal_strlit("CR_POLL_ERROR");
        reveal_strlit(";\n");
    }
    assert("if (!"@ =~= "if ("@ + "!"@) by {
        reveal_strlit("if (!");
        reveal_strlit("if (");
        reveal_strlit("!");
    }
}

proof fn pending_is_written(
    out: Seq<char>,
    task: TaskView,
    name: Seq<char>,
)
    ensures
        ({
            c_meaning::same(
                out + "    if ("@ + name + " == CR_POLL_PENDING) return "@ + name + ";\n"@,
                c_meaning::written(out, Statement::ReturnIf(wait_code::polled(name, "CR_POLL_PENDING"@), Value::Read(Place::Local(name))), task, "    "@),
            )
        }),
{
    broadcast use {
        c_meaning::joined,
        c_meaning::nothing_behind,
        c_meaning::written_then,
        c_meaning::written_if_in_function,
        c_meaning::written_if_in_block,
        c_meaning::written_nothing,
    };
    wait_literals();
}

proof fn embedded_start_is_written(
    out: Seq<char>,
    task: TaskView,
    stem: Seq<char>,
    instance: ChildInstanceId,
    arguments: Seq<char>,
)
    ensures
        ({
            let child = c_source::path(task, LogicalFieldId::DirectChildPayload(instance));
            let active = c_source::path(task, LogicalFieldId::DirectChildActive(instance));
            let awaited = wait_code::embedded_child(instance, stem);
            let comma = if arguments == ""@ { ""@ } else { ", "@ };
            let rest = if arguments == ""@ { ""@ } else { ", "@ + arguments };
            c_meaning::same(
                out + "        "@ + stem + "_init(&"@ + child + comma + arguments + ");\n        "@ + active + " = true;\n    }\n"@,
                c_meaning::written(out, c_meaning::both(Statement::Call(stem + "_init"@, wait_code::handle(awaited), rest), wait_code::started(awaited)), task, "        "@) + "    "@ + "}\n"@,
            )
        }),
{
    broadcast use {
        c_meaning::joined,
        c_meaning::nothing_behind,
        c_meaning::written_then,
        c_meaning::written_if_in_function,
        c_meaning::written_if_in_block,
        c_meaning::written_nothing,
    };
    wait_literals();
}

proof fn embedded_poll_is_written(
    out: Seq<char>,
    task: TaskView,
    stem: Seq<char>,
    instance: ChildInstanceId,
    name: Seq<char>,
    state: Seq<char>,
)
    ensures
        ({
            let child = c_source::path(task, LogicalFieldId::DirectChildPayload(instance));
            let state_path = c_source::path(task, LogicalFieldId::State);
            let awaited = wait_code::embedded_child(instance, stem);
            c_meaning::same(
                out + "    "@ + state_path + " = "@ + state + "u;\n"@ + "    cr_poll_status "@ + name + " = "@ + stem + "_poll(&"@ + child + ", poll_context);\n"@,
                c_meaning::written(out, wait_code::poll_code(awaited, name, state), task, "    "@),
            )
        }),
{
    broadcast use {
        c_meaning::joined,
        c_meaning::nothing_behind,
        c_meaning::written_then,
        c_meaning::written_if_in_function,
        c_meaning::written_if_in_block,
        c_meaning::written_nothing,
    };
    wait_literals();
}

proof fn embedded_ready_is_written(
    out: Seq<char>,
    task: TaskView,
    stem: Seq<char>,
    instance: ChildInstanceId,
    slot: AwaitSlotId,
    name: Seq<char>,
    target: Seq<char>,
)
    ensures
        ({
            let child = c_source::path(task, LogicalFieldId::DirectChildPayload(instance));
            let active = c_source::path(task, LogicalFieldId::DirectChildActive(instance));
            let result = c_source::path(task, LogicalFieldId::AwaitResult(slot));
            let awaited = wait_code::embedded_child(instance, stem);
            c_meaning::same(
                out + "    if ("@ + name + " == CR_POLL_READY) {\n"@ + "        "@ + result + " = "@ + child + ".result;\n"@ + "        "@ + stem + "_drop(&"@ + child + ");\n        "@ + active + " = false;\n        goto cr_b"@ + target + ";\n    }\n"@,
                c_meaning::written(out, c_meaning::when(wait_code::polled(name, "CR_POLL_READY"@), wait_code::ready_code(awaited, true, slot, target)), task, "    "@),
            )
        }),
{
    broadcast use {
        c_meaning::joined,
        c_meaning::nothing_behind,
        c_meaning::written_then,
        c_meaning::written_if_in_function,
        c_meaning::written_if_in_block,
        c_meaning::written_nothing,
    };
    wait_literals();
}

proof fn embedded_done_is_written(
    out: Seq<char>,
    task: TaskView,
    stem: Seq<char>,
    instance: ChildInstanceId,
    slot: AwaitSlotId,
    name: Seq<char>,
    target: Seq<char>,
)
    ensures
        ({
            let child = c_source::path(task, LogicalFieldId::DirectChildPayload(instance));
            let active = c_source::path(task, LogicalFieldId::DirectChildActive(instance));
            let awaited = wait_code::embedded_child(instance, stem);
            c_meaning::same(
                out + "    if ("@ + name + " == CR_POLL_READY) {\n"@ + "        "@ + stem + "_drop(&"@ + child + ");\n        "@ + active + " = false;\n        goto cr_b"@ + target + ";\n    }\n"@,
                c_meaning::written(out, c_meaning::when(wait_code::polled(name, "CR_POLL_READY"@), wait_code::ready_code(awaited, false, slot, target)), task, "    "@),
            )
        }),
{
    broadcast use {
        c_meaning::joined,
        c_meaning::nothing_behind,
        c_meaning::written_then,
        c_meaning::written_if_in_function,
        c_meaning::written_if_in_block,
        c_meaning::written_nothing,
    };
    wait_literals();
}

proof fn embedded_error_is_written(
    out: Seq<char>,
    task: TaskView,
    stem: Seq<char>,
    instance: ChildInstanceId,
    name: Seq<char>,
)
    ensures
        ({
            let child = c_source::path(task, LogicalFieldId::DirectChildPayload(instance));
            let active = c_source::path(task, LogicalFieldId::DirectChildActive(instance));
            let error = c_source::path(task, LogicalFieldId::Error);
            let cleanups = c_source::path(task, LogicalFieldId::Cleanups);
            let status_path = c_source::path(task, LogicalFieldId::Status);
            let awaited = wait_code::embedded_child(instance, stem);
            c_meaning::same(
                out + "    if ("@ + name + " == CR_POLL_ERROR) {\n        "@ + error + " = "@ + child + ".error;\n"@ + "        "@ + stem + "_drop(&"@ + child + ");\n        "@ + active + " = false;\n        cr_cleanup_run_all(&"@ + cleanups + ");\n"@ + "        "@ + status_path + " = CR_POLL_ERROR;\n        return "@ + status_path + ";\n    }\n"@,
                c_meaning::written(out, c_meaning::when(wait_code::polled(name, "CR_POLL_ERROR"@), wait_code::error_code(awaited)), task, "    "@),
            )
        }),
{
    broadcast use {
        c_meaning::joined,
        c_meaning::nothing_behind,
        c_meaning::written_then,
        c_meaning::written_if_in_function,
        c_meaning::written_if_in_block,
        c_meaning::written_nothing,
    };
    wait_literals();
}

proof fn embedded_cancel_is_written(
    out: Seq<char>,
    task: TaskView,
    stem: Seq<char>,
    instance: ChildInstanceId,
    name: Seq<char>,
)
    ensures
        ({
            let child = c_source::path(task, LogicalFieldId::DirectChildPayload(instance));
            let active = c_source::path(task, LogicalFieldId::DirectChildActive(instance));
            let cleanups = c_source::path(task, LogicalFieldId::Cleanups);
            let status_path = c_source::path(task, LogicalFieldId::Status);
            let awaited = wait_code::embedded_child(instance, stem);
            c_meaning::same(
                out + "    if ("@ + name + " == CR_POLL_CANCELED) {\n"@ + "        "@ + stem + "_drop(&"@ + child + ");\n        "@ + active + " = false;\n        cr_cleanup_run_all(&"@ + cleanups + ");\n"@ + "        "@ + status_path + " = CR_POLL_CANCELED;\n        return "@ + status_path + ";\n    }\n"@,
                c_meaning::written(out, c_meaning::when(wait_code::polled(name, "CR_POLL_CANCELED"@), wait_code::canceled_code(awaited)), task, "    "@),
            )
        }),
{
    broadcast use {
        c_meaning::joined,
        c_meaning::nothing_behind,
        c_meaning::written_then,
        c_meaning::written_if_in_function,
        c_meaning::written_if_in_block,
        c_meaning::written_nothing,
    };
    wait_literals();
}

proof fn embedded_yield_is_written(
    out: Seq<char>,
    task: TaskView,
    stem: Seq<char>,
    instance: ChildInstanceId,
    name: Seq<char>,
)
    ensures
        ({
            let child = c_source::path(task, LogicalFieldId::DirectChildPayload(instance));
            let status_path = c_source::path(task, LogicalFieldId::Status);
            let yielded = c_source::path(task, LogicalFieldId::Yielded);
            let awaited = wait_code::embedded_child(instance, stem);
            c_meaning::same(
                out + "    if ("@ + name + " == CR_POLL_YIELDED) {\n"@ + "        "@ + yielded + " = "@ + child + ".yielded;\n        "@ + status_path + " = CR_POLL_YIELDED;\n        return "@ + status_path + ";\n"@ + "    }\n"@,
                c_meaning::written(out, c_meaning::when(wait_code::polled(name, "CR_POLL_YIELDED"@), wait_code::yielded_code(awaited, true)), task, "    "@),
            )
        }),
{
    broadcast use {
        c_meaning::joined,
        c_meaning::nothing_behind,
        c_meaning::written_then,
        c_meaning::written_if_in_function,
        c_meaning::written_if_in_block,
        c_meaning::written_nothing,
    };
    wait_literals();
}

proof fn embedded_refuse_is_written(
    out: Seq<char>,
    task: TaskView,
    stem: Seq<char>,
    instance: ChildInstanceId,
    name: Seq<char>,
)
    ensures
        ({
            let child = c_source::path(task, LogicalFieldId::DirectChildPayload(instance));
            let active = c_source::path(task, LogicalFieldId::DirectChildActive(instance));
            let yielded = c_source::path(task, LogicalFieldId::Yielded);
            let awaited = wait_code::embedded_child(instance, stem);
            c_meaning::same(
                c_runtime_text::async_error_at_text(out + "    if ("@ + name + " == CR_POLL_YIELDED) {\n"@ + "        "@ + stem + "_drop(&"@ + child + ");\n        "@ + active + " = false;\n"@, task, "1005"@, "yielded awaitable has an incompatible value type"@, "        "@) + "    }\n"@,
                c_meaning::written(out, c_meaning::when(wait_code::polled(name, "CR_POLL_YIELDED"@), wait_code::yielded_code(awaited, false)), task, "    "@),
            )
        }),
{
    broadcast use {
        c_meaning::joined,
        c_meaning::nothing_behind,
        c_meaning::written_then,
        c_meaning::written_if_in_function,
        c_meaning::written_if_in_block,
        c_meaning::written_nothing,
    };
    let child = c_source::path(task, LogicalFieldId::DirectChildPayload(instance));
    let active = c_source::path(task, LogicalFieldId::DirectChildActive(instance));
    failure_is_written(out + "    if ("@ + name + " == CR_POLL_YIELDED) {\n"@ + "        "@ + stem + "_drop(&"@ + child + ");\n        "@ + active + " = false;\n"@, task, "1005"@, "yielded awaitable has an incompatible value type"@, "        "@);
    wait_literals();
}

proof fn embedded_unknown_is_written(
    out: Seq<char>,
    task: TaskView,
    stem: Seq<char>,
    instance: ChildInstanceId,
)
    ensures
        ({
            let child = c_source::path(task, LogicalFieldId::DirectChildPayload(instance));
            let active = c_source::path(task, LogicalFieldId::DirectChildActive(instance));
            let awaited = wait_code::embedded_child(instance, stem);
            c_meaning::same(
                c_runtime_text::async_error_at_text(out + "    "@ + stem + "_drop(&"@ + child + ");\n    "@ + active + " = false;\n"@, task, "1106"@, "invalid awaitable poll status"@, "    "@),
                c_meaning::written(out, wait_code::unknown_code(awaited), task, "    "@),
            )
        }),
{
    broadcast use {
        c_meaning::joined,
        c_meaning::nothing_behind,
        c_meaning::written_then,
        c_meaning::written_if_in_function,
        c_meaning::written_if_in_block,
        c_meaning::written_nothing,
    };
    let child = c_source::path(task, LogicalFieldId::DirectChildPayload(instance));
    let active = c_source::path(task, LogicalFieldId::DirectChildActive(instance));
    failure_is_written(out + "    "@ + stem + "_drop(&"@ + child + ");\n    "@ + active + " = false;\n"@, task, "1106"@, "invalid awaitable poll status"@, "    "@);
    wait_literals();
}

proof fn boxed_error_place_is_written(
    out: Seq<char>,
    task: TaskView,
    box_number: Seq<char>,
)
    ensures
        ({
            let create_error = "cr_boxed_"@ + box_number + "_create_error"@;
            c_meaning::same(
                out + "        cr_error "@ + create_error + " = {0, NULL};\n"@,
                c_meaning::written(out, wait_code::no_error(create_error), task, "        "@),
            )
        }),
{
    broadcast use {
        c_meaning::joined,
        c_meaning::nothing_behind,
        c_meaning::written_then,
        c_meaning::written_if_in_function,
        c_meaning::written_if_in_block,
        c_meaning::written_nothing,
    };
    wait_literals();
}

proof fn boxed_create_is_written(
    out: Seq<char>,
    task: TaskView,
    stem: Seq<char>,
    instance: ChildInstanceId,
    arguments: Seq<char>,
    box_number: Seq<char>,
    accessors: bool,
)
    ensures
        ({
            let child = c_source::path(task, LogicalFieldId::DirectChildPayload(instance));
            let create_error = "cr_boxed_"@ + box_number + "_create_error"@;
            let awaited = wait_code::boxed_child(instance, stem, accessors, "cr_boxed_"@ + box_number + "_error"@);
            let comma = if arguments == ""@ { ""@ } else { ", "@ };
            let before = if arguments == ""@ { ""@ } else { arguments + ", "@ };
            c_meaning::same(
                out + "        "@ + child + " = "@ + stem + "_create("@ + arguments + comma + "&"@ + create_error + ");\n"@,
                c_meaning::written(out, Statement::Create(Place::Own(awaited.holder), stem + "_create"@, before, create_error), task, "        "@),
            )
        }),
{
    broadcast use {
        c_meaning::joined,
        c_meaning::nothing_behind,
        c_meaning::written_then,
        c_meaning::written_if_in_function,
        c_meaning::written_if_in_block,
        c_meaning::written_nothing,
    };
    wait_literals();
}

proof fn boxed_missing_is_written(
    out: Seq<char>,
    task: TaskView,
    stem: Seq<char>,
    instance: ChildInstanceId,
    box_number: Seq<char>,
    accessors: bool,
)
    ensures
        ({
            let child = c_source::path(task, LogicalFieldId::DirectChildPayload(instance));
            let active = c_source::path(task, LogicalFieldId::DirectChildActive(instance));
            let error = c_source::path(task, LogicalFieldId::Error);
            let cleanups = c_source::path(task, LogicalFieldId::Cleanups);
            let status_path = c_source::path(task, LogicalFieldId::Status);
            let create_error = "cr_boxed_"@ + box_number + "_create_error"@;
            let awaited = wait_code::boxed_child(instance, stem, accessors, "cr_boxed_"@ + box_number + "_error"@);
            c_meaning::same(
                out + "        if ("@ + child + " == NULL) {\n            "@ + error + " = "@ + create_error + ".code != 0 ? "@ + create_error + " : (cr_error){1006, \"async task allocation failed\"};\n"@ + "            cr_cleanup_run_all(&"@ + cleanups + ");\n            "@ + status_path + " = CR_POLL_ERROR;\n            return "@ + status_path + ";\n        }\n        "@ + active + " = true;\n    }\n"@,
                c_meaning::written(out, c_meaning::both(wait_code::unless_created(awaited, create_error), wait_code::started(awaited)), task, "        "@) + "    "@ + "}\n"@,
            )
        }),
{
    broadcast use {
        c_meaning::joined,
        c_meaning::nothing_behind,
        c_meaning::written_then,
        c_meaning::written_if_in_function,
        c_meaning::written_if_in_block,
        c_meaning::written_nothing,
    };
    wait_literals();
}

proof fn boxed_poll_is_written(
    out: Seq<char>,
    task: TaskView,
    stem: Seq<char>,
    instance: ChildInstanceId,
    name: Seq<char>,
    state: Seq<char>,
    box_number: Seq<char>,
    accessors: bool,
)
    ensures
        ({
            let child = c_source::path(task, LogicalFieldId::DirectChildPayload(instance));
            let state_path = c_source::path(task, LogicalFieldId::State);
            let awaited = wait_code::boxed_child(instance, stem, accessors, "cr_boxed_"@ + box_number + "_error"@);
            c_meaning::same(
                out + "    "@ + state_path + " = "@ + state + "u;\n"@ + "    cr_poll_status "@ + name + " = "@ + stem + "_poll("@ + child + ", poll_context);\n"@,
                c_meaning::written(out, wait_code::poll_code(awaited, name, state), task, "    "@),
            )
        }),
{
    broadcast use {
        c_meaning::joined,
        c_meaning::nothing_behind,
        c_meaning::written_then,
        c_meaning::written_if_in_function,
        c_meaning::written_if_in_block,
        c_meaning::written_nothing,
    };
    wait_literals();
}

proof fn boxed_ready_is_written(
    out: Seq<char>,
    task: TaskView,
    stem: Seq<char>,
    instance: ChildInstanceId,
    slot: AwaitSlotId,
    name: Seq<char>,
    target: Seq<char>,
    box_number: Seq<char>,
    accessors: bool,
)
    requires
        !accessors,
    ensures
        ({
            let child = c_source::path(task, LogicalFieldId::DirectChildPayload(instance));
            let active = c_source::path(task, LogicalFieldId::DirectChildActive(instance));
            let result = c_source::path(task, LogicalFieldId::AwaitResult(slot));
            let awaited = wait_code::boxed_child(instance, stem, accessors, "cr_boxed_"@ + box_number + "_error"@);
            c_meaning::same(
                out + "    if ("@ + name + " == CR_POLL_READY) {\n"@ + "        "@ + result + " = "@ + child + "->result;\n"@ + "        "@ + stem + "_destroy("@ + child + ");\n        "@ + child + " = NULL;\n        "@ + active + " = false;\n"@ + "        goto cr_b"@ + target + ";\n    }\n"@,
                c_meaning::written(out, c_meaning::when(wait_code::polled(name, "CR_POLL_READY"@), wait_code::ready_code(awaited, true, slot, target)), task, "    "@),
            )
        }),
{
    broadcast use {
        c_meaning::joined,
        c_meaning::nothing_behind,
        c_meaning::written_then,
        c_meaning::written_if_in_function,
        c_meaning::written_if_in_block,
        c_meaning::written_nothing,
    };
    wait_literals();
}

proof fn boxed_found_is_written(
    out: Seq<char>,
    task: TaskView,
    stem: Seq<char>,
    instance: ChildInstanceId,
    slot: AwaitSlotId,
    name: Seq<char>,
    target: Seq<char>,
    box_number: Seq<char>,
    accessors: bool,
)
    requires
        accessors,
    ensures
        ({
            let child = c_source::path(task, LogicalFieldId::DirectChildPayload(instance));
            let active = c_source::path(task, LogicalFieldId::DirectChildActive(instance));
            let result = c_source::path(task, LogicalFieldId::AwaitResult(slot));
            let awaited = wait_code::boxed_child(instance, stem, accessors, "cr_boxed_"@ + box_number + "_error"@);
            c_meaning::same(
                out + "    if ("@ + name + " == CR_POLL_READY) {\n"@ + "        "@ + result + " = *"@ + stem + "_result("@ + child + ");\n"@ + "        "@ + stem + "_destroy("@ + child + ");\n        "@ + child + " = NULL;\n        "@ + active + " = false;\n"@ + "        goto cr_b"@ + target + ";\n    }\n"@,
                c_meaning::written(out, c_meaning::when(wait_code::polled(name, "CR_POLL_READY"@), wait_code::ready_code(awaited, true, slot, target)), task, "    "@),
            )
        }),
{
    broadcast use {
        c_meaning::joined,
        c_meaning::nothing_behind,
        c_meaning::written_then,
        c_meaning::written_if_in_function,
        c_meaning::written_if_in_block,
        c_meaning::written_nothing,
    };
    wait_literals();
}

proof fn boxed_done_is_written(
    out: Seq<char>,
    task: TaskView,
    stem: Seq<char>,
    instance: ChildInstanceId,
    slot: AwaitSlotId,
    name: Seq<char>,
    target: Seq<char>,
    box_number: Seq<char>,
    accessors: bool,
)
    ensures
        ({
            let child = c_source::path(task, LogicalFieldId::DirectChildPayload(instance));
            let active = c_source::path(task, LogicalFieldId::DirectChildActive(instance));
            let awaited = wait_code::boxed_child(instance, stem, accessors, "cr_boxed_"@ + box_number + "_error"@);
            c_meaning::same(
                out + "    if ("@ + name + " == CR_POLL_READY) {\n"@ + "        "@ + stem + "_destroy("@ + child + ");\n        "@ + child + " = NULL;\n        "@ + active + " = false;\n"@ + "        goto cr_b"@ + target + ";\n    }\n"@,
                c_meaning::written(out, c_meaning::when(wait_code::polled(name, "CR_POLL_READY"@), wait_code::ready_code(awaited, false, slot, target)), task, "    "@),
            )
        }),
{
    broadcast use {
        c_meaning::joined,
        c_meaning::nothing_behind,
        c_meaning::written_then,
        c_meaning::written_if_in_function,
        c_meaning::written_if_in_block,
        c_meaning::written_nothing,
    };
    wait_literals();
}

proof fn boxed_error_is_written(
    out: Seq<char>,
    task: TaskView,
    stem: Seq<char>,
    instance: ChildInstanceId,
    name: Seq<char>,
    box_number: Seq<char>,
    accessors: bool,
)
    requires
        !accessors,
    ensures
        ({
            let child = c_source::path(task, LogicalFieldId::DirectChildPayload(instance));
            let active = c_source::path(task, LogicalFieldId::DirectChildActive(instance));
            let error = c_source::path(task, LogicalFieldId::Error);
            let cleanups = c_source::path(task, LogicalFieldId::Cleanups);
            let status_path = c_source::path(task, LogicalFieldId::Status);
            let awaited = wait_code::boxed_child(instance, stem, accessors, "cr_boxed_"@ + box_number + "_error"@);
            c_meaning::same(
                out + "    if ("@ + name + " == CR_POLL_ERROR) {\n"@ + "        "@ + error + " = "@ + child + "->error;\n"@ + "        "@ + stem + "_destroy("@ + child + ");\n        "@ + child + " = NULL;\n        "@ + active + " = false;\n"@ + "        cr_cleanup_run_all(&"@ + cleanups + ");\n        "@ + status_path + " = CR_POLL_ERROR;\n        return "@ + status_path + ";\n    }\n"@,
                c_meaning::written(out, c_meaning::when(wait_code::polled(name, "CR_POLL_ERROR"@), wait_code::error_code(awaited)), task, "    "@),
            )
        }),
{
    broadcast use {
        c_meaning::joined,
        c_meaning::nothing_behind,
        c_meaning::written_then,
        c_meaning::written_if_in_function,
        c_meaning::written_if_in_block,
        c_meaning::written_nothing,
    };
    wait_literals();
}

proof fn boxed_detail_is_written(
    out: Seq<char>,
    task: TaskView,
    stem: Seq<char>,
    instance: ChildInstanceId,
    name: Seq<char>,
    box_number: Seq<char>,
    accessors: bool,
)
    requires
        accessors,
    ensures
        ({
            let child = c_source::path(task, LogicalFieldId::DirectChildPayload(instance));
            let active = c_source::path(task, LogicalFieldId::DirectChildActive(instance));
            let error = c_source::path(task, LogicalFieldId::Error);
            let cleanups = c_source::path(task, LogicalFieldId::Cleanups);
            let status_path = c_source::path(task, LogicalFieldId::Status);
            let detail = "cr_boxed_"@ + box_number + "_error"@;
            let awaited = wait_code::boxed_child(instance, stem, accessors, "cr_boxed_"@ + box_number + "_error"@);
            c_meaning::same(
                out + "    if ("@ + name + " == CR_POLL_ERROR) {\n"@ + "        const cr_error *"@ + detail + " = "@ + stem + "_error("@ + child + ");\n"@ + "        "@ + error + " = "@ + detail + " != NULL ? *"@ + detail + " : (cr_error){CR_ERROR_MISSING_CHILD_ERROR, \"boxed child error without details\"};\n"@ + "        "@ + stem + "_destroy("@ + child + ");\n        "@ + child + " = NULL;\n        "@ + active + " = false;\n"@ + "        cr_cleanup_run_all(&"@ + cleanups + ");\n        "@ + status_path + " = CR_POLL_ERROR;\n        return "@ + status_path + ";\n    }\n"@,
                c_meaning::written(out, c_meaning::when(wait_code::polled(name, "CR_POLL_ERROR"@), wait_code::error_code(awaited)), task, "    "@),
            )
        }),
{
    broadcast use {
        c_meaning::joined,
        c_meaning::nothing_behind,
        c_meaning::written_then,
        c_meaning::written_if_in_function,
        c_meaning::written_if_in_block,
        c_meaning::written_nothing,
    };
    wait_literals();
}

proof fn boxed_cancel_is_written(
    out: Seq<char>,
    task: TaskView,
    stem: Seq<char>,
    instance: ChildInstanceId,
    name: Seq<char>,
    box_number: Seq<char>,
    accessors: bool,
)
    ensures
        ({
            let child = c_source::path(task, LogicalFieldId::DirectChildPayload(instance));
            let active = c_source::path(task, LogicalFieldId::DirectChildActive(instance));
            let cleanups = c_source::path(task, LogicalFieldId::Cleanups);
            let status_path = c_source::path(task, LogicalFieldId::Status);
            let awaited = wait_code::boxed_child(instance, stem, accessors, "cr_boxed_"@ + box_number + "_error"@);
            c_meaning::same(
                out + "    if ("@ + name + " == CR_POLL_CANCELED) {\n"@ + "        "@ + stem + "_destroy("@ + child + ");\n        "@ + child + " = NULL;\n        "@ + active + " = false;\n"@ + "        cr_cleanup_run_all(&"@ + cleanups + ");\n        "@ + status_path + " = CR_POLL_CANCELED;\n        return "@ + status_path + ";\n    }\n"@,
                c_meaning::written(out, c_meaning::when(wait_code::polled(name, "CR_POLL_CANCELED"@), wait_code::canceled_code(awaited)), task, "    "@),
            )
        }),
{
    broadcast use {
        c_meaning::joined,
        c_meaning::nothing_behind,
        c_meaning::written_then,
        c_meaning::written_if_in_function,
        c_meaning::written_if_in_block,
        c_meaning::written_nothing,
    };
    wait_literals();
}

proof fn boxed_yield_is_written(
    out: Seq<char>,
    task: TaskView,
    stem: Seq<char>,
    instance: ChildInstanceId,
    name: Seq<char>,
    box_number: Seq<char>,
    accessors: bool,
)
    requires
        !accessors,
    ensures
        ({
            let child = c_source::path(task, LogicalFieldId::DirectChildPayload(instance));
            let status_path = c_source::path(task, LogicalFieldId::Status);
            let yielded = c_source::path(task, LogicalFieldId::Yielded);
            let awaited = wait_code::boxed_child(instance, stem, accessors, "cr_boxed_"@ + box_number + "_error"@);
            c_meaning::same(
                out + "    if ("@ + name + " == CR_POLL_YIELDED) {\n"@ + "        "@ + yielded + " = "@ + child + "->yielded;\n"@ + "        "@ + status_path + " = CR_POLL_YIELDED;\n        return "@ + status_path + ";\n"@ + "    }\n"@,
                c_meaning::written(out, c_meaning::when(wait_code::polled(name, "CR_POLL_YIELDED"@), wait_code::yielded_code(awaited, true)), task, "    "@),
            )
        }),
{
    broadcast use {
        c_meaning::joined,
        c_meaning::nothing_behind,
        c_meaning::written_then,
        c_meaning::written_if_in_function,
        c_meaning::written_if_in_block,
        c_meaning::written_nothing,
    };
    wait_literals();
}

proof fn boxed_passed_is_written(
    out: Seq<char>,
    task: TaskView,
    stem: Seq<char>,
    instance: ChildInstanceId,
    name: Seq<char>,
    box_number: Seq<char>,
    accessors: bool,
)
    requires
        accessors,
    ensures
        ({
            let child = c_source::path(task, LogicalFieldId::DirectChildPayload(instance));
            let status_path = c_source::path(task, LogicalFieldId::Status);
            let yielded = c_source::path(task, LogicalFieldId::Yielded);
            let awaited = wait_code::boxed_child(instance, stem, accessors, "cr_boxed_"@ + box_number + "_error"@);
            c_meaning::same(
                out + "    if ("@ + name + " == CR_POLL_YIELDED) {\n"@ + "        "@ + yielded + " = *"@ + stem + "_yielded("@ + child + ");\n"@ + "        "@ + status_path + " = CR_POLL_YIELDED;\n        return "@ + status_path + ";\n"@ + "    }\n"@,
                c_meaning::written(out, c_meaning::when(wait_code::polled(name, "CR_POLL_YIELDED"@), wait_code::yielded_code(awaited, true)), task, "    "@),
            )
        }),
{
    broadcast use {
        c_meaning::joined,
        c_meaning::nothing_behind,
        c_meaning::written_then,
        c_meaning::written_if_in_function,
        c_meaning::written_if_in_block,
        c_meaning::written_nothing,
    };
    wait_literals();
}

proof fn boxed_refuse_is_written(
    out: Seq<char>,
    task: TaskView,
    stem: Seq<char>,
    instance: ChildInstanceId,
    name: Seq<char>,
    box_number: Seq<char>,
    accessors: bool,
)
    ensures
        ({
            let child = c_source::path(task, LogicalFieldId::DirectChildPayload(instance));
            let active = c_source::path(task, LogicalFieldId::DirectChildActive(instance));
            let yielded = c_source::path(task, LogicalFieldId::Yielded);
            let awaited = wait_code::boxed_child(instance, stem, accessors, "cr_boxed_"@ + box_number + "_error"@);
            c_meaning::same(
                c_runtime_text::async_error_at_text(out + "    if ("@ + name + " == CR_POLL_YIELDED) {\n"@ + "        "@ + stem + "_destroy("@ + child + ");\n        "@ + child + " = NULL;\n        "@ + active + " = false;\n"@, task, "1005"@, "yielded awaitable has an incompatible value type"@, "        "@) + "    }\n"@,
                c_meaning::written(out, c_meaning::when(wait_code::polled(name, "CR_POLL_YIELDED"@), wait_code::yielded_code(awaited, false)), task, "    "@),
            )
        }),
{
    broadcast use {
        c_meaning::joined,
        c_meaning::nothing_behind,
        c_meaning::written_then,
        c_meaning::written_if_in_function,
        c_meaning::written_if_in_block,
        c_meaning::written_nothing,
    };
    let child = c_source::path(task, LogicalFieldId::DirectChildPayload(instance));
    let active = c_source::path(task, LogicalFieldId::DirectChildActive(instance));
    failure_is_written(out + "    if ("@ + name + " == CR_POLL_YIELDED) {\n"@ + "        "@ + stem + "_destroy("@ + child + ");\n        "@ + child + " = NULL;\n        "@ + active + " = false;\n"@, task, "1005"@, "yielded awaitable has an incompatible value type"@, "        "@);
    wait_literals();
}

proof fn boxed_unknown_is_written(
    out: Seq<char>,
    task: TaskView,
    stem: Seq<char>,
    instance: ChildInstanceId,
    box_number: Seq<char>,
    accessors: bool,
)
    ensures
        ({
            let child = c_source::path(task, LogicalFieldId::DirectChildPayload(instance));
            let active = c_source::path(task, LogicalFieldId::DirectChildActive(instance));
            let awaited = wait_code::boxed_child(instance, stem, accessors, "cr_boxed_"@ + box_number + "_error"@);
            c_meaning::same(
                c_runtime_text::async_error_at_text(out + "    "@ + stem + "_destroy("@ + child + ");\n    "@ + child + " = NULL;\n    "@ + active + " = false;\n"@, task, "1106"@, "invalid awaitable poll status"@, "    "@),
                c_meaning::written(out, wait_code::unknown_code(awaited), task, "    "@),
            )
        }),
{
    broadcast use {
        c_meaning::joined,
        c_meaning::nothing_behind,
        c_meaning::written_then,
        c_meaning::written_if_in_function,
        c_meaning::written_if_in_block,
        c_meaning::written_nothing,
    };
    let child = c_source::path(task, LogicalFieldId::DirectChildPayload(instance));
    let active = c_source::path(task, LogicalFieldId::DirectChildActive(instance));
    failure_is_written(out + "    "@ + stem + "_destroy("@ + child + ");\n    "@ + child + " = NULL;\n    "@ + active + " = false;\n"@, task, "1106"@, "invalid awaitable poll status"@, "    "@);
    wait_literals();
}

proof fn bound_check_is_written(
    out: Seq<char>,
    task: TaskView,
    declaration: DeclarationId,
)
    ensures
        ({
            let binding = c_source::path(task, LogicalFieldId::Lifted(declaration));
            let active = c_source::path(task, LogicalFieldId::BindingActive(declaration));
            c_meaning::same(
                c_runtime_text::async_error_at_text(out + "    if (!"@ + active + ") {\n"@, task, "1109"@, "inactive task binding"@, "        "@) + "    }\n"@,
                c_meaning::written(out, wait_code::unless_active(LogicalFieldId::BindingActive(declaration)), task, "    "@),
            )
        }),
{
    broadcast use {
        c_meaning::joined,
        c_meaning::nothing_behind,
        c_meaning::written_then,
        c_meaning::written_if_in_function,
        c_meaning::written_if_in_block,
        c_meaning::written_nothing,
    };
    let active = c_source::path(task, LogicalFieldId::BindingActive(declaration));
    failure_is_written(out + "    if (!"@ + active + ") {\n"@, task, "1109"@, "inactive task binding"@, "        "@);
    wait_literals();
}

proof fn bound_poll_is_written(
    out: Seq<char>,
    task: TaskView,
    stem: Seq<char>,
    declaration: DeclarationId,
    name: Seq<char>,
    state: Seq<char>,
    accessors: bool,
    binding_number: Seq<char>,
    embedded: bool,
)
    ensures
        ({
            let binding = c_source::path(task, LogicalFieldId::Lifted(declaration));
            let state_path = c_source::path(task, LogicalFieldId::State);
            let awaited = wait_code::bound_task(declaration, stem, embedded, accessors, "cr_binding_"@ + binding_number + "_error"@);
            let address = if embedded { "&"@ } else { ""@ };
            c_meaning::same(
                out + "    "@ + state_path + " = "@ + state + "u;\n"@ + "    cr_poll_status "@ + name + " = "@ + stem + "_poll("@ + address + binding + ", poll_context);\n"@,
                c_meaning::written(out, wait_code::poll_code(awaited, name, state), task, "    "@),
            )
        }),
{
    broadcast use {
        c_meaning::joined,
        c_meaning::nothing_behind,
        c_meaning::written_then,
        c_meaning::written_if_in_function,
        c_meaning::written_if_in_block,
        c_meaning::written_nothing,
    };
    wait_literals();
}

proof fn bound_ready_is_written(
    out: Seq<char>,
    task: TaskView,
    stem: Seq<char>,
    declaration: DeclarationId,
    slot: AwaitSlotId,
    name: Seq<char>,
    target: Seq<char>,
    accessors: bool,
    binding_number: Seq<char>,
    embedded: bool,
)
    requires
        !accessors,
    ensures
        ({
            let binding = c_source::path(task, LogicalFieldId::Lifted(declaration));
            let result = c_source::path(task, LogicalFieldId::AwaitResult(slot));
            let awaited = wait_code::bound_task(declaration, stem, embedded, accessors, "cr_binding_"@ + binding_number + "_error"@);
            let member = if embedded { "."@ } else { "->"@ };
            c_meaning::same(
                out + "    if ("@ + name + " == CR_POLL_READY) {\n"@ + "        "@ + result + " = "@ + binding + member + "result;\n"@ + "        goto cr_b"@ + target + ";\n    }\n"@,
                c_meaning::written(out, c_meaning::when(wait_code::polled(name, "CR_POLL_READY"@), wait_code::ready_code(awaited, true, slot, target)), task, "    "@),
            )
        }),
{
    broadcast use {
        c_meaning::joined,
        c_meaning::nothing_behind,
        c_meaning::written_then,
        c_meaning::written_if_in_function,
        c_meaning::written_if_in_block,
        c_meaning::written_nothing,
    };
    wait_literals();
}

proof fn bound_found_is_written(
    out: Seq<char>,
    task: TaskView,
    stem: Seq<char>,
    declaration: DeclarationId,
    slot: AwaitSlotId,
    name: Seq<char>,
    target: Seq<char>,
    accessors: bool,
    binding_number: Seq<char>,
    embedded: bool,
)
    requires
        accessors && !embedded,
    ensures
        ({
            let binding = c_source::path(task, LogicalFieldId::Lifted(declaration));
            let result = c_source::path(task, LogicalFieldId::AwaitResult(slot));
            let awaited = wait_code::bound_task(declaration, stem, embedded, accessors, "cr_binding_"@ + binding_number + "_error"@);
            c_meaning::same(
                out + "    if ("@ + name + " == CR_POLL_READY) {\n"@ + "        "@ + result + " = *"@ + stem + "_result("@ + binding + ");\n"@ + "        goto cr_b"@ + target + ";\n    }\n"@,
                c_meaning::written(out, c_meaning::when(wait_code::polled(name, "CR_POLL_READY"@), wait_code::ready_code(awaited, true, slot, target)), task, "    "@),
            )
        }),
{
    broadcast use {
        c_meaning::joined,
        c_meaning::nothing_behind,
        c_meaning::written_then,
        c_meaning::written_if_in_function,
        c_meaning::written_if_in_block,
        c_meaning::written_nothing,
    };
    wait_literals();
}

proof fn bound_done_is_written(
    out: Seq<char>,
    task: TaskView,
    stem: Seq<char>,
    declaration: DeclarationId,
    slot: AwaitSlotId,
    name: Seq<char>,
    target: Seq<char>,
    accessors: bool,
    binding_number: Seq<char>,
    embedded: bool,
)
    ensures
        ({
            let awaited = wait_code::bound_task(declaration, stem, embedded, accessors, "cr_binding_"@ + binding_number + "_error"@);
            c_meaning::same(
                out + "    if ("@ + name + " == CR_POLL_READY) {\n"@ + "        goto cr_b"@ + target + ";\n    }\n"@,
                c_meaning::written(out, c_meaning::when(wait_code::polled(name, "CR_POLL_READY"@), wait_code::ready_code(awaited, false, slot, target)), task, "    "@),
            )
        }),
{
    broadcast use {
        c_meaning::joined,
        c_meaning::nothing_behind,
        c_meaning::written_then,
        c_meaning::written_if_in_function,
        c_meaning::written_if_in_block,
        c_meaning::written_nothing,
    };
    wait_literals();
}

proof fn bound_error_is_written(
    out: Seq<char>,
    task: TaskView,
    stem: Seq<char>,
    declaration: DeclarationId,
    name: Seq<char>,
    accessors: bool,
    binding_number: Seq<char>,
    embedded: bool,
)
    requires
        !accessors,
    ensures
        ({
            let binding = c_source::path(task, LogicalFieldId::Lifted(declaration));
            let error = c_source::path(task, LogicalFieldId::Error);
            let cleanups = c_source::path(task, LogicalFieldId::Cleanups);
            let status_path = c_source::path(task, LogicalFieldId::Status);
            let awaited = wait_code::bound_task(declaration, stem, embedded, accessors, "cr_binding_"@ + binding_number + "_error"@);
            let member = if embedded { "."@ } else { "->"@ };
            c_meaning::same(
                out + "    if ("@ + name + " == CR_POLL_ERROR) {\n"@ + "        "@ + error + " = "@ + binding + member + "error;\n"@ + "        cr_cleanup_run_all(&"@ + cleanups + ");\n        "@ + status_path + " = CR_POLL_ERROR;\n        return "@ + status_path + ";\n    }\n"@,
                c_meaning::written(out, c_meaning::when(wait_code::polled(name, "CR_POLL_ERROR"@), wait_code::error_code(awaited)), task, "    "@),
            )
        }),
{
    broadcast use {
        c_meaning::joined,
        c_meaning::nothing_behind,
        c_meaning::written_then,
        c_meaning::written_if_in_function,
        c_meaning::written_if_in_block,
        c_meaning::written_nothing,
    };
    wait_literals();
}

proof fn bound_detail_is_written(
    out: Seq<char>,
    task: TaskView,
    stem: Seq<char>,
    declaration: DeclarationId,
    name: Seq<char>,
    accessors: bool,
    binding_number: Seq<char>,
    embedded: bool,
)
    requires
        accessors && !embedded,
    ensures
        ({
            let binding = c_source::path(task, LogicalFieldId::Lifted(declaration));
            let error = c_source::path(task, LogicalFieldId::Error);
            let cleanups = c_source::path(task, LogicalFieldId::Cleanups);
            let status_path = c_source::path(task, LogicalFieldId::Status);
            let detail = "cr_binding_"@ + binding_number + "_error"@;
            let awaited = wait_code::bound_task(declaration, stem, embedded, accessors, "cr_binding_"@ + binding_number + "_error"@);
            c_meaning::same(
                out + "    if ("@ + name + " == CR_POLL_ERROR) {\n"@ + "        const cr_error *"@ + detail + " = "@ + stem + "_error("@ + binding + ");\n"@ + "        "@ + error + " = "@ + detail + " != NULL ? *"@ + detail + " : (cr_error){CR_ERROR_MISSING_CHILD_ERROR, \"boxed binding error without details\"};\n"@ + "        cr_cleanup_run_all(&"@ + cleanups + ");\n        "@ + status_path + " = CR_POLL_ERROR;\n        return "@ + status_path + ";\n    }\n"@,
                c_meaning::written(out, c_meaning::when(wait_code::polled(name, "CR_POLL_ERROR"@), wait_code::error_code(awaited)), task, "    "@),
            )
        }),
{
    broadcast use {
        c_meaning::joined,
        c_meaning::nothing_behind,
        c_meaning::written_then,
        c_meaning::written_if_in_function,
        c_meaning::written_if_in_block,
        c_meaning::written_nothing,
    };
    wait_literals();
}

proof fn bound_cancel_is_written(
    out: Seq<char>,
    task: TaskView,
    stem: Seq<char>,
    declaration: DeclarationId,
    name: Seq<char>,
    accessors: bool,
    binding_number: Seq<char>,
    embedded: bool,
)
    ensures
        ({
            let cleanups = c_source::path(task, LogicalFieldId::Cleanups);
            let status_path = c_source::path(task, LogicalFieldId::Status);
            let awaited = wait_code::bound_task(declaration, stem, embedded, accessors, "cr_binding_"@ + binding_number + "_error"@);
            c_meaning::same(
                out + "    if ("@ + name + " == CR_POLL_CANCELED) {\n"@ + "        cr_cleanup_run_all(&"@ + cleanups + ");\n        "@ + status_path + " = CR_POLL_CANCELED;\n        return "@ + status_path + ";\n    }\n"@,
                c_meaning::written(out, c_meaning::when(wait_code::polled(name, "CR_POLL_CANCELED"@), wait_code::canceled_code(awaited)), task, "    "@),
            )
        }),
{
    broadcast use {
        c_meaning::joined,
        c_meaning::nothing_behind,
        c_meaning::written_then,
        c_meaning::written_if_in_function,
        c_meaning::written_if_in_block,
        c_meaning::written_nothing,
    };
    wait_literals();
}

proof fn bound_yield_is_written(
    out: Seq<char>,
    task: TaskView,
    stem: Seq<char>,
    declaration: DeclarationId,
    name: Seq<char>,
    accessors: bool,
    binding_number: Seq<char>,
    embedded: bool,
)
    requires
        !accessors,
    ensures
        ({
            let binding = c_source::path(task, LogicalFieldId::Lifted(declaration));
            let status_path = c_source::path(task, LogicalFieldId::Status);
            let yielded = c_source::path(task, LogicalFieldId::Yielded);
            let awaited = wait_code::bound_task(declaration, stem, embedded, accessors, "cr_binding_"@ + binding_number + "_error"@);
            let member = if embedded { "."@ } else { "->"@ };
            c_meaning::same(
                out + "    if ("@ + name + " == CR_POLL_YIELDED) {\n"@ + "        "@ + yielded + " = "@ + binding + member + "yielded;\n"@ + "        "@ + status_path + " = CR_POLL_YIELDED;\n        return "@ + status_path + ";\n"@ + "    }\n"@,
                c_meaning::written(out, c_meaning::when(wait_code::polled(name, "CR_POLL_YIELDED"@), wait_code::yielded_code(awaited, true)), task, "    "@),
            )
        }),
{
    broadcast use {
        c_meaning::joined,
        c_meaning::nothing_behind,
        c_meaning::written_then,
        c_meaning::written_if_in_function,
        c_meaning::written_if_in_block,
        c_meaning::written_nothing,
    };
    wait_literals();
}

proof fn bound_passed_is_written(
    out: Seq<char>,
    task: TaskView,
    stem: Seq<char>,
    declaration: DeclarationId,
    name: Seq<char>,
    accessors: bool,
    binding_number: Seq<char>,
    embedded: bool,
)
    requires
        accessors && !embedded,
    ensures
        ({
            let binding = c_source::path(task, LogicalFieldId::Lifted(declaration));
            let status_path = c_source::path(task, LogicalFieldId::Status);
            let yielded = c_source::path(task, LogicalFieldId::Yielded);
            let awaited = wait_code::bound_task(declaration, stem, embedded, accessors, "cr_binding_"@ + binding_number + "_error"@);
            c_meaning::same(
                out + "    if ("@ + name + " == CR_POLL_YIELDED) {\n"@ + "        "@ + yielded + " = *"@ + stem + "_yielded("@ + binding + ");\n"@ + "        "@ + status_path + " = CR_POLL_YIELDED;\n        return "@ + status_path + ";\n"@ + "    }\n"@,
                c_meaning::written(out, c_meaning::when(wait_code::polled(name, "CR_POLL_YIELDED"@), wait_code::yielded_code(awaited, true)), task, "    "@),
            )
        }),
{
    broadcast use {
        c_meaning::joined,
        c_meaning::nothing_behind,
        c_meaning::written_then,
        c_meaning::written_if_in_function,
        c_meaning::written_if_in_block,
        c_meaning::written_nothing,
    };
    wait_literals();
}

proof fn bound_refuse_is_written(
    out: Seq<char>,
    task: TaskView,
    stem: Seq<char>,
    declaration: DeclarationId,
    name: Seq<char>,
    accessors: bool,
    binding_number: Seq<char>,
    embedded: bool,
)
    ensures
        ({
            let yielded = c_source::path(task, LogicalFieldId::Yielded);
            let awaited = wait_code::bound_task(declaration, stem, embedded, accessors, "cr_binding_"@ + binding_number + "_error"@);
            c_meaning::same(
                c_runtime_text::async_error_at_text(out + "    if ("@ + name + " == CR_POLL_YIELDED) {\n"@, task, "1005"@, "yielded awaitable has an incompatible value type"@, "        "@) + "    }\n"@,
                c_meaning::written(out, c_meaning::when(wait_code::polled(name, "CR_POLL_YIELDED"@), wait_code::yielded_code(awaited, false)), task, "    "@),
            )
        }),
{
    broadcast use {
        c_meaning::joined,
        c_meaning::nothing_behind,
        c_meaning::written_then,
        c_meaning::written_if_in_function,
        c_meaning::written_if_in_block,
        c_meaning::written_nothing,
    };
    failure_is_written(out + "    if ("@ + name + " == CR_POLL_YIELDED) {\n"@, task, "1005"@, "yielded awaitable has an incompatible value type"@, "        "@);
    wait_literals();
}

proof fn bound_unknown_is_written(
    out: Seq<char>,
    task: TaskView,
    stem: Seq<char>,
    declaration: DeclarationId,
    accessors: bool,
    binding_number: Seq<char>,
    embedded: bool,
)
    ensures
        ({
            let awaited = wait_code::bound_task(declaration, stem, embedded, accessors, "cr_binding_"@ + binding_number + "_error"@);
            c_meaning::same(
                c_runtime_text::async_error_at_text(out, task, "1106"@, "invalid awaitable poll status"@, "    "@),
                c_meaning::written(out, wait_code::unknown_code(awaited), task, "    "@),
            )
        }),
{
    broadcast use {
        c_meaning::joined,
        c_meaning::nothing_behind,
        c_meaning::written_then,
        c_meaning::written_if_in_function,
        c_meaning::written_if_in_block,
        c_meaning::written_nothing,
    };
    failure_is_written(out, task, "1106"@, "invalid awaitable poll status"@, "    "@);
    wait_literals();
}

/// The C of arguments declares a temporary for each.
pub proof fn arguments_are_written(
    out: Seq<char>,
    indent: Seq<char>,
    task: TaskView,
    name: Seq<char>,
    arguments: Seq<HirExpr>,
    parameters: Seq<AsyncParameter>,
    scopes: Seq<ScopeId>,
    scene: SceneView,
    n: int,
)
    ensures
        c_meaning::same(
            c_symbols::argument_lines(out, indent, name, arguments, parameters, scopes, scene, n),
            c_meaning::written(
                out,
                wait_code::argument_code(name, arguments, parameters, scopes, scene, n),
                task,
                indent,
            ),
        ),
    decreases n,
{
    broadcast use {c_meaning::written_then, c_meaning::written_nothing};

    if n > 0 {
        arguments_are_written(out, indent, task, name, arguments, parameters, scopes, scene, n - 1);
    }
}

/// The C that starts a child is that of a start.
pub proof fn start_is_written(
    out: Seq<char>,
    view: FunctionView,
    scopes: Seq<ScopeId>,
    operand: HirExpr,
    callee: CalleeView,
    instance: ChildInstanceId,
    name: Seq<char>,
    task: TaskView,
    child: Awaited,
    entry: Statement,
)
    requires
        child.active == LogicalFieldId::DirectChildActive(instance),
    ensures
        c_meaning::same(
            c_meaning::written(
                c_terminator::start_text(out, view, scopes, operand, callee, instance, name, task),
                entry,
                task,
                "        "@,
            ) + "    "@ + "}\n"@,
            c_meaning::written(
                out,
                wait_code::start_code(view, scopes, operand, callee, name, child, entry),
                task,
                "    "@,
            ),
        ),
{
    broadcast use {c_meaning::written_then, c_meaning::written_if_in_function};

    let active = c_source::path(task, child.active);
    let arguments = c_terminator::call_arguments(operand);
    assert(c_meaning::same(
        out + "    if (!"@ + active + ") {\n"@,
        out + "    "@ + "if ("@ + ("!"@ + active) + ") {\n"@,
    )) by {
        broadcast use c_meaning::joined;

        wait_literals();
    }
    arguments_are_written(
        out + "    if (!"@ + active + ") {\n"@,
        "        "@,
        task,
        name,
        arguments,
        callee.parameters,
        scopes,
        view.scene,
        arguments.len() as int,
    );
}

/// The C that waits for an embedded child starts it and follows its status.
pub proof fn embedded_wait_is_written(
    out: Seq<char>,
    task: TaskView,
    stem: Seq<char>,
    result_type: Seq<char>,
    return_type: Seq<char>,
    instance: ChildInstanceId,
    slot: AwaitSlotId,
    number: Seq<char>,
    state: Seq<char>,
    target: Seq<char>,
    arguments: Seq<char>,
)
    ensures
        ({
            let child = wait_code::embedded_child(instance, stem);
            let name = "cr_await_"@ + number + "_status"@;
            c_meaning::same(
                c_suspend::embedded_wait_text(
                    out,
                    task,
                    stem,
                    result_type,
                    return_type,
                    instance,
                    slot,
                    number,
                    state,
                    target,
                    arguments,
                ),
                c_meaning::written(
                    c_meaning::written(out, wait_code::embedded_entry(child, arguments), task, "        "@)
                        + "    "@ + "}\n"@,
                    wait_code::wait_code(
                        child,
                        result_type != "void"@,
                        result_type == return_type && return_type != "void"@,
                        slot,
                        name,
                        state,
                        target,
                    ),
                    task,
                    "    "@,
                ),
            )
        }),
{
    broadcast use {
        c_meaning::written_then,
        c_meaning::branch_behind_line,
        c_meaning::branch_behind_branch,
        c_meaning::line_behind_block,
    };

    reveal(c_suspend::embedded_wait_text);
    let child = wait_code::embedded_child(instance, stem);
    let name = "cr_await_"@ + number + "_status"@;
    let valued = result_type != "void"@;
    let yields = result_type == return_type && return_type != "void"@;
    let w0 = c_meaning::written(out, wait_code::embedded_entry(child, arguments), task, "        "@) + "    "@
        + "}\n"@;
    let w1 = c_meaning::written(w0, wait_code::poll_code(child, name, state), task, "    "@);
    let w2 = c_meaning::written(
        w1,
        Statement::ReturnIf(wait_code::polled(name, "CR_POLL_PENDING"@), Value::Read(Place::Local(name))),
        task,
        "    "@,
    );
    let w3 = c_meaning::written(
        w2,
        c_meaning::when(
            wait_code::polled(name, "CR_POLL_READY"@),
            wait_code::ready_code(child, valued, slot, target),
        ),
        task,
        "    "@,
    );
    let w4 = c_meaning::written(
        w3,
        c_meaning::when(wait_code::polled(name, "CR_POLL_ERROR"@), wait_code::error_code(child)),
        task,
        "    "@,
    );
    let w5 = c_meaning::written(
        w4,
        c_meaning::when(wait_code::polled(name, "CR_POLL_CANCELED"@), wait_code::canceled_code(child)),
        task,
        "    "@,
    );
    let w6 = c_meaning::written(
        w5,
        c_meaning::when(wait_code::polled(name, "CR_POLL_YIELDED"@), wait_code::yielded_code(child, yields)),
        task,
        "    "@,
    );
    embedded_start_is_written(out, task, stem, instance, arguments);
    embedded_poll_is_written(w0, task, stem, instance, name, state);
    pending_is_written(w1, task, name);
    if valued {
        embedded_ready_is_written(w2, task, stem, instance, slot, name, target);
    } else {
        embedded_done_is_written(w2, task, stem, instance, slot, name, target);
    }
    embedded_error_is_written(w3, task, stem, instance, name);
    embedded_cancel_is_written(w4, task, stem, instance, name);
    if yields {
        embedded_yield_is_written(w5, task, stem, instance, name);
    } else {
        embedded_refuse_is_written(w5, task, stem, instance, name);
    }
    embedded_unknown_is_written(w6, task, stem, instance);
}

/// The C that waits for a child on the heap creates it and follows its status.
#[verifier::rlimit(80)]
#[verifier::spinoff_prover]
pub proof fn boxed_wait_is_written(
    out: Seq<char>,
    task: TaskView,
    stem: Seq<char>,
    result_type: Seq<char>,
    return_type: Seq<char>,
    instance: ChildInstanceId,
    slot: AwaitSlotId,
    number: Seq<char>,
    box_number: Seq<char>,
    state: Seq<char>,
    target: Seq<char>,
    arguments: Seq<char>,
    accessors: bool,
)
    ensures
        ({
            let child = wait_code::boxed_child(instance, stem, accessors, "cr_boxed_"@ + box_number + "_error"@);
            let name = "cr_await_"@ + number + "_status"@;
            c_meaning::same(
                c_suspend::boxed_wait_text(
                    out,
                    task,
                    stem,
                    result_type,
                    return_type,
                    instance,
                    slot,
                    number,
                    box_number,
                    state,
                    target,
                    arguments,
                    accessors,
                ),
                c_meaning::written(
                    c_meaning::written(out, wait_code::boxed_entry(child, arguments, "cr_boxed_"@ + box_number + "_create_error"@), task, "        "@)
                        + "    "@ + "}\n"@,
                    wait_code::wait_code(
                        child,
                        result_type != "void"@,
                        result_type == return_type && return_type != "void"@,
                        slot,
                        name,
                        state,
                        target,
                    ),
                    task,
                    "    "@,
                ),
            )
        }),
{
    broadcast use {
        c_meaning::written_then,
        c_meaning::branch_behind_line,
        c_meaning::branch_behind_branch,
        c_meaning::line_behind_block,
    };

    reveal(c_suspend::boxed_wait_text);
    let child = wait_code::boxed_child(instance, stem, accessors, "cr_boxed_"@ + box_number + "_error"@);
    let name = "cr_await_"@ + number + "_status"@;
    let valued = result_type != "void"@;
    let yields = result_type == return_type && return_type != "void"@;
    let w0 = c_meaning::written(out, wait_code::boxed_entry(child, arguments, "cr_boxed_"@ + box_number + "_create_error"@), task, "        "@) + "    "@
        + "}\n"@;
    let w1 = c_meaning::written(w0, wait_code::poll_code(child, name, state), task, "    "@);
    let w2 = c_meaning::written(
        w1,
        Statement::ReturnIf(wait_code::polled(name, "CR_POLL_PENDING"@), Value::Read(Place::Local(name))),
        task,
        "    "@,
    );
    let w3 = c_meaning::written(
        w2,
        c_meaning::when(
            wait_code::polled(name, "CR_POLL_READY"@),
            wait_code::ready_code(child, valued, slot, target),
        ),
        task,
        "    "@,
    );
    let w4 = c_meaning::written(
        w3,
        c_meaning::when(wait_code::polled(name, "CR_POLL_ERROR"@), wait_code::error_code(child)),
        task,
        "    "@,
    );
    let w5 = c_meaning::written(
        w4,
        c_meaning::when(wait_code::polled(name, "CR_POLL_CANCELED"@), wait_code::canceled_code(child)),
        task,
        "    "@,
    );
    let w6 = c_meaning::written(
        w5,
        c_meaning::when(wait_code::polled(name, "CR_POLL_YIELDED"@), wait_code::yielded_code(child, yields)),
        task,
        "    "@,
    );
    let create_error = "cr_boxed_"@ + box_number + "_create_error"@;
    let c0 = c_meaning::written(out, wait_code::no_error(create_error), task, "        "@);
    let c1 = c_meaning::written(
        c0,
        Statement::Create(
            Place::Own(child.holder),
            stem + "_create"@,
            if arguments == ""@ {
                ""@
            } else {
                arguments + ", "@
            },
            create_error,
        ),
        task,
        "        "@,
    );
    boxed_error_place_is_written(out, task, box_number);
    boxed_create_is_written(c0, task, stem, instance, arguments, box_number, accessors);
    boxed_missing_is_written(c1, task, stem, instance, box_number, accessors);
    boxed_poll_is_written(w0, task, stem, instance, name, state, box_number, accessors);
    pending_is_written(w1, task, name);
    if !valued {
        boxed_done_is_written(w2, task, stem, instance, slot, name, target, box_number, accessors);
    } else if accessors {
        boxed_found_is_written(w2, task, stem, instance, slot, name, target, box_number, accessors);
    } else {
        boxed_ready_is_written(w2, task, stem, instance, slot, name, target, box_number, accessors);
    }
    if accessors {
        boxed_detail_is_written(w3, task, stem, instance, name, box_number, accessors);
    } else {
        boxed_error_is_written(w3, task, stem, instance, name, box_number, accessors);
    }
    boxed_cancel_is_written(w4, task, stem, instance, name, box_number, accessors);
    if !yields {
        boxed_refuse_is_written(w5, task, stem, instance, name, box_number, accessors);
    } else if accessors {
        boxed_passed_is_written(w5, task, stem, instance, name, box_number, accessors);
    } else {
        boxed_yield_is_written(w5, task, stem, instance, name, box_number, accessors);
    }
    boxed_unknown_is_written(w6, task, stem, instance, box_number, accessors);
}

/// The C that waits for a bound task follows its status.
pub proof fn bound_wait_is_written(
    out: Seq<char>,
    task: TaskView,
    stem: Seq<char>,
    result_type: Seq<char>,
    return_type: Seq<char>,
    declaration: DeclarationId,
    slot: AwaitSlotId,
    number: Seq<char>,
    binding_number: Seq<char>,
    state: Seq<char>,
    target: Seq<char>,
    embedded: bool,
    accessors: bool,
)
    requires
        accessors ==> !embedded,
    ensures
        ({
            let child = wait_code::bound_task(
        declaration,
        stem,
        embedded,
        accessors,
        "cr_binding_"@ + binding_number + "_error"@,
    );
            let name = "cr_await_"@ + number + "_status"@;
            c_meaning::same(
                c_suspend::binding_wait_text(
                    out,
                    task,
                    stem,
                    result_type,
                    return_type,
                    declaration,
                    slot,
                    number,
                    binding_number,
                    state,
                    target,
                    embedded,
                    accessors,
                ),
                c_meaning::written(
                    c_meaning::written(out, wait_code::unless_active(child.active), task, "    "@),
                    wait_code::wait_code(
                        child,
                        result_type != "void"@,
                        result_type == return_type && return_type != "void"@,
                        slot,
                        name,
                        state,
                        target,
                    ),
                    task,
                    "    "@,
                ),
            )
        }),
{
    broadcast use {
        c_meaning::written_then,
        c_meaning::branch_behind_line,
        c_meaning::branch_behind_branch,
        c_meaning::line_behind_block,
    };

    reveal(c_suspend::binding_wait_text);
    let child = wait_code::bound_task(
        declaration,
        stem,
        embedded,
        accessors,
        "cr_binding_"@ + binding_number + "_error"@,
    );
    let name = "cr_await_"@ + number + "_status"@;
    let valued = result_type != "void"@;
    let yields = result_type == return_type && return_type != "void"@;
    let w0 = c_meaning::written(out, wait_code::unless_active(child.active), task, "    "@);
    let w1 = c_meaning::written(w0, wait_code::poll_code(child, name, state), task, "    "@);
    let w2 = c_meaning::written(
        w1,
        Statement::ReturnIf(wait_code::polled(name, "CR_POLL_PENDING"@), Value::Read(Place::Local(name))),
        task,
        "    "@,
    );
    let w3 = c_meaning::written(
        w2,
        c_meaning::when(
            wait_code::polled(name, "CR_POLL_READY"@),
            wait_code::ready_code(child, valued, slot, target),
        ),
        task,
        "    "@,
    );
    let w4 = c_meaning::written(
        w3,
        c_meaning::when(wait_code::polled(name, "CR_POLL_ERROR"@), wait_code::error_code(child)),
        task,
        "    "@,
    );
    let w5 = c_meaning::written(
        w4,
        c_meaning::when(wait_code::polled(name, "CR_POLL_CANCELED"@), wait_code::canceled_code(child)),
        task,
        "    "@,
    );
    let w6 = c_meaning::written(
        w5,
        c_meaning::when(wait_code::polled(name, "CR_POLL_YIELDED"@), wait_code::yielded_code(child, yields)),
        task,
        "    "@,
    );
    bound_check_is_written(out, task, declaration);
    bound_poll_is_written(w0, task, stem, declaration, name, state, accessors, binding_number, embedded);
    pending_is_written(w1, task, name);
    if !valued {
        bound_done_is_written(w2, task, stem, declaration, slot, name, target, accessors, binding_number, embedded);
    } else if accessors {
        bound_found_is_written(w2, task, stem, declaration, slot, name, target, accessors, binding_number, embedded);
    } else {
        bound_ready_is_written(w2, task, stem, declaration, slot, name, target, accessors, binding_number, embedded);
    }
    if accessors {
        bound_detail_is_written(w3, task, stem, declaration, name, accessors, binding_number, embedded);
    } else {
        bound_error_is_written(w3, task, stem, declaration, name, accessors, binding_number, embedded);
    }
    bound_cancel_is_written(w4, task, stem, declaration, name, accessors, binding_number, embedded);
    if !yields {
        bound_refuse_is_written(w5, task, stem, declaration, name, accessors, binding_number, embedded);
    } else if accessors {
        bound_passed_is_written(w5, task, stem, declaration, name, accessors, binding_number, embedded);
    } else {
        bound_yield_is_written(w5, task, stem, declaration, name, accessors, binding_number, embedded);
    }
    bound_unknown_is_written(w6, task, stem, declaration, accessors, binding_number, embedded);
}

} // verus!
