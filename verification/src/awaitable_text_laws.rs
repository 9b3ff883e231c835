//! The C that waits for awaitables of any make, taken apart into statements.

use vstd::prelude::*;

use crate::awaitable_code;
use crate::c_meaning;
use crate::c_meaning::{Place, Statement, Test, Value};
use crate::c_runtime_text;
use crate::c_source;
use crate::c_source::TaskView;
use crate::c_suspend;
use crate::context_layout::LogicalFieldId;
use crate::semantic::{AwaitSlotId, DeclarationId};
use crate::wait_code;
use crate::wait_text_laws;

verus! {

/// How the fixed parts of the C are made up.
proof fn awaitable_literals()
    ensures
        ".vtable == NULL || "@ == ".vtable"@ + " == "@ + "NULL"@ + " || "@,
        ".vtable->abi_version < CR_AWAITABLE_VTABLE_ABI_VERSION || "@ == ".vtable->abi_version < CR_AWAITABLE_VTABLE_ABI_VERSION"@ + " || "@,
        ".vtable->struct_size < CR_AWAITABLE_VTABLE_DROP_PREFIX_SIZE) {\n"@ == ".vtable->struct_size < CR_AWAITABLE_VTABLE_DROP_PREFIX_SIZE"@ + ") {\n"@,
        ".vtable->struct_size < CR_AWAITABLE_VTABLE_V1_MIN_SIZE) {\n"@ == ".vtable->struct_size < CR_AWAITABLE_VTABLE_V1_MIN_SIZE"@ + ") {\n"@,
        ".vtable->poll == NULL || "@ == ".vtable->"@ + "poll"@ + " == "@ + "NULL"@ + " || "@,
        ".vtable->drop == NULL) {\n"@ == ".vtable->"@ + "drop"@ + " == "@ + "NULL"@ + ") {\n"@,
        ")) {\n"@ == ")"@ + ") {\n"@,
        ".vtable->value_align != 0u) {\n"@ == ".vtable->value_align != 0u"@ + ") {\n"@,
        "u;\n    if (("@ == "u"@ + ";\n"@ + "    "@ + "if ("@ + "("@,
        ".vtable->required_context_capabilities & ~CR_POLL_KNOWN_CAPABILITIES) != 0u) {\n"@ == ".vtable->required_context_capabilities & ~CR_POLL_KNOWN_CAPABILITIES) != 0u"@ + ") {\n"@,
        "    if (("@ == "    "@ + "if ("@ + "("@,
        ".vtable->required_context_capabilities & ~(poll_context != NULL ? poll_context->available_capabilities : 0u)) != 0u) {\n"@ == ".vtable->required_context_capabilities & ~(poll_context != NULL ? poll_context->available_capabilities : 0u)) != 0u"@ + ") {\n"@,
        "    if (!"@ == "    "@ + "if ("@ + "!"@,
        "        if (!"@ == "        "@ + "if ("@ + "!"@,
        "    if ("@ == "    "@ + "if ("@,
        " == CR_POLL_READY) {\n"@ == " == "@ + "CR_POLL_READY"@ + ") {\n"@,
        " == CR_POLL_ERROR) {\n"@ == " == "@ + "CR_POLL_ERROR"@ + ") {\n"@,
        " == CR_POLL_CANCELED) {\n"@ == " == "@ + "CR_POLL_CANCELED"@ + ") {\n"@,
        " == CR_POLL_YIELDED) {\n"@ == " == "@ + "CR_POLL_YIELDED"@ + ") {\n"@,
        "    cr_poll_status "@ == "    "@ + "cr_poll_status "@,
        ".vtable->poll("@ == ".vtable->poll"@ + "("@,
        ".state, poll_context, "@ == ".state"@ + ", poll_context, "@,
        ");\n"@ == ")"@ + ";\n"@,
        "        const cr_error *cr_await_"@ == "        "@ + "const cr_error *"@ + "cr_await_"@,
        "_error = "@ == "_error"@ + " = "@,
        ".state) : NULL;\n"@ == ".state) : NULL"@ + ";\n"@,
        " = cr_await_"@ == " = "@ + "cr_await_"@,
        "_error != NULL ? *cr_await_"@ == "_error"@ + " != NULL ? *"@ + "cr_await_"@,
        "_error : (cr_error){CR_ERROR_MISSING_CHILD_ERROR, \"awaitable error without details\"};\n"@ == "_error"@ + " : "@ + "(cr_error){"@ + "CR_ERROR_MISSING_CHILD_ERROR"@ + ", \""@ + "awaitable error without details"@ + "\"}"@ + ";\n"@,
        "        cr_cleanup_run_all(&"@ == "        "@ + "cr_cleanup_run_all"@ + "("@ + "&"@,
        ");\n        "@ == ")"@ + ";\n"@ + "        "@,
        " = CR_POLL_ERROR;\n        return "@ == " = "@ + "CR_POLL_ERROR"@ + ";\n"@ + "        "@ + "return "@,
        " = CR_POLL_CANCELED;\n        return "@ == " = "@ + "CR_POLL_CANCELED"@ + ";\n"@ + "        "@ + "return "@,
        ";\n        "@ == ";\n"@ + "        "@,
        " = CR_POLL_YIELDED;\n        return "@ == " = "@ + "CR_POLL_YIELDED"@ + ";\n"@ + "        "@ + "return "@,
        "        goto cr_b"@ == "        "@ + "goto cr_b"@,
        " == CR_POLL_PENDING) return "@ == " == "@ + "CR_POLL_PENDING"@ + ") return "@,
        ".vtable->drop != NULL) "@ == ".vtable->"@ + "drop"@ + " != "@ + "NULL"@ + ") "@,
        ".vtable->drop("@ == ".vtable->drop"@ + "("@,
        ".state);\n"@ == ".state"@ + ")"@ + ";\n"@,
        ".vtable != NULL && "@ == ".vtable"@ + " != "@ + "NULL"@ + " && "@,
        " = false;\n"@ == " = "@ + "false"@ + ";\n"@,
        " = true;\n    }\n"@ == " = "@ + "true"@ + ";\n"@ + "    "@ + "}\n"@,
{
    assert(".vtable == NULL || "@ =~= ".vtable"@ + " == "@ + "NULL"@ + " || "@) by {
        reveal_strlit(".vtable == NULL || ");
        reveal_strlit(".vtable");
        reveal_strlit(" == ");
        reveal_strlit("NULL");
        reveal_strlit(" || ");
    }
    assert(".vtable->abi_version < CR_AWAITABLE_VTABLE_ABI_VERSION || "@ =~= ".vtable->abi_version < CR_AWAITABLE_VTABLE_ABI_VERSION"@ + " || "@) by {
        reveal_strlit(".vtable->abi_version < CR_AWAITABLE_VTABLE_ABI_VERSION || ");
        reveal_strlit(".vtable->abi_version < CR_AWAITABLE_VTABLE_ABI_VERSION");
        reveal_strlit(" || ");
    }
    assert(".vtable->struct_size < CR_AWAITABLE_VTABLE_DROP_PREFIX_SIZE) {\n"@ =~= ".vtable->struct_size < CR_AWAITABLE_VTABLE_DROP_PREFIX_SIZE"@ + ") {\n"@) by {
        reveal_strlit(".vtable->struct_size < CR_AWAITABLE_VTABLE_DROP_PREFIX_SIZE) {\n");
        reveal_strlit(".vtable->struct_size < CR_AWAITABLE_VTABLE_DROP_PREFIX_SIZE");
        reveal_strlit(") {\n");
    }
    assert(".vtable->struct_size < CR_AWAITABLE_VTABLE_V1_MIN_SIZE) {\n"@ =~= ".vtable->struct_size < CR_AWAITABLE_VTABLE_V1_MIN_SIZE"@ + ") {\n"@) by {
        reveal_strlit(".vtable->struct_size < CR_AWAITABLE_VTABLE_V1_MIN_SIZE) {\n");
        reveal_strlit(".vtable->struct_size < CR_AWAITABLE_VTABLE_V1_MIN_SIZE");
        reveal_strlit(") {\n");
    }
    assert(".vtable->poll == NULL || "@ =~= ".vtable->"@ + "poll"@ + " == "@ + "NULL"@ + " || "@) by {
        reveal_strlit(".vtable->poll == NULL || ");
        reveal_strlit(".vtable->");
        reveal_strlit("poll");
        reveal_strlit(" == ");
        reveal_strlit("NULL");
        reveal_strlit(" || ");
    }
    assert(".vtable->drop == NULL) {\n"@ =~= ".vtable->"@ + "drop"@ + " == "@ + "NULL"@ + ") {\n"@) by {
        reveal_strlit(".vtable->drop == NULL) {\n");
        reveal_strlit(".vtable->");
        reveal_strlit("drop");
        reveal_strlit(" == ");
        reveal_strlit("NULL");
        reveal_strlit(") {\n");
    }
    assert(")) {\n"@ =~= ")"@ + ") {\n"@) by {
        reveal_strlit(")) {\n");
        reveal_strlit(")");
        reveal_strlit(") {\n");
    }
    assert(".vtable->value_align != 0u) {\n"@ =~= ".vtable->value_align != 0u"@ + ") {\n"@) by {
        reveal_strlit(".vtable->value_align != 0u) {\n");
        reveal_strlit(".vtable->value_align != 0u");
        reveal_strlit(") {\n");
    }
    assert("u;\n    if (("@ =~= "u"@ + ";\n"@ + "    "@ + "if ("@ + "("@) by {
        reveal_strlit("u;\n    if ((");
        reveal_strlit("u");
        reveal_strlit(";\n");
        reveal_strlit("    ");
        reveal_strlit("if (");
        reveal_strlit("(");
    }
    assert(".vtable->required_context_capabilities & ~CR_POLL_KNOWN_CAPABILITIES) != 0u) {\n"@ =~= ".vtable->required_context_capabilities & ~CR_POLL_KNOWN_CAPABILITIES) != 0u"@ + ") {\n"@) by {
        reveal_strlit(".vtable->required_context_capabilities & ~CR_POLL_KNOWN_CAPABILITIES) != 0u) {\n");
        reveal_strlit(".vtable->required_context_capabilities & ~CR_POLL_KNOWN_CAPABILITIES) != 0u");
        reveal_strlit(") {\n");
    }
    assert("    if (("@ =~= "    "@ + "if ("@ + "("@) by {
        reveal_strlit("    if ((");
        reveal_strlit("    ");
        reveal_strlit("if (");
        reveal_strlit("(");
    }
    assert(".vtable->required_context_capabilities & ~(poll_context != NULL ? poll_context->available_capabilities : 0u)) != 0u) {\n"@ =~= ".vtable->required_context_capabilities & ~(poll_context != NULL ? poll_context->available_capabilities : 0u)) != 0u"@ + ") {\n"@) by {
        reveal_strlit(".vtable->required_context_capabilities & ~(poll_context != NULL ? poll_context->available_capabilities : 0u)) != 0u) {\n");
        reveal_strlit(".vtable->required_context_capabilities & ~(poll_context != NULL ? poll_context->available_capabilities : 0u)) != 0u");
        reveal_strlit(") {\n");
    }
    assert("    if (!"@ =~= "    "@ + "if ("@ + "!"@) by {
        reveal_strlit("    if (!");
        reveal_strlit("    ");
        reveal_strlit("if (");
        reveal_strlit("!");
    }
    assert("        if (!"@ =~= "        "@ + "if ("@ + "!"@) by {
        reveal_strlit("        if (!");
        reveal_strlit("        ");
        reveal_strlit("if (");
        reveal_strlit("!");
    }
    assert("    if ("@ =~= "    "@ + "if ("@) by {
        reveal_strlit("    if (");
        reveal_strlit("    ");
        reveal_strlit("if (");
    }
    assert(" == CR_POLL_READY) {\n"@ =~= " == "@ + "CR_POLL_READY"@ + ") {\n"@) by {
        reveal_strlit(" == CR_POLL_READY) {\n");
        reveal_strlit(" == ");
        reveal_strlit("CR_POLL_READY");
        reveal_strlit(") {\n");
    }
    assert(" == CR_POLL_ERROR) {\n"@ =~= " == "@ + "CR_POLL_ERROR"@ + ") {\n"@) by {
        reveal_strlit(" == CR_POLL_ERROR) {\n");
        reveal_strlit(" == ");
        reveal_strlit("CR_POLL_ERROR");
        reveal_strlit(") {\n");
    }
    assert(" == CR_POLL_CANCELED) {\n"@ =~= " == "@ + "CR_POLL_CANCELED"@ + ") {\n"@) by {
        reveal_strlit(" == CR_POLL_CANCELED) {\n");
        reveal_strlit(" == ");
        reveal_strlit("CR_POLL_CANCELED");
        reveal_strlit(") {\n");
    }
    assert(" == CR_POLL_YIELDED) {\n"@ =~= " == "@ + "CR_POLL_YIELDED"@ + ") {\n"@) by {
        reveal_strlit(" == CR_POLL_YIELDED) {\n");
        reveal_strlit(" == ");
        reveal_strlit("CR_POLL_YIELDED");
        reveal_strlit(") {\n");
    }
    assert("    cr_poll_status "@ =~= "    "@ + "cr_poll_status "@) by {
        reveal_strlit("    cr_poll_status ");
        reveal_strlit("    ");
        reveal_strlit("cr_poll_status ");
    }
    assert(".vtable->poll("@ =~= ".vtable->poll"@ + "("@) by {
        reveal_strlit(".vtable->poll(");
        reveal_strlit(".vtable->poll");
        reveal_strlit("(");
    }
    assert(".state, poll_context, "@ =~= ".state"@ + ", poll_context, "@) by {
        reveal_strlit(".state, poll_context, ");
        reveal_strlit(".state");
        reveal_strlit(", poll_context, ");
    }
    assert(");\n"@ =~= ")"@ + ";\n"@) by {
        reveal_strlit(");\n");
        reveal_strlit(")");
        reveal_strlit(";\n");
    }
    assert("        const cr_error *cr_await_"@ =~= "        "@ + "const cr_error *"@ + "cr_await_"@) by {
        reveal_strlit("        const cr_error *cr_await_");
        reveal_strlit("        ");
        reveal_strlit("const cr_error *");
        reveal_strlit("cr_await_");
    }
    assert("_error = "@ =~= "_error"@ + " = "@) by {
        reveal_strlit("_error = ");
        reveal_strlit("_error");
        reveal_strlit(" = ");
    }
    assert(".state) : NULL;\n"@ =~= ".state) : NULL"@ + ";\n"@) by {
        reveal_strlit(".state) : NULL;\n");
        reveal_strlit(".state) : NULL");
        reveal_strlit(";\n");
    }
    assert(" = cr_await_"@ =~= " = "@ + "cr_await_"@) by {
        reveal_strlit(" = cr_await_");
        reveal_strlit(" = ");
        reveal_strlit("cr_await_");
    }
    assert("_error != NULL ? *cr_await_"@ =~= "_error"@ + " != NULL ? *"@ + "cr_await_"@) by {
        reveal_strlit("_error != NULL ? *cr_await_");
        reveal_strlit("_error");
        reveal_strlit(" != NULL ? *");
        reveal_strlit("cr_await_");
    }
    assert("_error : (cr_error){CR_ERROR_MISSING_CHILD_ERROR, \"awaitable error without details\"};\n"@ =~= "_error"@ + " : "@ + "(cr_error){"@ + "CR_ERROR_MISSING_CHILD_ERROR"@ + ", \""@ + "awaitable error without details"@ + "\"}"@ + ";\n"@) by {
        reveal_strlit("_error : (cr_error){CR_ERROR_MISSING_CHILD_ERROR, \"awaitable error without details\"};\n");
        reveal_strlit("_error");
        reveal_strlit(" : ");
        reveal_strlit("(cr_error){");
        reveal_strlit("CR_ERROR_MISSING_CHILD_ERROR");
        reveal_strlit(", \"");
        reveal_strlit("awaitable error without details");
        reveal_strlit("\"}");
        reveal_strlit(";\n");
    }
    assert("        cr_cleanup_run_all(&"@ =~= "        "@ + "cr_cleanup_run_all"@ + "("@ + "&"@) by {
        reveal_strlit("        cr_cleanup_run_all(&");
        reveal_strlit("        ");
        reveal_strlit("cr_cleanup_run_all");
        reveal_strlit("(");
        reveal_strlit("&");
    }
    assert(");\n        "@ =~= ")"@ + ";\n"@ + "        "@) by {
        reveal_strlit(");\n        ");
        reveal_strlit(")");
        reveal_strlit(";\n");
        reveal_strlit("        ");
    }
    assert(" = CR_POLL_ERROR;\n        return "@ =~= " = "@ + "CR_POLL_ERROR"@ + ";\n"@ + "        "@ + "return "@) by {
        reveal_strlit(" = CR_POLL_ERROR;\n        return ");
        reveal_strlit(" = ");
        reveal_strlit("CR_POLL_ERROR");
        reveal_strlit(";\n");
        reveal_strlit("        ");
        reveal_strlit("return ");
    }
    assert(" = CR_POLL_CANCELED;\n        return "@ =~= " = "@ + "CR_POLL_CANCELED"@ + ";\n"@ + "        "@ + "return "@) by {
        reveal_strlit(" = CR_POLL_CANCELED;\n        return ");
        reveal_strlit(" = ");
        reveal_strlit("CR_POLL_CANCELED");
        reveal_strlit(";\n");
        reveal_strlit("        ");
        reveal_strlit("return ");
    }
    assert(";\n        "@ =~= ";\n"@ + "        "@) by {
        reveal_strlit(";\n        ");
        reveal_strlit(";\n");
        reveal_strlit("        ");
    }
    assert(" = CR_POLL_YIELDED;\n        return "@ =~= " = "@ + "CR_POLL_YIELDED"@ + ";\n"@ + "        "@ + "return "@) by {
        reveal_strlit(" = CR_POLL_YIELDED;\n        return ");
        reveal_strlit(" = ");
        reveal_strlit("CR_POLL_YIELDED");
        reveal_strlit(";\n");
        reveal_strlit("        ");
        reveal_strlit("return ");
    }
    assert("        goto cr_b"@ =~= "        "@ + "goto cr_b"@) by {
        reveal_strlit("        goto cr_b");
        reveal_strlit("        ");
        reveal_strlit("goto cr_b");
    }
    assert(" == CR_POLL_PENDING) return "@ =~= " == "@ + "CR_POLL_PENDING"@ + ") return "@) by {
        reveal_strlit(" == CR_POLL_PENDING) return ");
        reveal_strlit(" == ");
        reveal_strlit("CR_POLL_PENDING");
        reveal_strlit(") return ");
    }
    assert(".vtable->drop != NULL) "@ =~= ".vtable->"@ + "drop"@ + " != "@ + "NULL"@ + ") "@) by {
        reveal_strlit(".vtable->drop != NULL) ");
        reveal_strlit(".vtable->");
        reveal_strlit("drop");
        reveal_strlit(" != ");
        reveal_strlit("NULL");
        reveal_strlit(") ");
    }
    assert(".vtable->drop("@ =~= ".vtable->drop"@ + "("@) by {
        reveal_strlit(".vtable->drop(");
        reveal_strlit(".vtable->drop");
        reveal_strlit("(");
    }
    assert(".state);\n"@ =~= ".state"@ + ")"@ + ";\n"@) by {
        reveal_strlit(".state);\n");
        reveal_strlit(".state");
        reveal_strlit(")");
        reveal_strlit(";\n");
    }
    assert(".vtable != NULL && "@ =~= ".vtable"@ + " != "@ + "NULL"@ + " && "@) by {
        reveal_strlit(".vtable != NULL && ");
        reveal_strlit(".vtable");
        reveal_strlit(" != ");
        reveal_strlit("NULL");
        reveal_strlit(" && ");
    }
    assert(" = false;\n"@ =~= " = "@ + "false"@ + ";\n"@) by {
        reveal_strlit(" = false;\n");
        reveal_strlit(" = ");
        reveal_strlit("false");
        reveal_strlit(";\n");
    }
    assert(" = true;\n    }\n"@ =~= " = "@ + "true"@ + ";\n"@ + "    "@ + "}\n"@) by {
        reveal_strlit(" = true;\n    }\n");
        reveal_strlit(" = ");
        reveal_strlit("true");
        reveal_strlit(";\n");
        reveal_strlit("    ");
        reveal_strlit("}\n");
    }
}

proof fn discarding_is_written(
    out: Seq<char>,
    task: TaskView,
    awaitable: Seq<char>,
    indent: Seq<char>,
    owned: bool,
)
    ensures
        c_meaning::same(
            c_runtime_text::candidate_drop_text(out, awaitable, indent, owned),
            c_meaning::written(out, awaitable_code::discard(awaitable, owned), task, indent),
        ),
{
    broadcast use {
        c_meaning::joined,
        c_meaning::nothing_behind,
        c_meaning::written_then,
        c_meaning::written_if_in_function,
        c_meaning::written_if_in_block,
        c_meaning::written_nothing,
    };
    awaitable_literals();
}

proof fn refusal_is_written(
    out: Seq<char>,
    task: TaskView,
    opened: Seq<char>,
    test: Test,
    awaitable: Seq<char>,
    owned: bool,
    code: Seq<char>,
    message: Seq<char>,
    indent: Seq<char>,
)
    requires
        c_meaning::same(
            opened,
            out + indent + "if ("@ + c_meaning::test_text(test, task) + ") {\n"@,
        ),
    ensures
        c_meaning::same(
            c_runtime_text::async_error_at_text(
                c_runtime_text::candidate_drop_text(opened, awaitable, indent + "    "@, owned),
                task,
                code,
                message,
                indent + "    "@,
            ) + indent + "}\n"@,
            c_meaning::written(out, awaitable_code::refuse(test, awaitable, owned, code, message), task, indent),
        ),
{
    broadcast use {c_meaning::written_then, c_meaning::written_if};

    discarding_is_written(opened, task, awaitable, indent + "    "@, owned);
    wait_text_laws::failure_is_written(
        c_runtime_text::candidate_drop_text(opened, awaitable, indent + "    "@, owned),
        task,
        code,
        message,
        indent + "    "@,
    );
}

proof fn foreign_is_written(out: Seq<char>, task: TaskView, indent: Seq<char>, awaitable: Seq<char>)
    ensures
        c_meaning::same(
            out + indent + "if ("@ + awaitable + ".vtable == NULL || "@ + awaitable + ".vtable->abi_version < CR_AWAITABLE_VTABLE_ABI_VERSION || "@ + awaitable + ".vtable->struct_size < CR_AWAITABLE_VTABLE_DROP_PREFIX_SIZE) {\n"@,
            out + indent + "if ("@ + c_meaning::test_text(awaitable_code::foreign(awaitable), task) + ") {\n"@,
        ),
{
    broadcast use c_meaning::joined;

    reveal_with_fuel(c_meaning::test_text, 4);
    awaitable_literals();
}

proof fn short_is_written(out: Seq<char>, task: TaskView, indent: Seq<char>, awaitable: Seq<char>)
    ensures
        c_meaning::same(
            out + indent + "if ("@ + awaitable + ".vtable->struct_size < CR_AWAITABLE_VTABLE_V1_MIN_SIZE) {\n"@,
            out + indent + "if ("@ + c_meaning::test_text(awaitable_code::short(awaitable), task) + ") {\n"@,
        ),
{
    broadcast use c_meaning::joined;

    reveal_with_fuel(c_meaning::test_text, 4);
    awaitable_literals();
}

proof fn incomplete_is_written(out: Seq<char>, task: TaskView, indent: Seq<char>, awaitable: Seq<char>)
    ensures
        c_meaning::same(
            out + indent + "if ("@ + awaitable + ".vtable->poll == NULL || "@ + awaitable + ".vtable->drop == NULL) {\n"@,
            out + indent + "if ("@ + c_meaning::test_text(awaitable_code::incomplete(awaitable), task) + ") {\n"@,
        ),
{
    broadcast use c_meaning::joined;

    reveal_with_fuel(c_meaning::test_text, 4);
    awaitable_literals();
}

proof fn misfit_is_written(out: Seq<char>, task: TaskView, indent: Seq<char>, awaitable: Seq<char>, expected: Seq<char>)
    ensures
        c_meaning::same(
            out + indent + "if ("@ + awaitable + ".vtable->value_size != sizeof("@ + expected + ") || "@ + awaitable + ".vtable->value_align != _Alignof("@ + expected + ")) {\n"@,
            out + indent + "if ("@ + c_meaning::test_text(awaitable_code::misfit(awaitable, true, expected), task) + ") {\n"@,
        ),
{
    broadcast use c_meaning::joined;

    reveal_with_fuel(c_meaning::test_text, 4);
    awaitable_literals();
}

proof fn exposure_is_written(out: Seq<char>, task: TaskView, indent: Seq<char>, awaitable: Seq<char>, expected: Seq<char>)
    ensures
        c_meaning::same(
            out + indent + "if ("@ + awaitable + ".vtable->value_size != 0u || "@ + awaitable + ".vtable->value_align != 0u) {\n"@,
            out + indent + "if ("@ + c_meaning::test_text(awaitable_code::misfit(awaitable, false, expected), task) + ") {\n"@,
        ),
{
    broadcast use c_meaning::joined;

    reveal_with_fuel(c_meaning::test_text, 4);
    awaitable_literals();
}

proof fn letting_go_is_written(
    out: Seq<char>,
    task: TaskView,
    slot: AwaitSlotId,
    indent: Seq<char>,
    owned: bool,
)
    ensures
        c_meaning::same(
            c_runtime_text::await_release_text(out, task, slot, indent, owned),
            c_meaning::written(out, awaitable_code::let_go(awaitable_code::awaitable_text(task, slot), slot, owned), task, indent),
        ),
{
    broadcast use {
        c_meaning::joined,
        c_meaning::nothing_behind,
        c_meaning::written_then,
        c_meaning::written_if_in_function,
        c_meaning::written_if_in_block,
        c_meaning::written_nothing,
    };
    reveal_with_fuel(c_meaning::test_text, 3);
    awaitable_literals();
}

/// The C that checks an awaitable is that of a check.
pub proof fn check_is_written(
    out: Seq<char>,
    task: TaskView,
    awaitable: Seq<char>,
    valued: bool,
    expected: Seq<char>,
    indent: Seq<char>,
    owned: bool,
)
    ensures
        c_meaning::same(
            c_runtime_text::activation_validation_text(
                out,
                task,
                awaitable,
                valued,
                expected,
                indent,
                owned,
            ),
            c_meaning::written(out, awaitable_code::check_code(awaitable, valued, expected, owned), task, indent),
        ),
{
    broadcast use c_meaning::written_then;

    reveal(c_runtime_text::activation_validation_text);
    let w1 = c_meaning::written(
        out,
        awaitable_code::refuse(awaitable_code::foreign(awaitable), awaitable, false, "1102"@, "invalid awaitable ABI"@),
        task,
        indent,
    );
    let w2 = c_meaning::written(
        w1,
        awaitable_code::refuse(awaitable_code::short(awaitable), awaitable, owned, "1102"@, "invalid awaitable ABI"@),
        task,
        indent,
    );
    let w3 = c_meaning::written(
        w2,
        awaitable_code::refuse(awaitable_code::incomplete(awaitable), awaitable, owned, "1103"@, "awaitable callback missing"@),
        task,
        indent,
    );
    foreign_is_written(out, task, indent, awaitable);
    refusal_is_written(
        out,
        task,
        out + indent + "if ("@ + awaitable + ".vtable == NULL || "@ + awaitable
            + ".vtable->abi_version < CR_AWAITABLE_VTABLE_ABI_VERSION || "@ + awaitable
            + ".vtable->struct_size < CR_AWAITABLE_VTABLE_DROP_PREFIX_SIZE) {\n"@,
        awaitable_code::foreign(awaitable),
        awaitable,
        false,
        "1102"@,
        "invalid awaitable ABI"@,
        indent,
    );
    short_is_written(w1, task, indent, awaitable);
    refusal_is_written(
        w1,
        task,
        w1 + indent + "if ("@ + awaitable
            + ".vtable->struct_size < CR_AWAITABLE_VTABLE_V1_MIN_SIZE) {\n"@,
        awaitable_code::short(awaitable),
        awaitable,
        owned,
        "1102"@,
        "invalid awaitable ABI"@,
        indent,
    );
    incomplete_is_written(w2, task, indent, awaitable);
    refusal_is_written(
        w2,
        task,
        w2 + indent + "if ("@ + awaitable + ".vtable->poll == NULL || "@ + awaitable
            + ".vtable->drop == NULL) {\n"@,
        awaitable_code::incomplete(awaitable),
        awaitable,
        owned,
        "1103"@,
        "awaitable callback missing"@,
        indent,
    );
    if valued {
        misfit_is_written(w3, task, indent, awaitable, expected);
        refusal_is_written(
            w3,
            task,
            w3 + indent + "if ("@ + awaitable + ".vtable->value_size != sizeof("@ + expected
                + ") || "@ + awaitable + ".vtable->value_align != _Alignof("@ + expected
                + ")) {\n"@,
            awaitable_code::misfit(awaitable, valued, expected),
            awaitable,
            owned,
            "1105"@,
            awaitable_code::misfit_message(valued),
            indent,
        );
    } else {
        exposure_is_written(w3, task, indent, awaitable, expected);
        refusal_is_written(
            w3,
            task,
            w3 + indent + "if ("@ + awaitable + ".vtable->value_size != 0u || "@ + awaitable
                + ".vtable->value_align != 0u) {\n"@,
            awaitable_code::misfit(awaitable, valued, expected),
            awaitable,
            owned,
            "1105"@,
            awaitable_code::misfit_message(valued),
            indent,
        );
    }
}

/// A test starts behind a block.
pub broadcast proof fn test_behind_block(a: Seq<char>)
    ensures
        #[trigger] (a + "    }\n    if (("@) == (a + "    "@ + "}\n"@) + "    if (("@,
{
    reveal_strlit("    }\n    if ((");
    reveal_strlit("    ");
    reveal_strlit("}\n");
    reveal_strlit("    if ((");
    assert(a + "    }\n    if (("@ =~= (a + "    "@ + "}\n"@) + "    if (("@);
}

/// A poll starts behind a block.
pub broadcast proof fn poll_behind_block(a: Seq<char>)
    ensures
        #[trigger] (a + "    }\n    cr_poll_status "@) == (a + "    "@ + "}\n"@) + "    cr_poll_status "@,
{
    reveal_strlit("    }\n    cr_poll_status ");
    reveal_strlit("    ");
    reveal_strlit("}\n");
    reveal_strlit("    cr_poll_status ");
    assert(a + "    }\n    cr_poll_status "@ =~= (a + "    "@ + "}\n"@) + "    cr_poll_status "@);
}

proof fn unknown_needs_are_written(out: Seq<char>, task: TaskView, awaitable: Seq<char>, state: Seq<char>)
    ensures
        c_meaning::same(
            out + "    "@ + c_source::path(task, LogicalFieldId::State) + " = "@ + state + "u;\n    if (("@ + awaitable + ".vtable->required_context_capabilities & ~CR_POLL_KNOWN_CAPABILITIES) != 0u) {\n"@,
            c_meaning::written(out, Statement::Store(Place::Own(LogicalFieldId::State), Value::Text(state + "u"@)), task, "    "@) + "    "@ + "if ("@ + c_meaning::test_text(awaitable_code::unknown_needs(awaitable), task) + ") {\n"@,
        ),
{
    broadcast use c_meaning::joined;

    awaitable_literals();
}

proof fn unmet_needs_are_written(out: Seq<char>, task: TaskView, awaitable: Seq<char>)
    ensures
        c_meaning::same(
            out + "    if (("@ + awaitable + ".vtable->required_context_capabilities & ~(poll_context != NULL ? poll_context->available_capabilities : 0u)) != 0u) {\n"@,
            out + "    "@ + "if ("@ + c_meaning::test_text(awaitable_code::unmet_needs(awaitable), task) + ") {\n"@,
        ),
{
    broadcast use c_meaning::joined;

    awaitable_literals();
}

proof fn taking_is_opened(out: Seq<char>, task: TaskView, slot: AwaitSlotId)
    ensures
        c_meaning::same(
            out + "    if (!"@ + c_source::path(task, LogicalFieldId::AwaitableActive(slot)) + ") {\n"@,
            out + "    "@ + "if ("@ + c_meaning::test_text(Test::Not(Value::Read(Place::Own(LogicalFieldId::AwaitableActive(slot)))), task) + ") {\n"@,
        ),
{
    broadcast use c_meaning::joined;

    awaitable_literals();
}

proof fn binding_is_opened(out: Seq<char>, task: TaskView, declaration: DeclarationId)
    ensures
        c_meaning::same(
            out + "        if (!"@ + c_source::path(task, LogicalFieldId::BindingActive(declaration)) + ") {\n"@,
            out + "        "@ + "if ("@ + c_meaning::test_text(Test::Not(Value::Read(Place::Own(LogicalFieldId::BindingActive(declaration)))), task) + ") {\n"@,
        ),
{
    broadcast use c_meaning::joined;

    awaitable_literals();
}

proof fn ready_is_opened(out: Seq<char>, task: TaskView, name: Seq<char>)
    ensures
        c_meaning::same(
            out + "    if ("@ + name + " == CR_POLL_READY) {\n"@,
            out + "    "@ + "if ("@ + c_meaning::test_text(wait_code::polled(name, "CR_POLL_READY"@), task) + ") {\n"@,
        ),
{
    broadcast use c_meaning::joined;

    awaitable_literals();
}

proof fn error_is_opened(out: Seq<char>, task: TaskView, name: Seq<char>)
    ensures
        c_meaning::same(
            out + "    if ("@ + name + " == CR_POLL_ERROR) {\n"@,
            out + "    "@ + "if ("@ + c_meaning::test_text(wait_code::polled(name, "CR_POLL_ERROR"@), task) + ") {\n"@,
        ),
{
    broadcast use c_meaning::joined;

    awaitable_literals();
}

proof fn canceled_is_opened(out: Seq<char>, task: TaskView, name: Seq<char>)
    ensures
        c_meaning::same(
            out + "    if ("@ + name + " == CR_POLL_CANCELED) {\n"@,
            out + "    "@ + "if ("@ + c_meaning::test_text(wait_code::polled(name, "CR_POLL_CANCELED"@), task) + ") {\n"@,
        ),
{
    broadcast use c_meaning::joined;

    awaitable_literals();
}

proof fn yielded_is_opened(out: Seq<char>, task: TaskView, name: Seq<char>)
    ensures
        c_meaning::same(
            out + "    if ("@ + name + " == CR_POLL_YIELDED) {\n"@,
            out + "    "@ + "if ("@ + c_meaning::test_text(wait_code::polled(name, "CR_POLL_YIELDED"@), task) + ") {\n"@,
        ),
{
    broadcast use c_meaning::joined;

    awaitable_literals();
}

proof fn asking_is_written(
    out: Seq<char>,
    task: TaskView,
    awaitable: Seq<char>,
    name: Seq<char>,
    pointer: Seq<char>,
)
    ensures
        c_meaning::same(
            out + "    cr_poll_status "@ + name + " = "@ + awaitable + ".vtable->poll("@ + awaitable + ".state, poll_context, "@ + pointer + ");\n"@,
            c_meaning::written(out, awaitable_code::ask_code(awaitable, name, pointer), task, "    "@),
        ),
{
    broadcast use {
        c_meaning::joined,
        c_meaning::nothing_behind,
        c_meaning::written_then,
        c_meaning::written_if_in_function,
        c_meaning::written_if_in_block,
        c_meaning::written_nothing,
    };
    awaitable_literals();
}

proof fn detail_is_written(
    out: Seq<char>,
    task: TaskView,
    awaitable: Seq<char>,
    number: Seq<char>,
)
    ensures
        c_meaning::same(
            out + "        const cr_error *cr_await_"@ + number + "_error = "@ + awaitable + ".vtable->error != NULL ? "@ + awaitable + ".vtable->error("@ + awaitable + ".state) : NULL;\n"@ + "        "@ + c_source::path(task, LogicalFieldId::Error) + " = cr_await_"@ + number + "_error != NULL ? *cr_await_"@ + number + "_error : (cr_error){CR_ERROR_MISSING_CHILD_ERROR, \"awaitable error without details\"};\n"@,
            c_meaning::written(out, c_meaning::both(Statement::Declare("const cr_error *"@ + awaitable_code::error_name(number), awaitable_code::error_name(number), awaitable_code::error_of(awaitable)), Statement::Store(Place::Own(LogicalFieldId::Error), Value::Pointed(awaitable_code::error_name(number), "CR_ERROR_MISSING_CHILD_ERROR"@, "awaitable error without details"@))), task, "        "@),
        ),
{
    broadcast use {
        c_meaning::joined,
        c_meaning::nothing_behind,
        c_meaning::written_then,
        c_meaning::written_if_in_function,
        c_meaning::written_if_in_block,
        c_meaning::written_nothing,
    };
    awaitable_literals();
}

proof fn erring_is_written(
    out: Seq<char>,
    task: TaskView,
)
    ensures
        c_meaning::same(
            out + "        cr_cleanup_run_all(&"@ + c_source::path(task, LogicalFieldId::Cleanups) + ");\n        "@ + c_source::path(task, LogicalFieldId::Status) + " = CR_POLL_ERROR;\n        return "@ + c_source::path(task, LogicalFieldId::Status) + ";\n"@,
            c_meaning::written(out, wait_code::give_up("CR_POLL_ERROR"@), task, "        "@),
        ),
{
    broadcast use {
        c_meaning::joined,
        c_meaning::nothing_behind,
        c_meaning::written_then,
        c_meaning::written_if_in_function,
        c_meaning::written_if_in_block,
        c_meaning::written_nothing,
    };
    awaitable_literals();
}

proof fn canceling_is_written(
    out: Seq<char>,
    task: TaskView,
)
    ensures
        c_meaning::same(
            out + "        cr_cleanup_run_all(&"@ + c_source::path(task, LogicalFieldId::Cleanups) + ");\n        "@ + c_source::path(task, LogicalFieldId::Status) + " = CR_POLL_CANCELED;\n        return "@ + c_source::path(task, LogicalFieldId::Status) + ";\n"@,
            c_meaning::written(out, wait_code::give_up("CR_POLL_CANCELED"@), task, "        "@),
        ),
{
    broadcast use {
        c_meaning::joined,
        c_meaning::nothing_behind,
        c_meaning::written_then,
        c_meaning::written_if_in_function,
        c_meaning::written_if_in_block,
        c_meaning::written_nothing,
    };
    awaitable_literals();
}

proof fn passing_is_written(
    out: Seq<char>,
    task: TaskView,
    slot: AwaitSlotId,
)
    ensures
        c_meaning::same(
            out + "        "@ + c_source::path(task, LogicalFieldId::Yielded) + " = "@ + c_source::path(task, LogicalFieldId::AwaitResult(slot)) + ";\n        "@ + c_source::path(task, LogicalFieldId::Status) + " = CR_POLL_YIELDED;\n        return "@ + c_source::path(task, LogicalFieldId::Status) + ";\n"@,
            c_meaning::written(out, awaitable_code::gave_code(awaitable_code::awaitable_text(task, slot), slot, true, true), task, "        "@),
        ),
{
    broadcast use {
        c_meaning::joined,
        c_meaning::nothing_behind,
        c_meaning::written_then,
        c_meaning::written_if_in_function,
        c_meaning::written_if_in_block,
        c_meaning::written_nothing,
    };
    awaitable_literals();
}

proof fn jumping_is_written(
    out: Seq<char>,
    task: TaskView,
    target: Seq<char>,
)
    ensures
        c_meaning::same(
            out + "        goto cr_b"@ + target + ";\n"@,
            c_meaning::written(out, Statement::Jump(target), task, "        "@),
        ),
{
    broadcast use {
        c_meaning::joined,
        c_meaning::nothing_behind,
        c_meaning::written_then,
        c_meaning::written_if_in_function,
        c_meaning::written_if_in_block,
        c_meaning::written_nothing,
    };
    awaitable_literals();
}

proof fn pending_poll_is_written(
    out: Seq<char>,
    task: TaskView,
    name: Seq<char>,
)
    ensures
        c_meaning::same(
            out + "    if ("@ + name + " == CR_POLL_PENDING) return "@ + name + ";\n"@,
            c_meaning::written(out, Statement::ReturnIf(wait_code::polled(name, "CR_POLL_PENDING"@), Value::Read(Place::Local(name))), task, "    "@),
        ),
{
    broadcast use {
        c_meaning::joined,
        c_meaning::nothing_behind,
        c_meaning::written_then,
        c_meaning::written_if_in_function,
        c_meaning::written_if_in_block,
        c_meaning::written_nothing,
    };
    awaitable_literals();
}

/// A line ends before a block does.
pub broadcast proof fn block_behind_line(a: Seq<char>)
    ensures
        #[trigger] (a + ";\n    }\n    if ("@) == ((a + ";\n"@) + "    "@ + "}\n"@) + "    if ("@,
{
    reveal_strlit(";\n    }\n    if (");
    reveal_strlit(";\n");
    reveal_strlit("    ");
    reveal_strlit("}\n");
    reveal_strlit("    if (");
    assert(a + ";\n    }\n    if ("@ =~= ((a + ";\n"@) + "    "@ + "}\n"@) + "    if ("@);
}

/// A block ends with its line.
pub broadcast proof fn block_end(a: Seq<char>)
    ensures
        #[trigger] (a + "    }\n"@) == a + "    "@ + "}\n"@,
{
    reveal_strlit("    }\n");
    reveal_strlit("    ");
    reveal_strlit("}\n");
    assert(a + "    }\n"@ =~= a + "    "@ + "}\n"@);
}

/// An inner block ends with its line.
pub broadcast proof fn inner_block_end(a: Seq<char>)
    ensures
        #[trigger] (a + "        }\n"@) == a + "        "@ + "}\n"@,
{
    reveal_strlit("        }\n");
    reveal_strlit("        ");
    reveal_strlit("}\n");
    assert(a + "        }\n"@ =~= a + "        "@ + "}\n"@);
}

/// The C that takes an awaitable is that of taking it.
pub proof fn taking_is_written(
    out: Seq<char>,
    task: TaskView,
    slot: AwaitSlotId,
    operand: Seq<char>,
    bound: bool,
    declaration: DeclarationId,
    valued: bool,
    expected: Seq<char>,
)
    ensures
        c_meaning::same(
            c_suspend::awaitable_start_text(
                out,
                task,
                slot,
                operand,
                bound,
                declaration,
                valued,
                expected,
            ),
            c_meaning::written(
                out,
                awaitable_code::take_code(
                    awaitable_code::awaitable_text(task, slot),
                    slot,
                    operand,
                    if bound {
                        Some(declaration)
                    } else {
                        None
                    },
                    valued,
                    expected,
                ),
                task,
                "    "@,
            ),
        ),
{
    broadcast use {
        c_meaning::written_then,
        c_meaning::written_nothing,
        c_meaning::written_if_in_function,
        c_meaning::written_if_in_block,
        inner_block_end,
    };

    reveal(c_suspend::awaitable_start_text);
    let awaitable = awaitable_code::awaitable_text(task, slot);
    let active = c_source::path(task, LogicalFieldId::AwaitableActive(slot));
    let o1 = out + "    if (!"@ + active + ") {\n"@;
    taking_is_opened(out, task, slot);
    let held = if bound {
        wait_code::unless_active(LogicalFieldId::BindingActive(declaration))
    } else {
        Statement::Nothing
    };
    if bound {
        let inner = o1 + "        if (!"@ + c_source::path(
            task,
            LogicalFieldId::BindingActive(declaration),
        ) + ") {\n"@;
        binding_is_opened(o1, task, declaration);
        wait_text_laws::failure_is_written(
            inner,
            task,
            "1109"@,
            "inactive task binding"@,
            "            "@,
        );
    }
    let o2 = c_meaning::written(o1, held, task, "        "@);
    let o3 = o2 + "        "@ + awaitable + " = "@ + operand + ";\n"@;
    check_is_written(o3, task, awaitable, valued, expected, "        "@, !bound);
    let o4 = c_meaning::written(
        o3,
        awaitable_code::check_code(awaitable, valued, expected, !bound),
        task,
        "        "@,
    );
    assert(c_meaning::same(
        o4 + "        "@ + active + " = true;\n    }\n"@,
        o4 + "        "@ + active + " = "@ + "true"@ + ";\n"@ + "    "@ + "}\n"@,
    )) by {
        broadcast use c_meaning::joined;

        awaitable_literals();
    }
}

proof fn leaving_is_written(
    out: Seq<char>,
    task: TaskView,
    opened: Seq<char>,
    test: Test,
    slot: AwaitSlotId,
    owned: bool,
    code: Seq<char>,
    message: Seq<char>,
)
    requires
        c_meaning::same(
            opened,
            out + "    "@ + "if ("@ + c_meaning::test_text(test, task) + ") {\n"@,
        ),
    ensures
        c_meaning::same(
            c_runtime_text::async_error_at_text(
                c_runtime_text::await_release_text(opened, task, slot, "        "@, owned),
                task,
                code,
                message,
                "        "@,
            ) + "    "@ + "}\n"@,
            c_meaning::written(
                out,
                c_meaning::when(
                    test,
                    c_meaning::both(
                        awaitable_code::let_go(awaitable_code::awaitable_text(task, slot), slot, owned),
                        wait_code::fail(code, message),
                    ),
                ),
                task,
                "    "@,
            ),
        ),
{
    broadcast use {c_meaning::written_then, c_meaning::written_if_in_function};

    letting_go_is_written(opened, task, slot, "        "@, owned);
    wait_text_laws::failure_is_written(
        c_runtime_text::await_release_text(opened, task, slot, "        "@, owned),
        task,
        code,
        message,
        "        "@,
    );
}

/// The C that polls an awaitable is that of asking it and following its answer.
#[verifier::rlimit(60)]
#[verifier::spinoff_prover]
pub proof fn awaiting_is_written(
    out: Seq<char>,
    task: TaskView,
    slot: AwaitSlotId,
    number: Seq<char>,
    state: Seq<char>,
    target: Seq<char>,
    pointer: Seq<char>,
    owned: bool,
    yields: bool,
)
    ensures
        ({
            let awaitable = awaitable_code::awaitable_text(task, slot);
            let name = "cr_await_"@ + number + "_status"@;
            c_meaning::same(
                c_suspend::awaitable_wait_text(
                    out,
                    task,
                    slot,
                    number,
                    state,
                    target,
                    pointer,
                    owned,
                    yields,
                ),
                c_meaning::written(
                    out,
                    c_meaning::both(
                        awaitable_code::prepare_code(awaitable, slot, state, owned),
                        c_meaning::both(
                            awaitable_code::ask_code(awaitable, name, pointer),
                            awaitable_code::answer_code(
                                awaitable,
                                slot,
                                name,
                                awaitable_code::error_name(number),
                                target,
                                owned,
                                yields,
                            ),
                        ),
                    ),
                    task,
                    "    "@,
                ),
            )
        }),
{
    broadcast use {
        c_meaning::written_then,
        c_meaning::branch_behind_line,
        test_behind_block,
        poll_behind_block,
        block_behind_line,
        block_end,
    };

    reveal(c_suspend::awaitable_wait_text);
    let awaitable = awaitable_code::awaitable_text(task, slot);
    let name = "cr_await_"@ + number + "_status"@;
    let detail = awaitable_code::error_name(number);
    let w0 = c_meaning::written(
        out,
        Statement::Store(Place::Own(LogicalFieldId::State), Value::Text(state + "u"@)),
        task,
        "    "@,
    );
    unknown_needs_are_written(out, task, awaitable, state);
    leaving_is_written(
        w0,
        task,
        out + "    "@ + c_source::path(task, LogicalFieldId::State) + " = "@ + state
            + "u;\n    if (("@ + awaitable
            + ".vtable->required_context_capabilities & ~CR_POLL_KNOWN_CAPABILITIES) != 0u) {\n"@,
        awaitable_code::unknown_needs(awaitable),
        slot,
        owned,
        "1107"@,
        "unsupported poll capability"@,
    );
    let w1 = c_meaning::written(
        w0,
        c_meaning::when(
            awaitable_code::unknown_needs(awaitable),
            c_meaning::both(
                awaitable_code::let_go(awaitable, slot, owned),
                wait_code::fail("1107"@, "unsupported poll capability"@),
            ),
        ),
        task,
        "    "@,
    );
    unmet_needs_are_written(w1, task, awaitable);
    leaving_is_written(
        w1,
        task,
        w1 + "    if (("@ + awaitable
            + ".vtable->required_context_capabilities & ~(poll_context != NULL ? poll_context->available_capabilities : 0u)) != 0u) {\n"@,
        awaitable_code::unmet_needs(awaitable),
        slot,
        owned,
        "1104"@,
        "missing poll capability"@,
    );
    let w2 = c_meaning::written(
        w1,
        c_meaning::when(
            awaitable_code::unmet_needs(awaitable),
            c_meaning::both(
                awaitable_code::let_go(awaitable, slot, owned),
                wait_code::fail("1104"@, "missing poll capability"@),
            ),
        ),
        task,
        "    "@,
    );
    asking_is_written(w2, task, awaitable, name, pointer);
    let w3 = c_meaning::written(w2, awaitable_code::ask_code(awaitable, name, pointer), task, "    "@);
    pending_poll_is_written(w3, task, name);
    let w4 = c_meaning::written(
        w3,
        Statement::ReturnIf(
            wait_code::polled(name, "CR_POLL_PENDING"@),
            Value::Read(Place::Local(name)),
        ),
        task,
        "    "@,
    );
    answer_is_written(w4, task, slot, number, target, owned, yields);
}

proof fn arriving_is_written(out: Seq<char>, task: TaskView, slot: AwaitSlotId, name: Seq<char>, target: Seq<char>, owned: bool)
    ensures
        c_meaning::same(
            c_runtime_text::await_release_text(
                out + "    if ("@ + name + " == CR_POLL_READY) {\n"@,
                task,
                slot,
                "        "@,
                owned,
            ) + "        goto cr_b"@ + target + ";\n"@ + "    "@ + "}\n"@,
            c_meaning::written(
                out,
                c_meaning::when(
                    wait_code::polled(name, "CR_POLL_READY"@),
                    awaitable_code::arrived_code(awaitable_code::awaitable_text(task, slot), slot, owned, target),
                ),
                task,
                "    "@,
            ),
        ),
{
    broadcast use {c_meaning::written_then, c_meaning::written_if_in_function};

    let opened = out + "    if ("@ + name + " == CR_POLL_READY) {\n"@;
    ready_is_opened(out, task, name);
    letting_go_is_written(opened, task, slot, "        "@, owned);
    jumping_is_written(
        c_runtime_text::await_release_text(opened, task, slot, "        "@, owned),
        task,
        target,
    );
}

proof fn failing_is_written(out: Seq<char>, task: TaskView, slot: AwaitSlotId, name: Seq<char>, number: Seq<char>, owned: bool)
    ensures
        ({
            let awaitable = awaitable_code::awaitable_text(task, slot);
            let status = c_source::path(task, LogicalFieldId::Status);
            c_meaning::same(
                c_runtime_text::await_release_text(
                    out + "    if ("@ + name + " == CR_POLL_ERROR) {\n"@
                        + "        const cr_error *cr_await_"@ + number + "_error = "@ + awaitable
                        + ".vtable->error != NULL ? "@ + awaitable + ".vtable->error("@ + awaitable
                        + ".state) : NULL;\n"@ + "        "@ + c_source::path(
                        task,
                        LogicalFieldId::Error,
                    ) + " = cr_await_"@ + number + "_error != NULL ? *cr_await_"@ + number
                        + "_error : (cr_error){CR_ERROR_MISSING_CHILD_ERROR, \"awaitable error without details\"};\n"@,
                    task,
                    slot,
                    "        "@,
                    owned,
                ) + "        cr_cleanup_run_all(&"@ + c_source::path(task, LogicalFieldId::Cleanups)
                    + ");\n        "@ + status + " = CR_POLL_ERROR;\n        return "@ + status
                    + ";\n"@ + "    "@ + "}\n"@,
                c_meaning::written(
                    out,
                    c_meaning::when(
                        wait_code::polled(name, "CR_POLL_ERROR"@),
                        awaitable_code::failed_code(awaitable, slot, owned, awaitable_code::error_name(number)),
                    ),
                    task,
                    "    "@,
                ),
            )
        }),
{
    broadcast use {c_meaning::written_then, c_meaning::written_if_in_function};

    let awaitable = awaitable_code::awaitable_text(task, slot);
    let o1 = out + "    if ("@ + name + " == CR_POLL_ERROR) {\n"@;
    error_is_opened(out, task, name);
    detail_is_written(o1, task, awaitable, number);
    let o2 = o1 + "        const cr_error *cr_await_"@ + number + "_error = "@ + awaitable
        + ".vtable->error != NULL ? "@ + awaitable + ".vtable->error("@ + awaitable
        + ".state) : NULL;\n"@ + "        "@ + c_source::path(task, LogicalFieldId::Error)
        + " = cr_await_"@ + number + "_error != NULL ? *cr_await_"@ + number
        + "_error : (cr_error){CR_ERROR_MISSING_CHILD_ERROR, \"awaitable error without details\"};\n"@;
    letting_go_is_written(o2, task, slot, "        "@, owned);
    erring_is_written(
        c_runtime_text::await_release_text(o2, task, slot, "        "@, owned),
        task,
    );
}

proof fn stopping_is_written(out: Seq<char>, task: TaskView, slot: AwaitSlotId, name: Seq<char>, owned: bool)
    ensures
        ({
            let status = c_source::path(task, LogicalFieldId::Status);
            c_meaning::same(
                c_runtime_text::await_release_text(
                    out + "    if ("@ + name + " == CR_POLL_CANCELED) {\n"@,
                    task,
                    slot,
                    "        "@,
                    owned,
                ) + "        cr_cleanup_run_all(&"@ + c_source::path(task, LogicalFieldId::Cleanups)
                    + ");\n        "@ + status + " = CR_POLL_CANCELED;\n        return "@ + status
                    + ";\n"@ + "    "@ + "}\n"@,
                c_meaning::written(
                    out,
                    c_meaning::when(
                        wait_code::polled(name, "CR_POLL_CANCELED"@),
                        awaitable_code::stopped_code(awaitable_code::awaitable_text(task, slot), slot, owned),
                    ),
                    task,
                    "    "@,
                ),
            )
        }),
{
    broadcast use {c_meaning::written_then, c_meaning::written_if_in_function};

    let opened = out + "    if ("@ + name + " == CR_POLL_CANCELED) {\n"@;
    canceled_is_opened(out, task, name);
    letting_go_is_written(opened, task, slot, "        "@, owned);
    canceling_is_written(
        c_runtime_text::await_release_text(opened, task, slot, "        "@, owned),
        task,
    );
}

proof fn giving_is_written(out: Seq<char>, task: TaskView, slot: AwaitSlotId, name: Seq<char>, owned: bool)
    ensures
        ({
            let status = c_source::path(task, LogicalFieldId::Status);
            c_meaning::same(
                out + "    if ("@ + name + " == CR_POLL_YIELDED) {\n"@ + "        "@
                    + c_source::path(task, LogicalFieldId::Yielded) + " = "@ + c_source::path(
                    task,
                    LogicalFieldId::AwaitResult(slot),
                ) + ";\n        "@ + status + " = CR_POLL_YIELDED;\n        return "@ + status
                    + ";\n"@ + "    "@ + "}\n"@,
                c_meaning::written(
                    out,
                    c_meaning::when(
                        wait_code::polled(name, "CR_POLL_YIELDED"@),
                        awaitable_code::gave_code(awaitable_code::awaitable_text(task, slot), slot, owned, true),
                    ),
                    task,
                    "    "@,
                ),
            )
        }),
{
    broadcast use {c_meaning::written_then, c_meaning::written_if_in_function};

    yielded_is_opened(out, task, name);
    passing_is_written(out + "    if ("@ + name + " == CR_POLL_YIELDED) {\n"@, task, slot);
}

#[verifier::rlimit(60)]
#[verifier::spinoff_prover]
proof fn answer_is_written(
    out: Seq<char>,
    task: TaskView,
    slot: AwaitSlotId,
    number: Seq<char>,
    target: Seq<char>,
    owned: bool,
    yields: bool,
)
    ensures
        ({
            let awaitable = awaitable_code::awaitable_text(task, slot);
            let name = "cr_await_"@ + number + "_status"@;
            let status = c_source::path(task, LogicalFieldId::Status);
            let cleanups = c_source::path(task, LogicalFieldId::Cleanups);
            let o1 = c_runtime_text::await_release_text(
                out + "    if ("@ + name + " == CR_POLL_READY) {\n"@,
                task,
                slot,
                "        "@,
                owned,
            ) + "        goto cr_b"@ + target + ";\n"@ + "    "@ + "}\n"@;
            let o2 = c_runtime_text::await_release_text(
                o1 + "    if ("@ + name + " == CR_POLL_ERROR) {\n"@
                    + "        const cr_error *cr_await_"@ + number + "_error = "@ + awaitable
                    + ".vtable->error != NULL ? "@ + awaitable + ".vtable->error("@ + awaitable
                    + ".state) : NULL;\n"@ + "        "@ + c_source::path(
                    task,
                    LogicalFieldId::Error,
                ) + " = cr_await_"@ + number + "_error != NULL ? *cr_await_"@ + number
                    + "_error : (cr_error){CR_ERROR_MISSING_CHILD_ERROR, \"awaitable error without details\"};\n"@,
                task,
                slot,
                "        "@,
                owned,
            ) + "        cr_cleanup_run_all(&"@ + cleanups + ");\n        "@ + status
                + " = CR_POLL_ERROR;\n        return "@ + status + ";\n"@ + "    "@ + "}\n"@;
            let o3 = c_runtime_text::await_release_text(
                o2 + "    if ("@ + name + " == CR_POLL_CANCELED) {\n"@,
                task,
                slot,
                "        "@,
                owned,
            ) + "        cr_cleanup_run_all(&"@ + cleanups + ");\n        "@ + status
                + " = CR_POLL_CANCELED;\n        return "@ + status + ";\n"@ + "    "@ + "}\n"@;
            let o4 = if yields {
                o3 + "    if ("@ + name + " == CR_POLL_YIELDED) {\n"@ + "        "@
                    + c_source::path(task, LogicalFieldId::Yielded) + " = "@ + c_source::path(
                    task,
                    LogicalFieldId::AwaitResult(slot),
                ) + ";\n        "@ + status + " = CR_POLL_YIELDED;\n        return "@ + status
                    + ";\n"@ + "    "@ + "}\n"@
            } else {
                c_runtime_text::async_error_at_text(
                    c_runtime_text::await_release_text(
                        o3 + "    if ("@ + name + " == CR_POLL_YIELDED) {\n"@,
                        task,
                        slot,
                        "        "@,
                        owned,
                    ),
                    task,
                    "1005"@,
                    "yielded awaitable has an incompatible value type"@,
                    "        "@,
                ) + "    "@ + "}\n"@
            };
            let o5 = c_runtime_text::async_error_at_text(
                c_runtime_text::await_release_text(o4, task, slot, "    "@, owned),
                task,
                "1106"@,
                "invalid awaitable poll status"@,
                "    "@,
            );
            c_meaning::same(
                o5,
                c_meaning::written(
                    out,
                    c_meaning::both(
                        c_meaning::when(
                            wait_code::polled(name, "CR_POLL_READY"@),
                            awaitable_code::arrived_code(awaitable, slot, owned, target),
                        ),
                        c_meaning::both(
                            c_meaning::when(
                                wait_code::polled(name, "CR_POLL_ERROR"@),
                                awaitable_code::failed_code(awaitable, slot, owned, awaitable_code::error_name(number)),
                            ),
                            c_meaning::both(
                                c_meaning::when(
                                    wait_code::polled(name, "CR_POLL_CANCELED"@),
                                    awaitable_code::stopped_code(awaitable, slot, owned),
                                ),
                                c_meaning::both(
                                    c_meaning::when(
                                        wait_code::polled(name, "CR_POLL_YIELDED"@),
                                        awaitable_code::gave_code(awaitable, slot, owned, yields),
                                    ),
                                    awaitable_code::odd_code(awaitable, slot, owned),
                                ),
                            ),
                        ),
                    ),
                    task,
                    "    "@,
                ),
            )
        }),
{
    broadcast use c_meaning::written_then;

    let awaitable = awaitable_code::awaitable_text(task, slot);
    let name = "cr_await_"@ + number + "_status"@;
    arriving_is_written(out, task, slot, name, target, owned);
    let w1 = c_meaning::written(
        out,
        c_meaning::when(
            wait_code::polled(name, "CR_POLL_READY"@),
            awaitable_code::arrived_code(awaitable, slot, owned, target),
        ),
        task,
        "    "@,
    );
    failing_is_written(w1, task, slot, name, number, owned);
    let w2 = c_meaning::written(
        w1,
        c_meaning::when(
            wait_code::polled(name, "CR_POLL_ERROR"@),
            awaitable_code::failed_code(awaitable, slot, owned, awaitable_code::error_name(number)),
        ),
        task,
        "    "@,
    );
    stopping_is_written(w2, task, slot, name, owned);
    let w3 = c_meaning::written(
        w2,
        c_meaning::when(
            wait_code::polled(name, "CR_POLL_CANCELED"@),
            awaitable_code::stopped_code(awaitable, slot, owned),
        ),
        task,
        "    "@,
    );
    if yields {
        giving_is_written(w3, task, slot, name, owned);
    } else {
        yielded_is_opened(w3, task, name);
        leaving_is_written(
            w3,
            task,
            w3 + "    if ("@ + name + " == CR_POLL_YIELDED) {\n"@,
            wait_code::polled(name, "CR_POLL_YIELDED"@),
            slot,
            owned,
            "1005"@,
            "yielded awaitable has an incompatible value type"@,
        );
    }
    let w4 = c_meaning::written(
        w3,
        c_meaning::when(
            wait_code::polled(name, "CR_POLL_YIELDED"@),
            awaitable_code::gave_code(awaitable, slot, owned, yields),
        ),
        task,
        "    "@,
    );
    letting_go_is_written(w4, task, slot, "    "@, owned);
    wait_text_laws::failure_is_written(
        c_runtime_text::await_release_text(w4, task, slot, "    "@, owned),
        task,
        "1106"@,
        "invalid awaitable poll status"@,
        "    "@,
    );
}

} // verus!
