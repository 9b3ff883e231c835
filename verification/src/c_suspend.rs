//! C code that waits for children.

use vstd::prelude::*;

use crate::await_plan::ChildInstanceId;
use crate::c_runtime_text;
use crate::c_runtime_text::{
    write_activation_validation, write_async_error_at, write_await_release,
};
use crate::c_source;
use crate::c_source::{required_access, TaskContext, TaskView};
use crate::context_layout::LogicalFieldId;
use crate::semantic::{AwaitSlotId, DeclarationId};
use crate::text::{concat3, put, put3, put5, put6, put7, put8, put9, str_eq};

verus! {

/// Whether the fields of a directly awaited child have places.
pub open spec fn child_placed(task: TaskView, instance: ChildInstanceId) -> bool {
    &&& c_source::placed(task, LogicalFieldId::DirectChildPayload(instance))
    &&& c_source::placed(task, LogicalFieldId::DirectChildActive(instance))
}

/// Whether the result of a child has a place, if it has a result.
pub open spec fn result_placed(
    task: TaskView,
    slot: AwaitSlotId,
    result_type: Seq<char>,
) -> bool {
    result_type != "void"@ ==> c_source::placed(task, LogicalFieldId::AwaitResult(slot))
}

/// C code that starts an embedded child unless it is active, and polls it.
#[verifier::opaque]
pub open spec fn embedded_wait_text(
    out: Seq<char>,
    task: TaskView,
    stem: Seq<char>,
    result_type: Seq<char>,
    return_type: Seq<char>,
    instance: ChildInstanceId,
    slot: AwaitSlotId,
    number: Seq<char>,
    state: Seq<char>,
    target: Seq<char>,
    arguments: Seq<char>,
) -> Seq<char> {
    let child = c_source::path(task, LogicalFieldId::DirectChildPayload(instance));
    let active = c_source::path(task, LogicalFieldId::DirectChildActive(instance));
    let state_path = c_source::path(task, LogicalFieldId::State);
    let error = c_source::path(task, LogicalFieldId::Error);
    let cleanups = c_source::path(task, LogicalFieldId::Cleanups);
    let status_path = c_source::path(task, LogicalFieldId::Status);
    let yielded = c_source::path(task, LogicalFieldId::Yielded);
    let comma = if arguments == ""@ {
        ""@
    } else {
        ", "@
    };
    let out = out
        + "        "@
        + stem
        + "_init(&"@
        + child
        + comma
        + arguments
        + ");\n        "@
        + active
        + " = true;\n    }\n"@;
    let out = out + "    "@ + state_path + " = "@ + state + "u;\n"@;
    let status = "cr_await_"@ + number + "_status"@;
    let out = out
        + "    cr_poll_status "@
        + status
        + " = "@
        + stem
        + "_poll(&"@
        + child
        + ", poll_context);\n"@;
    let out = out
        + "    if ("@
        + status
        + " == CR_POLL_PENDING) return "@
        + status
        + ";\n    if ("@
        + status
        + " == CR_POLL_READY) {\n"@;
    let out = if result_type != "void"@ {
        let result = c_source::path(task, LogicalFieldId::AwaitResult(slot));
        let out = out + "        "@ + result + " = "@ + child + ".result;\n"@;
        out
    } else {
        out
    };
    let out = out
        + "        "@
        + stem
        + "_drop(&"@
        + child
        + ");\n        "@
        + active
        + " = false;\n        goto cr_b"@
        + target
        + ";\n    }\n"@;
    let out = out
        + "    if ("@
        + status
        + " == CR_POLL_ERROR) {\n        "@
        + error
        + " = "@
        + child
        + ".error;\n"@;
    let out = out
        + "        "@
        + stem
        + "_drop(&"@
        + child
        + ");\n        "@
        + active
        + " = false;\n        cr_cleanup_run_all(&"@
        + cleanups
        + ");\n"@;
    let out = out
        + "        "@
        + status_path
        + " = CR_POLL_ERROR;\n        return "@
        + status_path
        + ";\n    }\n    if ("@
        + status
        + " == CR_POLL_CANCELED) {\n"@;
    let out = out
        + "        "@
        + stem
        + "_drop(&"@
        + child
        + ");\n        "@
        + active
        + " = false;\n        cr_cleanup_run_all(&"@
        + cleanups
        + ");\n"@;
    let out = out
        + "        "@
        + status_path
        + " = CR_POLL_CANCELED;\n        return "@
        + status_path
        + ";\n    }\n    if ("@
        + status
        + " == CR_POLL_YIELDED) {\n"@;
    let out = if result_type == return_type && return_type != "void"@ {
        let out = out
            + "        "@
            + yielded
            + " = "@
            + child
            + ".yielded;\n        "@
            + status_path
            + " = CR_POLL_YIELDED;\n        return "@
            + status_path
            + ";\n"@;
        out
    } else {
        let out = out
            + "        "@
            + stem
            + "_drop(&"@
            + child
            + ");\n        "@
            + active
            + " = false;\n"@;
        let out = c_runtime_text::async_error_at_text(
            out,
            task,
            "1005"@,
            "yielded awaitable has an incompatible value type"@,
            "        "@,
        );
        out
    };
    let out = out
        + "    }\n    "@
        + stem
        + "_drop(&"@
        + child
        + ");\n    "@
        + active
        + " = false;\n"@;
    let out = c_runtime_text::async_error_at_text(out, task, "1106"@, "invalid awaitable poll status"@, "    "@);
    out
}

/// Appends C code that starts an embedded child unless it is active, and polls it.
pub fn write_embedded_wait(
    out: &mut String,
    task: &TaskContext<'_>,
    stem: &str,
    result_type: &str,
    return_type: &str,
    instance: ChildInstanceId,
    slot: AwaitSlotId,
    number: &str,
    state: &str,
    target: &str,
    arguments: &str,
)
    requires
        c_runtime_text::values_placed(task@),
        child_placed(task@, instance),
        result_placed(task@, slot, result_type@),
    ensures
        final(out)@ == embedded_wait_text(
            old(out)@,
            task@,
            stem@,
            result_type@,
            return_type@,
            instance,
            slot,
            number@,
            state@,
            target@,
            arguments@,
        ),
{
    proof {
        reveal(embedded_wait_text);
    }
    let child = required_access(task, LogicalFieldId::DirectChildPayload(instance));
    let active = required_access(task, LogicalFieldId::DirectChildActive(instance));
    let state_path = required_access(task, LogicalFieldId::State);
    let error = required_access(task, LogicalFieldId::Error);
    let cleanups = required_access(task, LogicalFieldId::Cleanups);
    let status_path = required_access(task, LogicalFieldId::Status);
    let yielded = required_access(task, LogicalFieldId::Yielded);
    let comma = if str_eq(arguments, "") {
        ""
    } else {
        ", "
    };
    put9(
        out,
        "        ",
        stem,
        "_init(&",
        child.as_str(),
        comma,
        arguments,
        ");\n        ",
        active.as_str(),
        " = true;\n    }\n",
    );
    put5(out, "    ", state_path.as_str(), " = ", state, "u;\n");
    let status = concat3("cr_await_", number, "_status");
    put7(
        out,
        "    cr_poll_status ",
        status.as_str(),
        " = ",
        stem,
        "_poll(&",
        child.as_str(),
        ", poll_context);\n",
    );
    put7(
        out,
        "    if (",
        status.as_str(),
        " == CR_POLL_PENDING) return ",
        status.as_str(),
        ";\n    if (",
        status.as_str(),
        " == CR_POLL_READY) {\n",
    );
    if !str_eq(result_type, "void") {
        let result = required_access(task, LogicalFieldId::AwaitResult(slot));
        put5(out, "        ", result.as_str(), " = ", child.as_str(), ".result;\n");
    }
    put9(
        out,
        "        ",
        stem,
        "_drop(&",
        child.as_str(),
        ");\n        ",
        active.as_str(),
        " = false;\n        goto cr_b",
        target,
        ";\n    }\n",
    );
    put7(
        out,
        "    if (",
        status.as_str(),
        " == CR_POLL_ERROR) {\n        ",
        error.as_str(),
        " = ",
        child.as_str(),
        ".error;\n",
    );
    put9(
        out,
        "        ",
        stem,
        "_drop(&",
        child.as_str(),
        ");\n        ",
        active.as_str(),
        " = false;\n        cr_cleanup_run_all(&",
        cleanups.as_str(),
        ");\n",
    );
    put7(
        out,
        "        ",
        status_path.as_str(),
        " = CR_POLL_ERROR;\n        return ",
        status_path.as_str(),
        ";\n    }\n    if (",
        status.as_str(),
        " == CR_POLL_CANCELED) {\n",
    );
    put9(
        out,
        "        ",
        stem,
        "_drop(&",
        child.as_str(),
        ");\n        ",
        active.as_str(),
        " = false;\n        cr_cleanup_run_all(&",
        cleanups.as_str(),
        ");\n",
    );
    put7(
        out,
        "        ",
        status_path.as_str(),
        " = CR_POLL_CANCELED;\n        return ",
        status_path.as_str(),
        ";\n    }\n    if (",
        status.as_str(),
        " == CR_POLL_YIELDED) {\n",
    );
    if str_eq(result_type, return_type) && !str_eq(return_type, "void") {
        put9(
            out,
            "        ",
            yielded.as_str(),
            " = ",
            child.as_str(),
            ".yielded;\n        ",
            status_path.as_str(),
            " = CR_POLL_YIELDED;\n        return ",
            status_path.as_str(),
            ";\n",
        );
    } else {
        put7(
            out,
            "        ",
            stem,
            "_drop(&",
            child.as_str(),
            ");\n        ",
            active.as_str(),
            " = false;\n",
        );
        write_async_error_at(
            out,
            task,
            "1005",
            "yielded awaitable has an incompatible value type",
            "        ",
        );
    }
    put7(
        out,
        "    }\n    ",
        stem,
        "_drop(&",
        child.as_str(),
        ");\n    ",
        active.as_str(),
        " = false;\n",
    );
    write_async_error_at(out, task, "1106", "invalid awaitable poll status", "    ");
}

/// C code that creates a boxed child unless it is active, and polls it.
#[verifier::opaque]
pub open spec fn boxed_wait_text(
    out: Seq<char>,
    task: TaskView,
    stem: Seq<char>,
    result_type: Seq<char>,
    return_type: Seq<char>,
    instance: ChildInstanceId,
    slot: AwaitSlotId,
    number: Seq<char>,
    box_number: Seq<char>,
    state: Seq<char>,
    target: Seq<char>,
    arguments: Seq<char>,
    accessors: bool,
) -> Seq<char> {
    let child = c_source::path(task, LogicalFieldId::DirectChildPayload(instance));
    let active = c_source::path(task, LogicalFieldId::DirectChildActive(instance));
    let state_path = c_source::path(task, LogicalFieldId::State);
    let error = c_source::path(task, LogicalFieldId::Error);
    let cleanups = c_source::path(task, LogicalFieldId::Cleanups);
    let status_path = c_source::path(task, LogicalFieldId::Status);
    let yielded = c_source::path(task, LogicalFieldId::Yielded);
    let comma = if arguments == ""@ {
        ""@
    } else {
        ", "@
    };
    let create_error = "cr_boxed_"@ + box_number + "_create_error"@;
    let out = out + "        cr_error "@ + create_error + " = {0, NULL};\n"@;
    let out = out
        + "        "@
        + child
        + " = "@
        + stem
        + "_create("@
        + arguments
        + comma
        + "&"@
        + create_error;
    let out = out + ");\n"@;
    let out = out
        + "        if ("@
        + child
        + " == NULL) {\n            "@
        + error
        + " = "@
        + create_error
        + ".code != 0 ? "@
        + create_error
        + " : (cr_error){1006, \"async task allocation failed\"};\n"@;
    let out = out
        + "            cr_cleanup_run_all(&"@
        + cleanups
        + ");\n            "@
        + status_path
        + " = CR_POLL_ERROR;\n            return "@
        + status_path
        + ";\n        }\n        "@
        + active
        + " = true;\n    }\n"@;
    let out = out + "    "@ + state_path + " = "@ + state + "u;\n"@;
    let status = "cr_await_"@ + number + "_status"@;
    let out = out
        + "    cr_poll_status "@
        + status
        + " = "@
        + stem
        + "_poll("@
        + child
        + ", poll_context);\n"@;
    let out = out
        + "    if ("@
        + status
        + " == CR_POLL_PENDING) return "@
        + status
        + ";\n    if ("@
        + status
        + " == CR_POLL_READY) {\n"@;
    let out = if result_type != "void"@ {
        let result = c_source::path(task, LogicalFieldId::AwaitResult(slot));
        let out = if accessors {
            let out = out + "        "@ + result + " = *"@ + stem + "_result("@ + child + ");\n"@;
            out
        } else {
            let out = out + "        "@ + result + " = "@ + child + "->result;\n"@;
            out
        };
        out
    } else {
        out
    };
    let out = out
        + "        "@
        + stem
        + "_destroy("@
        + child
        + ");\n        "@
        + child
        + " = NULL;\n        "@
        + active
        + " = false;\n"@;
    let out = out
        + "        goto cr_b"@
        + target
        + ";\n    }\n    if ("@
        + status
        + " == CR_POLL_ERROR) {\n"@;
    let out = if accessors {
        let detail = "cr_boxed_"@ + box_number + "_error"@;
        let out = out
            + "        const cr_error *"@
            + detail
            + " = "@
            + stem
            + "_error("@
            + child
            + ");\n"@;
        let out = out
            + "        "@
            + error
            + " = "@
            + detail
            + " != NULL ? *"@
            + detail
            + " : (cr_error){CR_ERROR_MISSING_CHILD_ERROR, \"boxed child error without details\"};\n"@;
        out
    } else {
        let out = out + "        "@ + error + " = "@ + child + "->error;\n"@;
        out
    };
    let out = out
        + "        "@
        + stem
        + "_destroy("@
        + child
        + ");\n        "@
        + child
        + " = NULL;\n        "@
        + active
        + " = false;\n"@;
    let out = out
        + "        cr_cleanup_run_all(&"@
        + cleanups
        + ");\n        "@
        + status_path
        + " = CR_POLL_ERROR;\n        return "@
        + status_path
        + ";\n    }\n    if ("@
        + status
        + " == CR_POLL_CANCELED) {\n"@;
    let out = out
        + "        "@
        + stem
        + "_destroy("@
        + child
        + ");\n        "@
        + child
        + " = NULL;\n        "@
        + active
        + " = false;\n"@;
    let out = out
        + "        cr_cleanup_run_all(&"@
        + cleanups
        + ");\n        "@
        + status_path
        + " = CR_POLL_CANCELED;\n        return "@
        + status_path
        + ";\n    }\n    if ("@
        + status
        + " == CR_POLL_YIELDED) {\n"@;
    let out = if result_type == return_type && return_type != "void"@ {
        let out = if accessors {
            let out = out + "        "@ + yielded + " = *"@ + stem + "_yielded("@ + child + ");\n"@;
            out
        } else {
            let out = out + "        "@ + yielded + " = "@ + child + "->yielded;\n"@;
            out
        };
        let out = out
            + "        "@
            + status_path
            + " = CR_POLL_YIELDED;\n        return "@
            + status_path
            + ";\n"@;
        out
    } else {
        let out = out
            + "        "@
            + stem
            + "_destroy("@
            + child
            + ");\n        "@
            + child
            + " = NULL;\n        "@
            + active
            + " = false;\n"@;
        let out = c_runtime_text::async_error_at_text(
            out,
            task,
            "1005"@,
            "yielded awaitable has an incompatible value type"@,
            "        "@,
        );
        out
    };
    let out = out
        + "    }\n    "@
        + stem
        + "_destroy("@
        + child
        + ");\n    "@
        + child
        + " = NULL;\n    "@
        + active
        + " = false;\n"@;
    let out = c_runtime_text::async_error_at_text(out, task, "1106"@, "invalid awaitable poll status"@, "    "@);
    out
}

/// Appends C code that creates a boxed child unless it is active, and polls it.
pub fn write_boxed_wait(
    out: &mut String,
    task: &TaskContext<'_>,
    stem: &str,
    result_type: &str,
    return_type: &str,
    instance: ChildInstanceId,
    slot: AwaitSlotId,
    number: &str,
    box_number: &str,
    state: &str,
    target: &str,
    arguments: &str,
    accessors: bool,
)
    requires
        c_runtime_text::values_placed(task@),
        child_placed(task@, instance),
        result_placed(task@, slot, result_type@),
    ensures
        final(out)@ == boxed_wait_text(
            old(out)@,
            task@,
            stem@,
            result_type@,
            return_type@,
            instance,
            slot,
            number@,
            box_number@,
            state@,
            target@,
            arguments@,
            accessors,
        ),
{
    proof {
        reveal(boxed_wait_text);
    }
    let child = required_access(task, LogicalFieldId::DirectChildPayload(instance));
    let active = required_access(task, LogicalFieldId::DirectChildActive(instance));
    let state_path = required_access(task, LogicalFieldId::State);
    let error = required_access(task, LogicalFieldId::Error);
    let cleanups = required_access(task, LogicalFieldId::Cleanups);
    let status_path = required_access(task, LogicalFieldId::Status);
    let yielded = required_access(task, LogicalFieldId::Yielded);
    let comma = if str_eq(arguments, "") {
        ""
    } else {
        ", "
    };
    let create_error = concat3("cr_boxed_", box_number, "_create_error");
    put3(out, "        cr_error ", create_error.as_str(), " = {0, NULL};\n");
    put9(
        out,
        "        ",
        child.as_str(),
        " = ",
        stem,
        "_create(",
        arguments,
        comma,
        "&",
        create_error.as_str(),
    );
    put(out, ");\n");
    put9(
        out,
        "        if (",
        child.as_str(),
        " == NULL) {\n            ",
        error.as_str(),
        " = ",
        create_error.as_str(),
        ".code != 0 ? ",
        create_error.as_str(),
        " : (cr_error){1006, \"async task allocation failed\"};\n",
    );
    put9(
        out,
        "            cr_cleanup_run_all(&",
        cleanups.as_str(),
        ");\n            ",
        status_path.as_str(),
        " = CR_POLL_ERROR;\n            return ",
        status_path.as_str(),
        ";\n        }\n        ",
        active.as_str(),
        " = true;\n    }\n",
    );
    put5(out, "    ", state_path.as_str(), " = ", state, "u;\n");
    let status = concat3("cr_await_", number, "_status");
    put7(
        out,
        "    cr_poll_status ",
        status.as_str(),
        " = ",
        stem,
        "_poll(",
        child.as_str(),
        ", poll_context);\n",
    );
    put7(
        out,
        "    if (",
        status.as_str(),
        " == CR_POLL_PENDING) return ",
        status.as_str(),
        ";\n    if (",
        status.as_str(),
        " == CR_POLL_READY) {\n",
    );
    if !str_eq(result_type, "void") {
        let result = required_access(task, LogicalFieldId::AwaitResult(slot));
        if accessors {
            put7(
                out,
                "        ",
                result.as_str(),
                " = *",
                stem,
                "_result(",
                child.as_str(),
                ");\n",
            );
        } else {
            put5(out, "        ", result.as_str(), " = ", child.as_str(), "->result;\n");
        }
    }
    put9(
        out,
        "        ",
        stem,
        "_destroy(",
        child.as_str(),
        ");\n        ",
        child.as_str(),
        " = NULL;\n        ",
        active.as_str(),
        " = false;\n",
    );
    put5(
        out,
        "        goto cr_b",
        target,
        ";\n    }\n    if (",
        status.as_str(),
        " == CR_POLL_ERROR) {\n",
    );
    if accessors {
        let detail = concat3("cr_boxed_", box_number, "_error");
        put7(
            out,
            "        const cr_error *",
            detail.as_str(),
            " = ",
            stem,
            "_error(",
            child.as_str(),
            ");\n",
        );
        put7(
            out,
            "        ",
            error.as_str(),
            " = ",
            detail.as_str(),
            " != NULL ? *",
            detail.as_str(),
            " : (cr_error){CR_ERROR_MISSING_CHILD_ERROR, \"boxed child error without details\"};\n",
        );
    } else {
        put5(out, "        ", error.as_str(), " = ", child.as_str(), "->error;\n");
    }
    put9(
        out,
        "        ",
        stem,
        "_destroy(",
        child.as_str(),
        ");\n        ",
        child.as_str(),
        " = NULL;\n        ",
        active.as_str(),
        " = false;\n",
    );
    put9(
        out,
        "        cr_cleanup_run_all(&",
        cleanups.as_str(),
        ");\n        ",
        status_path.as_str(),
        " = CR_POLL_ERROR;\n        return ",
        status_path.as_str(),
        ";\n    }\n    if (",
        status.as_str(),
        " == CR_POLL_CANCELED) {\n",
    );
    put9(
        out,
        "        ",
        stem,
        "_destroy(",
        child.as_str(),
        ");\n        ",
        child.as_str(),
        " = NULL;\n        ",
        active.as_str(),
        " = false;\n",
    );
    put9(
        out,
        "        cr_cleanup_run_all(&",
        cleanups.as_str(),
        ");\n        ",
        status_path.as_str(),
        " = CR_POLL_CANCELED;\n        return ",
        status_path.as_str(),
        ";\n    }\n    if (",
        status.as_str(),
        " == CR_POLL_YIELDED) {\n",
    );
    if str_eq(result_type, return_type) && !str_eq(return_type, "void") {
        if accessors {
            put7(
                out,
                "        ",
                yielded.as_str(),
                " = *",
                stem,
                "_yielded(",
                child.as_str(),
                ");\n",
            );
        } else {
            put5(out, "        ", yielded.as_str(), " = ", child.as_str(), "->yielded;\n");
        }
        put5(
            out,
            "        ",
            status_path.as_str(),
            " = CR_POLL_YIELDED;\n        return ",
            status_path.as_str(),
            ";\n",
        );
    } else {
        put9(
            out,
            "        ",
            stem,
            "_destroy(",
            child.as_str(),
            ");\n        ",
            child.as_str(),
            " = NULL;\n        ",
            active.as_str(),
            " = false;\n",
        );
        write_async_error_at(
            out,
            task,
            "1005",
            "yielded awaitable has an incompatible value type",
            "        ",
        );
    }
    put9(
        out,
        "    }\n    ",
        stem,
        "_destroy(",
        child.as_str(),
        ");\n    ",
        child.as_str(),
        " = NULL;\n    ",
        active.as_str(),
        " = false;\n",
    );
    write_async_error_at(out, task, "1106", "invalid awaitable poll status", "    ");
}

/// C code that polls a bound task.
#[verifier::opaque]
pub open spec fn binding_wait_text(
    out: Seq<char>,
    task: TaskView,
    stem: Seq<char>,
    result_type: Seq<char>,
    return_type: Seq<char>,
    declaration: DeclarationId,
    slot: AwaitSlotId,
    number: Seq<char>,
    binding_number: Seq<char>,
    state: Seq<char>,
    target: Seq<char>,
    embedded: bool,
    accessors: bool,
) -> Seq<char> {
    let binding = c_source::path(task, LogicalFieldId::Lifted(declaration));
    let active = c_source::path(task, LogicalFieldId::BindingActive(declaration));
    let state_path = c_source::path(task, LogicalFieldId::State);
    let error = c_source::path(task, LogicalFieldId::Error);
    let cleanups = c_source::path(task, LogicalFieldId::Cleanups);
    let status_path = c_source::path(task, LogicalFieldId::Status);
    let yielded = c_source::path(task, LogicalFieldId::Yielded);
    let out = out + "    if (!"@ + active + ") {\n"@;
    let out = c_runtime_text::async_error_at_text(out, task, "1109"@, "inactive task binding"@, "        "@);
    let out = out + "    }\n    "@ + state_path + " = "@ + state + "u;\n"@;
    let status = "cr_await_"@ + number + "_status"@;
    let address = if embedded {
        "&"@
    } else {
        ""@
    };
    let member = if embedded {
        "."@
    } else {
        "->"@
    };
    let out = out
        + "    cr_poll_status "@
        + status
        + " = "@
        + stem
        + "_poll("@
        + address
        + binding
        + ", poll_context);\n"@;
    let out = out
        + "    if ("@
        + status
        + " == CR_POLL_PENDING) return "@
        + status
        + ";\n    if ("@
        + status
        + " == CR_POLL_READY) {\n"@;
    let out = if result_type != "void"@ {
        let result = c_source::path(task, LogicalFieldId::AwaitResult(slot));
        let out = if accessors {
            let out = out + "        "@ + result + " = *"@ + stem + "_result("@ + binding + ");\n"@;
            out
        } else {
            let out = out + "        "@ + result + " = "@ + binding + member + "result;\n"@;
            out
        };
        out
    } else {
        out
    };
    let out = out
        + "        goto cr_b"@
        + target
        + ";\n    }\n    if ("@
        + status
        + " == CR_POLL_ERROR) {\n"@;
    let out = if accessors {
        let detail = "cr_binding_"@ + binding_number + "_error"@;
        let out = out
            + "        const cr_error *"@
            + detail
            + " = "@
            + stem
            + "_error("@
            + binding
            + ");\n"@;
        let out = out
            + "        "@
            + error
            + " = "@
            + detail
            + " != NULL ? *"@
            + detail
            + " : (cr_error){CR_ERROR_MISSING_CHILD_ERROR, \"boxed binding error without details\"};\n"@;
        out
    } else {
        let out = out + "        "@ + error + " = "@ + binding + member + "error;\n"@;
        out
    };
    let out = out
        + "        cr_cleanup_run_all(&"@
        + cleanups
        + ");\n        "@
        + status_path
        + " = CR_POLL_ERROR;\n        return "@
        + status_path
        + ";\n    }\n    if ("@
        + status
        + " == CR_POLL_CANCELED) {\n"@;
    let out = out
        + "        cr_cleanup_run_all(&"@
        + cleanups
        + ");\n        "@
        + status_path
        + " = CR_POLL_CANCELED;\n        return "@
        + status_path
        + ";\n    }\n    if ("@
        + status
        + " == CR_POLL_YIELDED) {\n"@;
    let out = if result_type == return_type && return_type != "void"@ {
        let out = if accessors {
            let out = out
                + "        "@
                + yielded
                + " = *"@
                + stem
                + "_yielded("@
                + binding
                + ");\n"@;
            out
        } else {
            let out = out + "        "@ + yielded + " = "@ + binding + member + "yielded;\n"@;
            out
        };
        let out = out
            + "        "@
            + status_path
            + " = CR_POLL_YIELDED;\n        return "@
            + status_path
            + ";\n"@;
        out
    } else {
        let out = c_runtime_text::async_error_at_text(
            out,
            task,
            "1005"@,
            "yielded awaitable has an incompatible value type"@,
            "        "@,
        );
        out
    };
    let out = out + "    }\n"@;
    let out = c_runtime_text::async_error_at_text(out, task, "1106"@, "invalid awaitable poll status"@, "    "@);
    out
}

/// Appends C code that polls a bound task.
pub fn write_binding_wait(
    out: &mut String,
    task: &TaskContext<'_>,
    stem: &str,
    result_type: &str,
    return_type: &str,
    declaration: DeclarationId,
    slot: AwaitSlotId,
    number: &str,
    binding_number: &str,
    state: &str,
    target: &str,
    embedded: bool,
    accessors: bool,
)
    requires
        c_runtime_text::values_placed(task@),
        c_source::placed(task@, LogicalFieldId::Lifted(declaration)),
        c_source::placed(task@, LogicalFieldId::BindingActive(declaration)),
        result_placed(task@, slot, result_type@),
    ensures
        final(out)@ == binding_wait_text(
            old(out)@,
            task@,
            stem@,
            result_type@,
            return_type@,
            declaration,
            slot,
            number@,
            binding_number@,
            state@,
            target@,
            embedded,
            accessors,
        ),
{
    proof {
        reveal(binding_wait_text);
    }
    let binding = required_access(task, LogicalFieldId::Lifted(declaration));
    let active = required_access(task, LogicalFieldId::BindingActive(declaration));
    let state_path = required_access(task, LogicalFieldId::State);
    let error = required_access(task, LogicalFieldId::Error);
    let cleanups = required_access(task, LogicalFieldId::Cleanups);
    let status_path = required_access(task, LogicalFieldId::Status);
    let yielded = required_access(task, LogicalFieldId::Yielded);
    put3(out, "    if (!", active.as_str(), ") {\n");
    write_async_error_at(out, task, "1109", "inactive task binding", "        ");
    put5(out, "    }\n    ", state_path.as_str(), " = ", state, "u;\n");
    let status = concat3("cr_await_", number, "_status");
    let address = if embedded {
        "&"
    } else {
        ""
    };
    let member = if embedded {
        "."
    } else {
        "->"
    };
    put8(
        out,
        "    cr_poll_status ",
        status.as_str(),
        " = ",
        stem,
        "_poll(",
        address,
        binding.as_str(),
        ", poll_context);\n",
    );
    put7(
        out,
        "    if (",
        status.as_str(),
        " == CR_POLL_PENDING) return ",
        status.as_str(),
        ";\n    if (",
        status.as_str(),
        " == CR_POLL_READY) {\n",
    );
    if !str_eq(result_type, "void") {
        let result = required_access(task, LogicalFieldId::AwaitResult(slot));
        if accessors {
            put7(
                out,
                "        ",
                result.as_str(),
                " = *",
                stem,
                "_result(",
                binding.as_str(),
                ");\n",
            );
        } else {
            put6(out, "        ", result.as_str(), " = ", binding.as_str(), member, "result;\n");
        }
    }
    put5(
        out,
        "        goto cr_b",
        target,
        ";\n    }\n    if (",
        status.as_str(),
        " == CR_POLL_ERROR) {\n",
    );
    if accessors {
        let detail = concat3("cr_binding_", binding_number, "_error");
        put7(
            out,
            "        const cr_error *",
            detail.as_str(),
            " = ",
            stem,
            "_error(",
            binding.as_str(),
            ");\n",
        );
        put7(
            out,
            "        ",
            error.as_str(),
            " = ",
            detail.as_str(),
            " != NULL ? *",
            detail.as_str(),
            " : (cr_error){CR_ERROR_MISSING_CHILD_ERROR, \"boxed binding error without details\"};\n",
        );
    } else {
        put6(out, "        ", error.as_str(), " = ", binding.as_str(), member, "error;\n");
    }
    put9(
        out,
        "        cr_cleanup_run_all(&",
        cleanups.as_str(),
        ");\n        ",
        status_path.as_str(),
        " = CR_POLL_ERROR;\n        return ",
        status_path.as_str(),
        ";\n    }\n    if (",
        status.as_str(),
        " == CR_POLL_CANCELED) {\n",
    );
    put9(
        out,
        "        cr_cleanup_run_all(&",
        cleanups.as_str(),
        ");\n        ",
        status_path.as_str(),
        " = CR_POLL_CANCELED;\n        return ",
        status_path.as_str(),
        ";\n    }\n    if (",
        status.as_str(),
        " == CR_POLL_YIELDED) {\n",
    );
    if str_eq(result_type, return_type) && !str_eq(return_type, "void") {
        if accessors {
            put7(
                out,
                "        ",
                yielded.as_str(),
                " = *",
                stem,
                "_yielded(",
                binding.as_str(),
                ");\n",
            );
        } else {
            put6(out, "        ", yielded.as_str(), " = ", binding.as_str(), member, "yielded;\n");
        }
        put5(
            out,
            "        ",
            status_path.as_str(),
            " = CR_POLL_YIELDED;\n        return ",
            status_path.as_str(),
            ";\n",
        );
    } else {
        write_async_error_at(
            out,
            task,
            "1005",
            "yielded awaitable has an incompatible value type",
            "        ",
        );
    }
    put(out, "    }\n");
    write_async_error_at(out, task, "1106", "invalid awaitable poll status", "    ");
}

/// C code that takes an awaitable unless one is active.
#[verifier::opaque]
pub open spec fn awaitable_start_text(
    out: Seq<char>,
    task: TaskView,
    slot: AwaitSlotId,
    operand: Seq<char>,
    bound: bool,
    declaration: DeclarationId,
    valued: bool,
    expected: Seq<char>,
) -> Seq<char> {
    let awaitable = c_source::path(task, LogicalFieldId::Awaitable(slot));
    let active = c_source::path(task, LogicalFieldId::AwaitableActive(slot));
    let out = out + "    if (!"@ + active + ") {\n"@;
    let out = if bound {
        let binding_active = c_source::path(task, LogicalFieldId::BindingActive(declaration));
        let out = out + "        if (!"@ + binding_active + ") {\n"@;
        let out = c_runtime_text::async_error_at_text(
            out,
            task,
            "1109"@,
            "inactive task binding"@,
            "            "@,
        );
        let out = out + "        }\n"@;
        out
    } else {
        out
    };
    let out = out + "        "@ + awaitable + " = "@ + operand + ";\n"@;
    let owned = !bound;
    let out = c_runtime_text::activation_validation_text(
        out,
        task,
        awaitable,
        valued,
        expected,
        "        "@,
        owned,
    );
    let out = out + "        "@ + active + " = true;\n    }\n"@;
    out
}

/// Appends C code that takes an awaitable unless one is active.
pub fn write_awaitable_start(
    out: &mut String,
    task: &TaskContext<'_>,
    slot: AwaitSlotId,
    operand: &str,
    bound: bool,
    declaration: DeclarationId,
    valued: bool,
    expected: &str,
)
    requires
        c_runtime_text::header_placed(task@),
        c_runtime_text::awaitable_placed(task@, slot),
        bound ==> c_source::placed(task@, LogicalFieldId::BindingActive(declaration)),
    ensures
        final(out)@ == awaitable_start_text(
            old(out)@,
            task@,
            slot,
            operand@,
            bound,
            declaration,
            valued,
            expected@,
        ),
{
    proof {
        reveal(awaitable_start_text);
    }
    let awaitable = required_access(task, LogicalFieldId::Awaitable(slot));
    let active = required_access(task, LogicalFieldId::AwaitableActive(slot));
    put3(out, "    if (!", active.as_str(), ") {\n");
    if bound {
        let binding_active = required_access(task, LogicalFieldId::BindingActive(declaration));
        put3(out, "        if (!", binding_active.as_str(), ") {\n");
        write_async_error_at(out, task, "1109", "inactive task binding", "            ");
        put(out, "        }\n");
    }
    put5(out, "        ", awaitable.as_str(), " = ", operand, ";\n");
    let owned = !bound;
    write_activation_validation(out, task, awaitable.as_str(), valued, expected, "        ", owned);
    put3(out, "        ", active.as_str(), " = true;\n    }\n");
}

/// C code that polls the awaitable of a slot.
#[verifier::opaque]
pub open spec fn awaitable_wait_text(
    out: Seq<char>,
    task: TaskView,
    slot: AwaitSlotId,
    number: Seq<char>,
    state: Seq<char>,
    target: Seq<char>,
    pointer: Seq<char>,
    owned: bool,
    yields: bool,
) -> Seq<char> {
    let awaitable = c_source::path(task, LogicalFieldId::Awaitable(slot));
    let state_path = c_source::path(task, LogicalFieldId::State);
    let error = c_source::path(task, LogicalFieldId::Error);
    let cleanups = c_source::path(task, LogicalFieldId::Cleanups);
    let status_path = c_source::path(task, LogicalFieldId::Status);
    let yielded = c_source::path(task, LogicalFieldId::Yielded);
    let status = "cr_await_"@ + number + "_status"@;
    let out = out
        + "    "@
        + state_path
        + " = "@
        + state
        + "u;\n    if (("@
        + awaitable
        + ".vtable->required_context_capabilities & ~CR_POLL_KNOWN_CAPABILITIES) != 0u) {\n"@;
    let out = c_runtime_text::await_release_text(out, task, slot, "        "@, owned);
    let out = c_runtime_text::async_error_at_text(out, task, "1107"@, "unsupported poll capability"@, "        "@);
    let out = out
        + "    }\n    if (("@
        + awaitable
        + ".vtable->required_context_capabilities & ~(poll_context != NULL ? poll_context->available_capabilities : 0u)) != 0u) {\n"@;
    let out = c_runtime_text::await_release_text(out, task, slot, "        "@, owned);
    let out = c_runtime_text::async_error_at_text(out, task, "1104"@, "missing poll capability"@, "        "@);
    let out = out
        + "    }\n    cr_poll_status "@
        + status
        + " = "@
        + awaitable
        + ".vtable->poll("@
        + awaitable
        + ".state, poll_context, "@
        + pointer
        + ");\n"@;
    let out = out
        + "    if ("@
        + status
        + " == CR_POLL_PENDING) return "@
        + status
        + ";\n    if ("@
        + status
        + " == CR_POLL_READY) {\n"@;
    let out = c_runtime_text::await_release_text(out, task, slot, "        "@, owned);
    let out = out
        + "        goto cr_b"@
        + target
        + ";\n    }\n    if ("@
        + status
        + " == CR_POLL_ERROR) {\n"@;
    let out = out
        + "        const cr_error *cr_await_"@
        + number
        + "_error = "@
        + awaitable
        + ".vtable->error != NULL ? "@
        + awaitable
        + ".vtable->error("@
        + awaitable
        + ".state) : NULL;\n"@;
    let out = out
        + "        "@
        + error
        + " = cr_await_"@
        + number
        + "_error != NULL ? *cr_await_"@
        + number
        + "_error : (cr_error){CR_ERROR_MISSING_CHILD_ERROR, \"awaitable error without details\"};\n"@;
    let out = c_runtime_text::await_release_text(out, task, slot, "        "@, owned);
    let out = out
        + "        cr_cleanup_run_all(&"@
        + cleanups
        + ");\n        "@
        + status_path
        + " = CR_POLL_ERROR;\n        return "@
        + status_path
        + ";\n    }\n    if ("@
        + status
        + " == CR_POLL_CANCELED) {\n"@;
    let out = c_runtime_text::await_release_text(out, task, slot, "        "@, owned);
    let out = out
        + "        cr_cleanup_run_all(&"@
        + cleanups
        + ");\n        "@
        + status_path
        + " = CR_POLL_CANCELED;\n        return "@
        + status_path
        + ";\n    }\n    if ("@
        + status
        + " == CR_POLL_YIELDED) {\n"@;
    let out = if yields {
        let result = c_source::path(task, LogicalFieldId::AwaitResult(slot));
        let out = out
            + "        "@
            + yielded
            + " = "@
            + result
            + ";\n        "@
            + status_path
            + " = CR_POLL_YIELDED;\n        return "@
            + status_path
            + ";\n"@;
        out
    } else {
        let out = c_runtime_text::await_release_text(out, task, slot, "        "@, owned);
        let out = c_runtime_text::async_error_at_text(
            out,
            task,
            "1005"@,
            "yielded awaitable has an incompatible value type"@,
            "        "@,
        );
        out
    };
    let out = out + "    }\n"@;
    let out = c_runtime_text::await_release_text(out, task, slot, "    "@, owned);
    let out = c_runtime_text::async_error_at_text(out, task, "1106"@, "invalid awaitable poll status"@, "    "@);
    out
}

/// Appends C code that polls the awaitable of a slot.
pub fn write_awaitable_wait(
    out: &mut String,
    task: &TaskContext<'_>,
    slot: AwaitSlotId,
    number: &str,
    state: &str,
    target: &str,
    pointer: &str,
    owned: bool,
    yields: bool,
)
    requires
        c_runtime_text::values_placed(task@),
        c_runtime_text::awaitable_placed(task@, slot),
        yields ==> c_source::placed(task@, LogicalFieldId::AwaitResult(slot)),
    ensures
        final(out)@ == awaitable_wait_text(
            old(out)@,
            task@,
            slot,
            number@,
            state@,
            target@,
            pointer@,
            owned,
            yields,
        ),
{
    proof {
        reveal(awaitable_wait_text);
    }
    let awaitable = required_access(task, LogicalFieldId::Awaitable(slot));
    let state_path = required_access(task, LogicalFieldId::State);
    let error = required_access(task, LogicalFieldId::Error);
    let cleanups = required_access(task, LogicalFieldId::Cleanups);
    let status_path = required_access(task, LogicalFieldId::Status);
    let yielded = required_access(task, LogicalFieldId::Yielded);
    let status = concat3("cr_await_", number, "_status");
    put7(
        out,
        "    ",
        state_path.as_str(),
        " = ",
        state,
        "u;\n    if ((",
        awaitable.as_str(),
        ".vtable->required_context_capabilities & ~CR_POLL_KNOWN_CAPABILITIES) != 0u) {\n",
    );
    write_await_release(out, task, slot, "        ", owned);
    write_async_error_at(out, task, "1107", "unsupported poll capability", "        ");
    put3(
        out,
        "    }\n    if ((",
        awaitable.as_str(),
        ".vtable->required_context_capabilities & ~(poll_context != NULL ? poll_context->available_capabilities : 0u)) != 0u) {\n",
    );
    write_await_release(out, task, slot, "        ", owned);
    write_async_error_at(out, task, "1104", "missing poll capability", "        ");
    put9(
        out,
        "    }\n    cr_poll_status ",
        status.as_str(),
        " = ",
        awaitable.as_str(),
        ".vtable->poll(",
        awaitable.as_str(),
        ".state, poll_context, ",
        pointer,
        ");\n",
    );
    put7(
        out,
        "    if (",
        status.as_str(),
        " == CR_POLL_PENDING) return ",
        status.as_str(),
        ";\n    if (",
        status.as_str(),
        " == CR_POLL_READY) {\n",
    );
    write_await_release(out, task, slot, "        ", owned);
    put5(
        out,
        "        goto cr_b",
        target,
        ";\n    }\n    if (",
        status.as_str(),
        " == CR_POLL_ERROR) {\n",
    );
    put9(
        out,
        "        const cr_error *cr_await_",
        number,
        "_error = ",
        awaitable.as_str(),
        ".vtable->error != NULL ? ",
        awaitable.as_str(),
        ".vtable->error(",
        awaitable.as_str(),
        ".state) : NULL;\n",
    );
    put7(
        out,
        "        ",
        error.as_str(),
        " = cr_await_",
        number,
        "_error != NULL ? *cr_await_",
        number,
        "_error : (cr_error){CR_ERROR_MISSING_CHILD_ERROR, \"awaitable error without details\"};\n",
    );
    write_await_release(out, task, slot, "        ", owned);
    put9(
        out,
        "        cr_cleanup_run_all(&",
        cleanups.as_str(),
        ");\n        ",
        status_path.as_str(),
        " = CR_POLL_ERROR;\n        return ",
        status_path.as_str(),
        ";\n    }\n    if (",
        status.as_str(),
        " == CR_POLL_CANCELED) {\n",
    );
    write_await_release(out, task, slot, "        ", owned);
    put9(
        out,
        "        cr_cleanup_run_all(&",
        cleanups.as_str(),
        ");\n        ",
        status_path.as_str(),
        " = CR_POLL_CANCELED;\n        return ",
        status_path.as_str(),
        ";\n    }\n    if (",
        status.as_str(),
        " == CR_POLL_YIELDED) {\n",
    );
    if yields {
        let result = required_access(task, LogicalFieldId::AwaitResult(slot));
        put9(
            out,
            "        ",
            yielded.as_str(),
            " = ",
            result.as_str(),
            ";\n        ",
            status_path.as_str(),
            " = CR_POLL_YIELDED;\n        return ",
            status_path.as_str(),
            ";\n",
        );
    } else {
        write_await_release(out, task, slot, "        ", owned);
        write_async_error_at(
            out,
            task,
            "1005",
            "yielded awaitable has an incompatible value type",
            "        ",
        );
    }
    put(out, "    }\n");
    write_await_release(out, task, slot, "    ", owned);
    write_async_error_at(out, task, "1106", "invalid awaitable poll status", "    ");
}

} // verus!
