//! C code of the functions that surround a task.

use vstd::prelude::*;

use crate::await_plan::ChildInstanceId;
use crate::c_runtime_text;
use crate::c_runtime_text::{
    write_activation_validation, write_async_error_at, write_invalid_state,
};
use crate::c_source;
use crate::c_source::{required_access, TaskContext, TaskView};
use crate::c_suspend;
use crate::context_layout::LogicalFieldId;
use crate::semantic::{AwaitSlotId, DeclarationId};
use crate::text::{
    concat2, concat3, concat4, copied, put, put2, put3, put4, put5, put6, put7, put8, put9, str_eq,
};

verus! {

/// Whether the fields of a bound task have places.
pub open spec fn binding_placed(task: TaskView, declaration: DeclarationId) -> bool {
    &&& c_source::placed(task, LogicalFieldId::Lifted(declaration))
    &&& c_source::placed(task, LogicalFieldId::BindingActive(declaration))
    &&& c_source::placed(task, LogicalFieldId::BindingGeneration(declaration))
}

/// C code of the cleanup that drops a bound task when its scope ends.
pub open spec fn task_cleanup_text(
    out: Seq<char>,
    stem: Seq<char>,
    field: Seq<char>,
    typed: bool,
    embedded: bool,
    task_type: Seq<char>,
    child: Seq<char>,
) -> Seq<char> {
    let payload = stem + "_"@ + field + "_cleanup_payload"@;
    let helper = stem + "_"@ + field + "_cleanup"@;
    let out = out + "typedef struct "@ + payload + " {\n"@;
    let out = if typed {
        let out = if embedded {
            let out = out + "    "@ + task_type + " *slot;\n"@;
            out
        } else {
            let out = out + "    "@ + task_type + " **slot;\n"@;
            out
        };
        out
    } else {
        let out = out + "    cr_awaitable *slot;\n"@;
        out
    };
    let out = out
        + "    bool *active;\n    uint64_t *generation;\n    uint64_t captured_generation;\n} "@
        + payload
        + ";\nstatic void "@
        + helper
        + "(void *raw) {\n    "@
        + payload
        + " *payload = ("@
        + payload
        + " *)raw;\n    if (!*payload->active || *payload->generation != payload->captured_generation) return;\n"@;
    let out = if typed {
        let out = if embedded {
            let out = out + "    "@ + child + "_drop(payload->slot);\n"@;
            out
        } else {
            let out = out
                + "    "@
                + child
                + "_destroy(*payload->slot);\n    *payload->slot = NULL;\n"@;
            out
        };
        out
    } else {
        let out = out + "    payload->slot->vtable->drop(payload->slot->state);\n"@;
        out
    };
    let out = out + "    *payload->active = false;\n}\n\n"@;
    out
}

/// Appends C code of the cleanup that drops a bound task when its scope ends.
pub fn write_task_cleanup(
    out: &mut String,
    stem: &str,
    field: &str,
    typed: bool,
    embedded: bool,
    task_type: &str,
    child: &str,
)
    ensures
        final(out)@ == task_cleanup_text(
            old(out)@,
            stem@,
            field@,
            typed,
            embedded,
            task_type@,
            child@,
        ),
{
    let payload = concat4(stem, "_", field, "_cleanup_payload");
    let helper = concat4(stem, "_", field, "_cleanup");
    put3(out, "typedef struct ", payload.as_str(), " {\n");
    if typed {
        if embedded {
            put3(out, "    ", task_type, " *slot;\n");
        } else {
            put3(out, "    ", task_type, " **slot;\n");
        }
    } else {
        put(out, "    cr_awaitable *slot;\n");
    }
    put9(
        out,
        "    bool *active;\n    uint64_t *generation;\n    uint64_t captured_generation;\n} ",
        payload.as_str(),
        ";\nstatic void ",
        helper.as_str(),
        "(void *raw) {\n    ",
        payload.as_str(),
        " *payload = (",
        payload.as_str(),
        " *)raw;\n    if (!*payload->active || *payload->generation != payload->captured_generation) return;\n",
    );
    if typed {
        if embedded {
            put3(out, "    ", child, "_drop(payload->slot);\n");
        } else {
            put3(out, "    ", child, "_destroy(*payload->slot);\n    *payload->slot = NULL;\n");
        }
    } else {
        put(out, "    payload->slot->vtable->drop(payload->slot->state);\n");
    }
    put(out, "    *payload->active = false;\n}\n\n");
}

/// The start of the function that sets a task up.
pub open spec fn init_head_text(
    out: Seq<char>,
    task: TaskView,
    context: Seq<char>,
    init_name: Seq<char>,
    task_type: Seq<char>,
    parameters: Seq<char>,
) -> Seq<char> {
    let state = c_source::path(task, LogicalFieldId::State);
    let status = c_source::path(task, LogicalFieldId::Status);
    let cleanups = c_source::path(task, LogicalFieldId::Cleanups);
    let out = out
        + "void "@
        + init_name
        + "("@
        + task_type
        + " *"@
        + context
        + parameters
        + ") {\n"@;
    let out = out
        + "    memset("@
        + context
        + ", 0, sizeof(*"@
        + context
        + "));\n    "@
        + state
        + " = 0;\n    "@
        + status
        + " = CR_POLL_PENDING;\n"@;
    let out = out + "    cr_cleanup_stack_init(&"@ + cleanups + ");\n"@;
    out
}

/// Appends the start of the function that sets a task up.
pub fn write_init_head(
    out: &mut String,
    task: &TaskContext<'_>,
    context: &str,
    init_name: &str,
    task_type: &str,
    parameters: &str,
)
    requires
        c_runtime_text::header_placed(task@),
    ensures
        final(out)@ == init_head_text(
            old(out)@,
            task@,
            context@,
            init_name@,
            task_type@,
            parameters@,
        ),
{
    let state = required_access(task, LogicalFieldId::State);
    let status = required_access(task, LogicalFieldId::Status);
    let cleanups = required_access(task, LogicalFieldId::Cleanups);
    put8(out, "void ", init_name, "(", task_type, " *", context, parameters, ") {\n");
    put9(
        out,
        "    memset(",
        context,
        ", 0, sizeof(*",
        context,
        "));\n    ",
        state.as_str(),
        " = 0;\n    ",
        status.as_str(),
        " = CR_POLL_PENDING;\n",
    );
    put3(out, "    cr_cleanup_stack_init(&", cleanups.as_str(), ");\n");
}

/// The start of the function that polls a task.
pub open spec fn poll_head_text(
    out: Seq<char>,
    task: TaskView,
    context: Seq<char>,
    poll_name: Seq<char>,
    task_type: Seq<char>,
) -> Seq<char> {
    let status = c_source::path(task, LogicalFieldId::Status);
    let error = c_source::path(task, LogicalFieldId::Error);
    let cleanups = c_source::path(task, LogicalFieldId::Cleanups);
    let out = out
        + "cr_poll_status "@
        + poll_name
        + "("@
        + task_type
        + " *"@
        + context
        + ", const cr_poll_context *poll_context) {\n    if ("@
        + context
        + " == NULL) return CR_POLL_ERROR;\n"@;
    let out = out
        + "    if ("@
        + status
        + " == CR_POLL_READY || "@
        + status
        + " == CR_POLL_ERROR || "@
        + status
        + " == CR_POLL_CANCELED) return "@
        + status
        + ";\n    if (poll_context != NULL && (poll_context->abi_version < CR_POLL_CONTEXT_ABI_VERSION || poll_context->struct_size < CR_POLL_CONTEXT_V1_MIN_SIZE || ((poll_context->available_capabilities & CR_POLL_CAP_WAKER) != 0u && poll_context->waker == NULL))) {\n"@;
    let out = out
        + "        "@
        + error
        + " = (cr_error){CR_ERROR_INVALID_POLL_CONTEXT, \"invalid poll context\"};\n        cr_cleanup_run_all(&"@
        + cleanups
        + ");\n        "@
        + status
        + " = CR_POLL_ERROR;\n        return "@
        + status
        + ";\n    }\n"@;
    let out = out
        + "    if ("@
        + status
        + " == CR_POLL_YIELDED) "@
        + status
        + " = CR_POLL_PENDING;\n"@;
    out
}

/// Appends the start of the function that polls a task.
pub fn write_poll_head(
    out: &mut String,
    task: &TaskContext<'_>,
    context: &str,
    poll_name: &str,
    task_type: &str,
)
    requires
        c_runtime_text::header_placed(task@),
    ensures
        final(out)@ == poll_head_text(old(out)@, task@, context@, poll_name@, task_type@),
{
    let status = required_access(task, LogicalFieldId::Status);
    let error = required_access(task, LogicalFieldId::Error);
    let cleanups = required_access(task, LogicalFieldId::Cleanups);
    put9(
        out,
        "cr_poll_status ",
        poll_name,
        "(",
        task_type,
        " *",
        context,
        ", const cr_poll_context *poll_context) {\n    if (",
        context,
        " == NULL) return CR_POLL_ERROR;\n",
    );
    put9(
        out,
        "    if (",
        status.as_str(),
        " == CR_POLL_READY || ",
        status.as_str(),
        " == CR_POLL_ERROR || ",
        status.as_str(),
        " == CR_POLL_CANCELED) return ",
        status.as_str(),
        ";\n    if (poll_context != NULL && (poll_context->abi_version < CR_POLL_CONTEXT_ABI_VERSION || poll_context->struct_size < CR_POLL_CONTEXT_V1_MIN_SIZE || ((poll_context->available_capabilities & CR_POLL_CAP_WAKER) != 0u && poll_context->waker == NULL))) {\n",
    );
    put9(
        out,
        "        ",
        error.as_str(),
        " = (cr_error){CR_ERROR_INVALID_POLL_CONTEXT, \"invalid poll context\"};\n        cr_cleanup_run_all(&",
        cleanups.as_str(),
        ");\n        ",
        status.as_str(),
        " = CR_POLL_ERROR;\n        return ",
        status.as_str(),
        ";\n    }\n",
    );
    put5(
        out,
        "    if (",
        status.as_str(),
        " == CR_POLL_YIELDED) ",
        status.as_str(),
        " = CR_POLL_PENDING;\n",
    );
}

/// C code that goes on where a task stopped, through a table of labels.
pub open spec fn goto_dispatch_text(
    out: Seq<char>,
    task: TaskView,
    labels: Seq<char>,
) -> Seq<char> {
    let state = c_source::path(task, LogicalFieldId::State);
    let out = out
        + "    static void *const cr_dispatch[] = {"@
        + labels
        + "};\n    if ("@
        + state
        + " >= (sizeof(cr_dispatch) / sizeof(cr_dispatch[0]))) {\n"@;
    let out = c_runtime_text::invalid_state_text(out, task);
    let out = out + "    }\n    goto *cr_dispatch["@ + state + "];\n"@;
    out
}

/// Appends C code that goes on where a task stopped, through a table of labels.
pub fn write_goto_dispatch(out: &mut String, task: &TaskContext<'_>, labels: &str)
    requires
        c_runtime_text::header_placed(task@),
    ensures
        final(out)@ == goto_dispatch_text(old(out)@, task@, labels@),
{
    let state = required_access(task, LogicalFieldId::State);
    put5(
        out,
        "    static void *const cr_dispatch[] = {",
        labels,
        "};\n    if (",
        state.as_str(),
        " >= (sizeof(cr_dispatch) / sizeof(cr_dispatch[0]))) {\n",
    );
    write_invalid_state(out, task);
    put3(out, "    }\n    goto *cr_dispatch[", state.as_str(), "];\n");
}

/// The start of the function that drops a task.
pub open spec fn drop_head_text(
    out: Seq<char>,
    context: Seq<char>,
    drop_name: Seq<char>,
    task_type: Seq<char>,
) -> Seq<char> {
    let out = out
        + "void "@
        + drop_name
        + "("@
        + task_type
        + " *"@
        + context
        + ") {\n    if ("@
        + context
        + " == NULL) return;\n"@;
    out
}

/// Appends the start of the function that drops a task.
pub fn write_drop_head(out: &mut String, context: &str, drop_name: &str, task_type: &str)
    ensures
        final(out)@ == drop_head_text(old(out)@, context@, drop_name@, task_type@),
{
    put9(
        out,
        "void ",
        drop_name,
        "(",
        task_type,
        " *",
        context,
        ") {\n    if (",
        context,
        " == NULL) return;\n",
    );
}

/// C code that drops a directly awaited child.
pub open spec fn drop_child_text(
    out: Seq<char>,
    task: TaskView,
    instance: ChildInstanceId,
    stem: Seq<char>,
    embedded: bool,
) -> Seq<char> {
    let payload = c_source::path(task, LogicalFieldId::DirectChildPayload(instance));
    let active = c_source::path(task, LogicalFieldId::DirectChildActive(instance));
    let out = out + "    if ("@ + active + ") {\n"@;
    let out = if embedded {
        let out = out + "        "@ + stem + "_drop(&"@ + payload + ");\n"@;
        out
    } else {
        let out = out
            + "        "@
            + stem
            + "_destroy("@
            + payload
            + ");\n        "@
            + payload
            + " = NULL;\n"@;
        out
    };
    let out = out + "        "@ + active + " = false;\n    }\n"@;
    out
}

/// Appends C code that drops a directly awaited child.
pub fn write_drop_child(
    out: &mut String,
    task: &TaskContext<'_>,
    instance: ChildInstanceId,
    stem: &str,
    embedded: bool,
)
    requires
        c_suspend::child_placed(task@, instance),
    ensures
        final(out)@ == drop_child_text(old(out)@, task@, instance, stem@, embedded),
{
    let payload = required_access(task, LogicalFieldId::DirectChildPayload(instance));
    let active = required_access(task, LogicalFieldId::DirectChildActive(instance));
    put3(out, "    if (", active.as_str(), ") {\n");
    if embedded {
        put5(out, "        ", stem, "_drop(&", payload.as_str(), ");\n");
    } else {
        put7(
            out,
            "        ",
            stem,
            "_destroy(",
            payload.as_str(),
            ");\n        ",
            payload.as_str(),
            " = NULL;\n",
        );
    }
    put3(out, "        ", active.as_str(), " = false;\n    }\n");
}

/// C code that drops the awaitable of a slot.
pub open spec fn drop_slot_text(
    out: Seq<char>,
    task: TaskView,
    slot: AwaitSlotId,
    bound: bool,
) -> Seq<char> {
    let awaitable = c_source::path(task, LogicalFieldId::Awaitable(slot));
    let active = c_source::path(task, LogicalFieldId::AwaitableActive(slot));
    let out = out + "    if ("@ + active + ") {\n"@;
    let out = if !bound {
        let out = out
            + "        if ("@
            + awaitable
            + ".vtable != NULL && "@
            + awaitable
            + ".vtable->drop != NULL) "@
            + awaitable
            + ".vtable->drop("@
            + awaitable
            + ".state);\n"@;
        out
    } else {
        out
    };
    let out = out + "        "@ + active + " = false;\n    }\n"@;
    out
}

/// Appends C code that drops the awaitable of a slot.
pub fn write_drop_slot(out: &mut String, task: &TaskContext<'_>, slot: AwaitSlotId, bound: bool)
    requires
        c_runtime_text::awaitable_placed(task@, slot),
    ensures
        final(out)@ == drop_slot_text(old(out)@, task@, slot, bound),
{
    let awaitable = required_access(task, LogicalFieldId::Awaitable(slot));
    let active = required_access(task, LogicalFieldId::AwaitableActive(slot));
    put3(out, "    if (", active.as_str(), ") {\n");
    if !bound {
        put9(
            out,
            "        if (",
            awaitable.as_str(),
            ".vtable != NULL && ",
            awaitable.as_str(),
            ".vtable->drop != NULL) ",
            awaitable.as_str(),
            ".vtable->drop(",
            awaitable.as_str(),
            ".state);\n",
        );
    }
    put3(out, "        ", active.as_str(), " = false;\n    }\n");
}

/// The end of the function that drops a task.
pub open spec fn drop_tail_text(out: Seq<char>, task: TaskView) -> Seq<char> {
    let cleanups = c_source::path(task, LogicalFieldId::Cleanups);
    let status = c_source::path(task, LogicalFieldId::Status);
    let out = out
        + "    cr_cleanup_stack_destroy(&"@
        + cleanups
        + ");\n    if ("@
        + status
        + " != CR_POLL_READY && "@
        + status
        + " != CR_POLL_ERROR) "@
        + status
        + " = CR_POLL_CANCELED;\n}\n\n"@;
    out
}

/// Appends the end of the function that drops a task.
pub fn write_drop_tail(out: &mut String, task: &TaskContext<'_>)
    requires
        c_runtime_text::header_placed(task@),
    ensures
        final(out)@ == drop_tail_text(old(out)@, task@),
{
    let cleanups = required_access(task, LogicalFieldId::Cleanups);
    let status = required_access(task, LogicalFieldId::Status);
    put9(
        out,
        "    cr_cleanup_stack_destroy(&",
        cleanups.as_str(),
        ");\n    if (",
        status.as_str(),
        " != CR_POLL_READY && ",
        status.as_str(),
        " != CR_POLL_ERROR) ",
        status.as_str(),
        " = CR_POLL_CANCELED;\n}\n\n",
    );
}

/// The functions that create and destroy a task on the heap.
pub open spec fn heap_api_text(
    out: Seq<char>,
    stem: Seq<char>,
    task_type: Seq<char>,
    init_name: Seq<char>,
    drop_name: Seq<char>,
    parameters: Seq<char>,
    arguments: Seq<char>,
) -> Seq<char> {
    let comma = if arguments == ""@ {
        ""@
    } else {
        ", "@
    };
    let out = out + task_type + " *"@ + stem + "_create("@ + parameters + ") {\n"@;
    let out = out
        + "    "@
        + task_type
        + " *task = ("@
        + task_type
        + " *)malloc(sizeof(*task));\n    if (task == NULL) {\n        if (out_error != NULL) *out_error = (cr_error){1006, \"async task allocation failed\"};\n        return NULL;\n    }\n    if (out_error != NULL) *out_error = (cr_error){0, NULL};\n"@;
    let out = out
        + "    "@
        + init_name
        + "(task"@
        + comma
        + arguments
        + ");\n    return task;\n}\n\n"@;
    let out = out
        + "void "@
        + stem
        + "_destroy("@
        + task_type
        + " *task) {\n    if (task == NULL) return;\n    "@
        + drop_name
        + "(task);\n    free(task);\n}\n\n"@;
    out
}

/// Appends the functions that create and destroy a task on the heap.
pub fn write_heap_api(
    out: &mut String,
    stem: &str,
    task_type: &str,
    init_name: &str,
    drop_name: &str,
    parameters: &str,
    arguments: &str,
)
    ensures
        final(out)@ == heap_api_text(
            old(out)@,
            stem@,
            task_type@,
            init_name@,
            drop_name@,
            parameters@,
            arguments@,
        ),
{
    let comma = if str_eq(arguments, "") {
        ""
    } else {
        ", "
    };
    put6(out, task_type, " *", stem, "_create(", parameters, ") {\n");
    put5(
        out,
        "    ",
        task_type,
        " *task = (",
        task_type,
        " *)malloc(sizeof(*task));\n    if (task == NULL) {\n        if (out_error != NULL) *out_error = (cr_error){1006, \"async task allocation failed\"};\n        return NULL;\n    }\n    if (out_error != NULL) *out_error = (cr_error){0, NULL};\n",
    );
    put6(out, "    ", init_name, "(task", comma, arguments, ");\n    return task;\n}\n\n");
    put7(
        out,
        "void ",
        stem,
        "_destroy(",
        task_type,
        " *task) {\n    if (task == NULL) return;\n    ",
        drop_name,
        "(task);\n    free(task);\n}\n\n",
    );
}

/// The functions that read what a task holds.
pub open spec fn accessors_text(
    out: Seq<char>,
    task: TaskView,
    stem: Seq<char>,
    task_type: Seq<char>,
    return_type: Seq<char>,
) -> Seq<char> {
    let out = if return_type != "void"@ {
        let result = c_source::path(task, LogicalFieldId::Result);
        let yielded = c_source::path(task, LogicalFieldId::Yielded);
        let out = out
            + "const "@
            + return_type
            + " *"@
            + stem
            + "_result(const "@
            + task_type
            + " *task) { return &"@
            + result
            + "; }\n"@;
        let out = out
            + "const "@
            + return_type
            + " *"@
            + stem
            + "_yielded(const "@
            + task_type
            + " *task) { return &"@
            + yielded
            + "; }\n"@;
        out
    } else {
        out
    };
    let error = c_source::path(task, LogicalFieldId::Error);
    let out = out
        + "const cr_error *"@
        + stem
        + "_error(const "@
        + task_type
        + " *task) { return &"@
        + error
        + "; }\n\n"@;
    out
}

/// Appends the functions that read what a task holds.
pub fn write_accessors(
    out: &mut String,
    task: &TaskContext<'_>,
    stem: &str,
    task_type: &str,
    return_type: &str,
)
    requires
        c_source::placed(task@, LogicalFieldId::Error),
        return_type@ != "void"@ ==> c_runtime_text::values_placed(task@),
    ensures
        final(out)@ == accessors_text(old(out)@, task@, stem@, task_type@, return_type@),
{
    if !str_eq(return_type, "void") {
        let result = required_access(task, LogicalFieldId::Result);
        let yielded = required_access(task, LogicalFieldId::Yielded);
        put9(
            out,
            "const ",
            return_type,
            " *",
            stem,
            "_result(const ",
            task_type,
            " *task) { return &",
            result.as_str(),
            "; }\n",
        );
        put9(
            out,
            "const ",
            return_type,
            " *",
            stem,
            "_yielded(const ",
            task_type,
            " *task) { return &",
            yielded.as_str(),
            "; }\n",
        );
    }
    let error = required_access(task, LogicalFieldId::Error);
    put7(
        out,
        "const cr_error *",
        stem,
        "_error(const ",
        task_type,
        " *task) { return &",
        error.as_str(),
        "; }\n\n",
    );
}

/// The table by which others poll a task.
pub open spec fn awaitable_table_text(
    out: Seq<char>,
    table: Seq<char>,
    stem: Seq<char>,
    callback: Seq<char>,
    size: Seq<char>,
    align: Seq<char>,
) -> Seq<char> {
    let out = out
        + "static const cr_awaitable_vtable "@
        + table
        + " = {\n    CR_AWAITABLE_VTABLE_ABI_VERSION,\n    sizeof(cr_awaitable_vtable),\n    CR_AWAITABLE_CAN_YIELD,\n    0u,\n    "@
        + stem
        + "_await_poll,\n    "@
        + stem
        + "_await_error,\n    "@
        + callback
        + ",\n"@;
    let out = out + "    "@ + size + ",\n    "@ + align + "\n};\n\n"@;
    out
}

/// Appends the table by which others poll a task.
pub fn write_awaitable_table(
    out: &mut String,
    table: &str,
    stem: &str,
    callback: &str,
    size: &str,
    align: &str,
)
    ensures
        final(out)@ == awaitable_table_text(old(out)@, table@, stem@, callback@, size@, align@),
{
    put9(
        out,
        "static const cr_awaitable_vtable ",
        table,
        " = {\n    CR_AWAITABLE_VTABLE_ABI_VERSION,\n    sizeof(cr_awaitable_vtable),\n    CR_AWAITABLE_CAN_YIELD,\n    0u,\n    ",
        stem,
        "_await_poll,\n    ",
        stem,
        "_await_error,\n    ",
        callback,
        ",\n",
    );
    put5(out, "    ", size, ",\n    ", align, "\n};\n\n");
}

/// The functions by which a task becomes an awaitable.
#[verifier::opaque]
pub open spec fn adapters_text(
    out: Seq<char>,
    task: TaskView,
    state: TaskView,
    stem: Seq<char>,
    task_type: Seq<char>,
    poll_name: Seq<char>,
    drop_name: Seq<char>,
    return_type: Seq<char>,
) -> Seq<char> {
    let out = out
        + "static cr_poll_status "@
        + stem
        + "_await_poll(void *state, const cr_poll_context *poll_context, void *out_value) {\n    if (state == NULL) return CR_POLL_ERROR;\n    "@
        + task_type
        + " *task = ("@
        + task_type
        + " *)state;\n    cr_poll_status status = "@
        + poll_name
        + "(task, poll_context);\n"@;
    let out = if return_type != "void"@ {
        let result = c_source::path(task, LogicalFieldId::Result);
        let yielded = c_source::path(task, LogicalFieldId::Yielded);
        let out = out
            + "    if (out_value != NULL && status == CR_POLL_READY) *("@
            + return_type
            + " *)out_value = "@
            + result
            + ";\n    if (out_value != NULL && status == CR_POLL_YIELDED) *("@
            + return_type
            + " *)out_value = "@
            + yielded
            + ";\n"@;
        out
    } else {
        out
    };
    let out = out
        + "    return status;\n}\n\nstatic const cr_error "@
        + stem
        + "_await_null_error = {1006, \"async task allocation failed\"};\n"@;
    let error = c_source::path(state, LogicalFieldId::Error);
    let out = out
        + "static const cr_error *"@
        + stem
        + "_await_error(const void *state) { return state != NULL ? &"@
        + error
        + " : &"@
        + stem
        + "_await_null_error; }\n"@;
    let out = out
        + "static void "@
        + stem
        + "_await_drop(void *state) { "@
        + drop_name
        + "(("@
        + task_type
        + " *)state); }\n"@;
    let out = out
        + "static void "@
        + stem
        + "_await_destroy(void *state) { "@
        + stem
        + "_destroy(("@
        + task_type
        + " *)state); }\n"@;
    let size = if return_type != "void"@ {
        "sizeof("@ + return_type + ")"@
    } else {
        "0u"@
    };
    let align = if return_type != "void"@ {
        "_Alignof("@ + return_type + ")"@
    } else {
        "0u"@
    };
    let borrowed = stem + "_borrowed_awaitable_vtable"@;
    let owning = stem + "_owning_awaitable_vtable"@;
    let dropping = stem + "_await_drop"@;
    let destroying = stem + "_await_destroy"@;
    let out = awaitable_table_text(out, borrowed, stem, dropping, size, align);
    let out = awaitable_table_text(out, owning, stem, destroying, size, align);
    let out = out
        + "cr_awaitable "@
        + stem
        + "_as_awaitable("@
        + task_type
        + " *task) {\n    return (cr_awaitable){task, &"@
        + borrowed
        + "};\n}\n\n"@;
    let out = out
        + "cr_awaitable "@
        + stem
        + "_into_awaitable("@
        + task_type
        + " *task) {\n    return (cr_awaitable){task, &"@
        + owning
        + "};\n}\n\n"@;
    out
}

/// Appends the functions by which a task becomes an awaitable.
pub fn write_adapters(
    out: &mut String,
    task: &TaskContext<'_>,
    state: &TaskContext<'_>,
    stem: &str,
    task_type: &str,
    poll_name: &str,
    drop_name: &str,
    return_type: &str,
)
    requires
        c_source::placed(state@, LogicalFieldId::Error),
        return_type@ != "void"@ ==> c_runtime_text::values_placed(task@),
    ensures
        final(out)@ == adapters_text(
            old(out)@,
            task@,
            state@,
            stem@,
            task_type@,
            poll_name@,
            drop_name@,
            return_type@,
        ),
{
    proof {
        reveal(adapters_text);
    }
    put9(
        out,
        "static cr_poll_status ",
        stem,
        "_await_poll(void *state, const cr_poll_context *poll_context, void *out_value) {\n    if (state == NULL) return CR_POLL_ERROR;\n    ",
        task_type,
        " *task = (",
        task_type,
        " *)state;\n    cr_poll_status status = ",
        poll_name,
        "(task, poll_context);\n",
    );
    if !str_eq(return_type, "void") {
        let result = required_access(task, LogicalFieldId::Result);
        let yielded = required_access(task, LogicalFieldId::Yielded);
        put9(
            out,
            "    if (out_value != NULL && status == CR_POLL_READY) *(",
            return_type,
            " *)out_value = ",
            result.as_str(),
            ";\n    if (out_value != NULL && status == CR_POLL_YIELDED) *(",
            return_type,
            " *)out_value = ",
            yielded.as_str(),
            ";\n",
        );
    }
    put3(
        out,
        "    return status;\n}\n\nstatic const cr_error ",
        stem,
        "_await_null_error = {1006, \"async task allocation failed\"};\n",
    );
    let error = required_access(state, LogicalFieldId::Error);
    put7(
        out,
        "static const cr_error *",
        stem,
        "_await_error(const void *state) { return state != NULL ? &",
        error.as_str(),
        " : &",
        stem,
        "_await_null_error; }\n",
    );
    put7(
        out,
        "static void ",
        stem,
        "_await_drop(void *state) { ",
        drop_name,
        "((",
        task_type,
        " *)state); }\n",
    );
    put7(
        out,
        "static void ",
        stem,
        "_await_destroy(void *state) { ",
        stem,
        "_destroy((",
        task_type,
        " *)state); }\n",
    );
    let size = if !str_eq(return_type, "void") {
        concat3("sizeof(", return_type, ")")
    } else {
        copied("0u")
    };
    let align = if !str_eq(return_type, "void") {
        concat3("_Alignof(", return_type, ")")
    } else {
        copied("0u")
    };
    let borrowed = concat2(stem, "_borrowed_awaitable_vtable");
    let owning = concat2(stem, "_owning_awaitable_vtable");
    let dropping = concat2(stem, "_await_drop");
    let destroying = concat2(stem, "_await_destroy");
    write_awaitable_table(
        out,
        borrowed.as_str(),
        stem,
        dropping.as_str(),
        size.as_str(),
        align.as_str(),
    );
    write_awaitable_table(
        out,
        owning.as_str(),
        stem,
        destroying.as_str(),
        size.as_str(),
        align.as_str(),
    );
    put7(
        out,
        "cr_awaitable ",
        stem,
        "_as_awaitable(",
        task_type,
        " *task) {\n    return (cr_awaitable){task, &",
        borrowed.as_str(),
        "};\n}\n\n",
    );
    put7(
        out,
        "cr_awaitable ",
        stem,
        "_into_awaitable(",
        task_type,
        " *task) {\n    return (cr_awaitable){task, &",
        owning.as_str(),
        "};\n}\n\n",
    );
}

/// The declarations of a callee.
pub open spec fn prototypes_text(
    out: Seq<char>,
    stem: Seq<char>,
    task_type: Seq<char>,
    result_type: Seq<char>,
    parameters: Seq<char>,
    internal: bool,
    visible: bool,
    heap: bool,
    accessed: bool,
) -> Seq<char> {
    let linkage = if internal {
        "static "@
    } else {
        ""@
    };
    let comma = if parameters == ""@ {
        ""@
    } else {
        ", "@
    };
    let out = out + "typedef struct "@ + task_type + " "@ + task_type + ";\n"@;
    let out = if visible {
        let out = out
            + linkage
            + "void "@
            + stem
            + "_init("@
            + task_type
            + " *task"@
            + comma
            + parameters
            + ");\n"@;
        let out = out + linkage + "void "@ + stem + "_drop("@ + task_type + " *task);\n"@;
        out
    } else {
        out
    };
    let out = if heap {
        let out = out
            + linkage
            + task_type
            + " *"@
            + stem
            + "_create("@
            + parameters
            + comma
            + "cr_error *out_error);\n"@;
        out
    } else {
        out
    };
    let out = out
        + linkage
        + "cr_poll_status "@
        + stem
        + "_poll("@
        + task_type
        + " *task, const cr_poll_context *poll_context);\n"@;
    let out = if heap {
        let out = out + linkage + "void "@ + stem + "_destroy("@ + task_type + " *task);\n"@;
        out
    } else {
        out
    };
    let out = if accessed && result_type != "void"@ {
        let out = out
            + linkage
            + "const "@
            + result_type
            + " *"@
            + stem
            + "_result(const "@
            + task_type
            + " *task);\n"@;
        let out = out
            + linkage
            + "const "@
            + result_type
            + " *"@
            + stem
            + "_yielded(const "@
            + task_type
            + " *task);\n"@;
        out
    } else {
        out
    };
    let out = if accessed {
        let out = out
            + linkage
            + "const cr_error *"@
            + stem
            + "_error(const "@
            + task_type
            + " *task);\n"@;
        out
    } else {
        out
    };
    let out = if !internal {
        let out = out
            + linkage
            + "cr_awaitable "@
            + stem
            + "_as_awaitable("@
            + task_type
            + " *task);\n"@;
        let out = out
            + linkage
            + "cr_awaitable "@
            + stem
            + "_into_awaitable("@
            + task_type
            + " *task);\n\n"@;
        out
    } else {
        out
    };
    out
}

/// Appends the declarations of a callee.
pub fn write_prototypes(
    out: &mut String,
    stem: &str,
    task_type: &str,
    result_type: &str,
    parameters: &str,
    internal: bool,
    visible: bool,
    heap: bool,
    accessed: bool,
)
    ensures
        final(out)@ == prototypes_text(
            old(out)@,
            stem@,
            task_type@,
            result_type@,
            parameters@,
            internal,
            visible,
            heap,
            accessed,
        ),
{
    let linkage = if internal {
        "static "
    } else {
        ""
    };
    let comma = if str_eq(parameters, "") {
        ""
    } else {
        ", "
    };
    put5(out, "typedef struct ", task_type, " ", task_type, ";\n");
    if visible {
        put9(out, linkage, "void ", stem, "_init(", task_type, " *task", comma, parameters, ");\n");
        put6(out, linkage, "void ", stem, "_drop(", task_type, " *task);\n");
    }
    if heap {
        put8(
            out,
            linkage,
            task_type,
            " *",
            stem,
            "_create(",
            parameters,
            comma,
            "cr_error *out_error);\n",
        );
    }
    put6(
        out,
        linkage,
        "cr_poll_status ",
        stem,
        "_poll(",
        task_type,
        " *task, const cr_poll_context *poll_context);\n",
    );
    if heap {
        put6(out, linkage, "void ", stem, "_destroy(", task_type, " *task);\n");
    }
    if accessed && !str_eq(result_type, "void") {
        put8(
            out,
            linkage,
            "const ",
            result_type,
            " *",
            stem,
            "_result(const ",
            task_type,
            " *task);\n",
        );
        put8(
            out,
            linkage,
            "const ",
            result_type,
            " *",
            stem,
            "_yielded(const ",
            task_type,
            " *task);\n",
        );
    }
    if accessed {
        put6(out, linkage, "const cr_error *", stem, "_error(const ", task_type, " *task);\n");
    }
    if !internal {
        put6(out, linkage, "cr_awaitable ", stem, "_as_awaitable(", task_type, " *task);\n");
        put6(out, linkage, "cr_awaitable ", stem, "_into_awaitable(", task_type, " *task);\n\n");
    }
}

/// C code that gives up the task that a binding holds.
pub open spec fn binding_release_text(
    out: Seq<char>,
    task: TaskView,
    declaration: DeclarationId,
    stem: Seq<char>,
    embedded: bool,
) -> Seq<char> {
    let value = c_source::path(task, LogicalFieldId::Lifted(declaration));
    let active = c_source::path(task, LogicalFieldId::BindingActive(declaration));
    let generation = c_source::path(task, LogicalFieldId::BindingGeneration(declaration));
    let out = out + "    if ("@ + active + ") {\n"@;
    let out = if embedded {
        let out = out + "        "@ + stem + "_drop(&"@ + value + ");\n"@;
        out
    } else {
        let out = out
            + "        "@
            + stem
            + "_destroy("@
            + value
            + ");\n        "@
            + value
            + " = NULL;\n"@;
        out
    };
    let out = out + "        "@ + active + " = false;\n    }\n    "@ + generation + "++;\n"@;
    out
}

/// Appends C code that gives up the task that a binding holds.
pub fn write_binding_release(
    out: &mut String,
    task: &TaskContext<'_>,
    declaration: DeclarationId,
    stem: &str,
    embedded: bool,
)
    requires
        binding_placed(task@, declaration),
    ensures
        final(out)@ == binding_release_text(old(out)@, task@, declaration, stem@, embedded),
{
    let value = required_access(task, LogicalFieldId::Lifted(declaration));
    let active = required_access(task, LogicalFieldId::BindingActive(declaration));
    let generation = required_access(task, LogicalFieldId::BindingGeneration(declaration));
    put3(out, "    if (", active.as_str(), ") {\n");
    if embedded {
        put5(out, "        ", stem, "_drop(&", value.as_str(), ");\n");
    } else {
        put7(
            out,
            "        ",
            stem,
            "_destroy(",
            value.as_str(),
            ");\n        ",
            value.as_str(),
            " = NULL;\n",
        );
    }
    put5(out, "        ", active.as_str(), " = false;\n    }\n    ", generation.as_str(), "++;\n");
}

/// C code that starts the task of a binding.
pub open spec fn binding_init_text(
    out: Seq<char>,
    task: TaskView,
    declaration: DeclarationId,
    number: Seq<char>,
    stem: Seq<char>,
    embedded: bool,
    arguments: Seq<char>,
) -> Seq<char> {
    let value = c_source::path(task, LogicalFieldId::Lifted(declaration));
    let error = c_source::path(task, LogicalFieldId::Error);
    let cleanups = c_source::path(task, LogicalFieldId::Cleanups);
    let status = c_source::path(task, LogicalFieldId::Status);
    let comma = if arguments == ""@ {
        ""@
    } else {
        ", "@
    };
    let out = if embedded {
        let out = out + "    "@ + stem + "_init(&"@ + value + comma + arguments + ");\n"@;
        out
    } else {
        let create_error = "cr_binding_"@ + number + "_create_error"@;
        let out = out + "    cr_error "@ + create_error + " = {0, NULL};\n"@;
        let out = out
            + "    "@
            + value
            + " = "@
            + stem
            + "_create("@
            + arguments
            + comma
            + "&"@
            + create_error;
        let out = out + ");\n"@;
        let out = out
            + "    if ("@
            + value
            + " == NULL) {\n        "@
            + error
            + " = "@
            + create_error
            + ".code != 0 ? "@
            + create_error
            + " : (cr_error){1006, \"async task allocation failed\"};\n"@;
        let out = out
            + "        cr_cleanup_run_all(&"@
            + cleanups
            + ");\n        "@
            + status
            + " = CR_POLL_ERROR;\n        return "@
            + status
            + ";\n    }\n"@;
        out
    };
    out
}

/// Appends C code that starts the task of a binding.
pub fn write_binding_init(
    out: &mut String,
    task: &TaskContext<'_>,
    declaration: DeclarationId,
    number: &str,
    stem: &str,
    embedded: bool,
    arguments: &str,
)
    requires
        c_runtime_text::header_placed(task@),
        binding_placed(task@, declaration),
    ensures
        final(out)@ == binding_init_text(
            old(out)@,
            task@,
            declaration,
            number@,
            stem@,
            embedded,
            arguments@,
        ),
{
    let value = required_access(task, LogicalFieldId::Lifted(declaration));
    let error = required_access(task, LogicalFieldId::Error);
    let cleanups = required_access(task, LogicalFieldId::Cleanups);
    let status = required_access(task, LogicalFieldId::Status);
    let comma = if str_eq(arguments, "") {
        ""
    } else {
        ", "
    };
    if embedded {
        put7(out, "    ", stem, "_init(&", value.as_str(), comma, arguments, ");\n");
    } else {
        let create_error = concat3("cr_binding_", number, "_create_error");
        put3(out, "    cr_error ", create_error.as_str(), " = {0, NULL};\n");
        put9(
            out,
            "    ",
            value.as_str(),
            " = ",
            stem,
            "_create(",
            arguments,
            comma,
            "&",
            create_error.as_str(),
        );
        put(out, ");\n");
        put9(
            out,
            "    if (",
            value.as_str(),
            " == NULL) {\n        ",
            error.as_str(),
            " = ",
            create_error.as_str(),
            ".code != 0 ? ",
            create_error.as_str(),
            " : (cr_error){1006, \"async task allocation failed\"};\n",
        );
        put7(
            out,
            "        cr_cleanup_run_all(&",
            cleanups.as_str(),
            ");\n        ",
            status.as_str(),
            " = CR_POLL_ERROR;\n        return ",
            status.as_str(),
            ";\n    }\n",
        );
    }
}

/// C code that registers the cleanup of a binding.
pub open spec fn binding_register_text(
    out: Seq<char>,
    task: TaskView,
    declaration: DeclarationId,
    number: Seq<char>,
    scope: Seq<char>,
    stem: Seq<char>,
    field: Seq<char>,
) -> Seq<char> {
    let value = c_source::path(task, LogicalFieldId::Lifted(declaration));
    let active = c_source::path(task, LogicalFieldId::BindingActive(declaration));
    let generation = c_source::path(task, LogicalFieldId::BindingGeneration(declaration));
    let cleanups = c_source::path(task, LogicalFieldId::Cleanups);
    let payload = stem + "_"@ + field + "_cleanup_payload"@;
    let helper = stem + "_"@ + field + "_cleanup"@;
    let captured = "cr_binding_payload_"@ + number;
    let out = out + "    "@ + active + " = true;\n"@;
    let out = out
        + "    "@
        + payload
        + " "@
        + captured
        + " = {&"@
        + value
        + ", &"@
        + active
        + ", &"@;
    let out = out + generation + ", "@ + generation + "};\n"@;
    let out = out
        + "    if (!cr_cleanup_push(&"@
        + cleanups
        + ", "@
        + scope
        + "u, "@
        + helper
        + ", &"@
        + captured
        + ", sizeof("@;
    let out = out + captured + "))) {\n"@;
    let out = out + "        "@ + helper + "(&"@ + captured + ");\n"@;
    let out = c_runtime_text::async_error_at_text(out, task, "1002"@, "cleanup allocation failed"@, "        "@);
    let out = out + "    }\n"@;
    out
}

/// Appends C code that registers the cleanup of a binding.
pub fn write_binding_register(
    out: &mut String,
    task: &TaskContext<'_>,
    declaration: DeclarationId,
    number: &str,
    scope: &str,
    stem: &str,
    field: &str,
)
    requires
        c_runtime_text::header_placed(task@),
        binding_placed(task@, declaration),
    ensures
        final(out)@ == binding_register_text(
            old(out)@,
            task@,
            declaration,
            number@,
            scope@,
            stem@,
            field@,
        ),
{
    let value = required_access(task, LogicalFieldId::Lifted(declaration));
    let active = required_access(task, LogicalFieldId::BindingActive(declaration));
    let generation = required_access(task, LogicalFieldId::BindingGeneration(declaration));
    let cleanups = required_access(task, LogicalFieldId::Cleanups);
    let payload = concat4(stem, "_", field, "_cleanup_payload");
    let helper = concat4(stem, "_", field, "_cleanup");
    let captured = concat2("cr_binding_payload_", number);
    put3(out, "    ", active.as_str(), " = true;\n");
    put9(
        out,
        "    ",
        payload.as_str(),
        " ",
        captured.as_str(),
        " = {&",
        value.as_str(),
        ", &",
        active.as_str(),
        ", &",
    );
    put4(out, generation.as_str(), ", ", generation.as_str(), "};\n");
    put9(
        out,
        "    if (!cr_cleanup_push(&",
        cleanups.as_str(),
        ", ",
        scope,
        "u, ",
        helper.as_str(),
        ", &",
        captured.as_str(),
        ", sizeof(",
    );
    put2(out, captured.as_str(), "))) {\n");
    put5(out, "        ", helper.as_str(), "(&", captured.as_str(), ");\n");
    write_async_error_at(out, task, "1002", "cleanup allocation failed", "        ");
    put(out, "    }\n");
}

/// C code that binds an awaitable.
pub open spec fn awaitable_binding_text(
    out: Seq<char>,
    task: TaskView,
    declaration: DeclarationId,
    initializer: Seq<char>,
    valued: bool,
    expected: Seq<char>,
) -> Seq<char> {
    let value = c_source::path(task, LogicalFieldId::Lifted(declaration));
    let active = c_source::path(task, LogicalFieldId::BindingActive(declaration));
    let generation = c_source::path(task, LogicalFieldId::BindingGeneration(declaration));
    let out = out
        + "    if ("@
        + active
        + ") { "@
        + value
        + ".vtable->drop("@
        + value
        + ".state); "@
        + active
        + " = false; }\n"@;
    let out = out + "    "@ + generation + "++;\n    "@ + value + " = "@ + initializer + ";\n"@;
    let out = c_runtime_text::activation_validation_text(out, task, value, valued, expected, "    "@, true);
    out
}

/// Appends C code that binds an awaitable.
pub fn write_awaitable_binding(
    out: &mut String,
    task: &TaskContext<'_>,
    declaration: DeclarationId,
    initializer: &str,
    valued: bool,
    expected: &str,
)
    requires
        c_runtime_text::header_placed(task@),
        binding_placed(task@, declaration),
    ensures
        final(out)@ == awaitable_binding_text(
            old(out)@,
            task@,
            declaration,
            initializer@,
            valued,
            expected@,
        ),
{
    let value = required_access(task, LogicalFieldId::Lifted(declaration));
    let active = required_access(task, LogicalFieldId::BindingActive(declaration));
    let generation = required_access(task, LogicalFieldId::BindingGeneration(declaration));
    put9(
        out,
        "    if (",
        active.as_str(),
        ") { ",
        value.as_str(),
        ".vtable->drop(",
        value.as_str(),
        ".state); ",
        active.as_str(),
        " = false; }\n",
    );
    put7(out, "    ", generation.as_str(), "++;\n    ", value.as_str(), " = ", initializer, ";\n");
    write_activation_validation(out, task, value.as_str(), valued, expected, "    ", true);
}

/// C code that registers a deferred call.
pub open spec fn cleanup_push_text(
    out: Seq<char>,
    task: TaskView,
    payload: Seq<char>,
    scope: Seq<char>,
    run_function: Seq<char>,
) -> Seq<char> {
    let cleanups = c_source::path(task, LogicalFieldId::Cleanups);
    let error = c_source::path(task, LogicalFieldId::Error);
    let status = c_source::path(task, LogicalFieldId::Status);
    let out = out
        + "    if (!cr_cleanup_push(&"@
        + cleanups
        + ", "@
        + scope
        + "u, "@
        + run_function
        + ", &"@
        + payload
        + ", sizeof("@;
    let out = out + payload + "))) {\n"@;
    let out = out
        + "        "@
        + error
        + " = (cr_error){1002, \"cleanup allocation failed\"};\n        cr_cleanup_run_all(&"@
        + cleanups
        + ");\n        "@
        + status
        + " = CR_POLL_ERROR;\n        return "@
        + status
        + ";\n    }\n"@;
    out
}

/// Appends C code that registers a deferred call.
pub fn write_cleanup_push(
    out: &mut String,
    task: &TaskContext<'_>,
    payload: &str,
    scope: &str,
    run_function: &str,
)
    requires
        c_runtime_text::header_placed(task@),
    ensures
        final(out)@ == cleanup_push_text(old(out)@, task@, payload@, scope@, run_function@),
{
    let cleanups = required_access(task, LogicalFieldId::Cleanups);
    let error = required_access(task, LogicalFieldId::Error);
    let status = required_access(task, LogicalFieldId::Status);
    put9(
        out,
        "    if (!cr_cleanup_push(&",
        cleanups.as_str(),
        ", ",
        scope,
        "u, ",
        run_function,
        ", &",
        payload,
        ", sizeof(",
    );
    put2(out, payload, "))) {\n");
    put9(
        out,
        "        ",
        error.as_str(),
        " = (cr_error){1002, \"cleanup allocation failed\"};\n        cr_cleanup_run_all(&",
        cleanups.as_str(),
        ");\n        ",
        status.as_str(),
        " = CR_POLL_ERROR;\n        return ",
        status.as_str(),
        ";\n    }\n",
    );
}

/// C code that registers a deferred call of a plain function.
pub open spec fn plain_cleanup_push_text(
    out: Seq<char>,
    payload: Seq<char>,
    scope: Seq<char>,
    run_function: Seq<char>,
) -> Seq<char> {
    let out = out
        + "    if (!cr_cleanup_push(&cr_cleanups, "@
        + scope
        + "u, "@
        + run_function
        + ", &"@
        + payload
        + ", sizeof("@
        + payload
        + "))) {\n        cr_oom_abort();\n    }\n"@;
    out
}

/// Appends C code that registers a deferred call of a plain function.
pub fn write_plain_cleanup_push(out: &mut String, payload: &str, scope: &str, run_function: &str)
    ensures
        final(out)@ == plain_cleanup_push_text(old(out)@, payload@, scope@, run_function@),
{
    put9(
        out,
        "    if (!cr_cleanup_push(&cr_cleanups, ",
        scope,
        "u, ",
        run_function,
        ", &",
        payload,
        ", sizeof(",
        payload,
        "))) {\n        cr_oom_abort();\n    }\n",
    );
}

} // verus!
