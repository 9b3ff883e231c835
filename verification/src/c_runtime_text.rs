//! Pieces of C code that every generated function is made of.

use vstd::prelude::*;

use crate::c_source;
use crate::c_source::{required_access, TaskContext, TaskView};
use crate::context_layout::LogicalFieldId;
use crate::semantic::AwaitSlotId;
use crate::text::{concat2, put, put2, put3, put4, put6, put7, put8, put9};

verus! {

/// Whether the fields of every context have places.
pub open spec fn header_placed(task: TaskView) -> bool {
    &&& c_source::placed(task, LogicalFieldId::State)
    &&& c_source::placed(task, LogicalFieldId::Status)
    &&& c_source::placed(task, LogicalFieldId::Error)
    &&& c_source::placed(task, LogicalFieldId::Cleanups)
}

/// Whether the fields of every context that holds a value have places.
pub open spec fn values_placed(task: TaskView) -> bool {
    &&& header_placed(task)
    &&& c_source::placed(task, LogicalFieldId::Result)
    &&& c_source::placed(task, LogicalFieldId::Yielded)
}

/// Whether the fields of an awaitable have places.
pub open spec fn awaitable_placed(task: TaskView, slot: AwaitSlotId) -> bool {
    &&& c_source::placed(task, LogicalFieldId::Awaitable(slot))
    &&& c_source::placed(task, LogicalFieldId::AwaitableActive(slot))
}

/// C code that stops a build against another runtime.
pub open spec fn abi_guard_text(out: Seq<char>) -> Seq<char> {
    let out = out
        + "#if CR_RUNTIME_ABI_VERSION != 3u\n#error \"generated CR code requires runtime ABI version 3\"\n#endif\n\n"@;
    out
}

/// Appends C code that stops a build against another runtime.
pub fn write_abi_guard(out: &mut String)
    ensures
        final(out)@ == abi_guard_text(old(out)@),
{
    put(
        out,
        "#if CR_RUNTIME_ABI_VERSION != 3u\n#error \"generated CR code requires runtime ABI version 3\"\n#endif\n\n",
    );
}

/// C code that ends a task with an error.
pub open spec fn async_error_at_text(
    out: Seq<char>,
    task: TaskView,
    code: Seq<char>,
    message: Seq<char>,
    indent: Seq<char>,
) -> Seq<char> {
    let error = c_source::path(task, LogicalFieldId::Error);
    let cleanups = c_source::path(task, LogicalFieldId::Cleanups);
    let status = c_source::path(task, LogicalFieldId::Status);
    let out = out + indent + error + " = (cr_error){"@ + code + ", \""@ + message + "\"};\n"@;
    let out = out
        + indent
        + "cr_cleanup_run_all(&"@
        + cleanups
        + ");\n"@
        + indent
        + status
        + " = CR_POLL_ERROR;\n"@;
    let out = out + indent + "return "@ + status + ";\n"@;
    out
}

/// Appends C code that ends a task with an error.
pub fn write_async_error_at(
    out: &mut String,
    task: &TaskContext<'_>,
    code: &str,
    message: &str,
    indent: &str,
)
    requires
        header_placed(task@),
    ensures
        final(out)@ == async_error_at_text(old(out)@, task@, code@, message@, indent@),
{
    let error = required_access(task, LogicalFieldId::Error);
    let cleanups = required_access(task, LogicalFieldId::Cleanups);
    let status = required_access(task, LogicalFieldId::Status);
    put7(out, indent, error.as_str(), " = (cr_error){", code, ", \"", message, "\"};\n");
    put7(
        out,
        indent,
        "cr_cleanup_run_all(&",
        cleanups.as_str(),
        ");\n",
        indent,
        status.as_str(),
        " = CR_POLL_ERROR;\n",
    );
    put4(out, indent, "return ", status.as_str(), ";\n");
}

/// C code that rejects a state that a task can't have.
pub open spec fn invalid_state_text(out: Seq<char>, task: TaskView) -> Seq<char> {
    let error = c_source::path(task, LogicalFieldId::Error);
    let status = c_source::path(task, LogicalFieldId::Status);
    let out = out
        + "        "@
        + error
        + " = (cr_error){1001, \"invalid coroutine state\"};\n        "@
        + status
        + " = CR_POLL_ERROR;\n        return "@
        + status
        + ";\n"@;
    out
}

/// Appends C code that rejects a state that a task can't have.
pub fn write_invalid_state(out: &mut String, task: &TaskContext<'_>)
    requires
        header_placed(task@),
    ensures
        final(out)@ == invalid_state_text(old(out)@, task@),
{
    let error = required_access(task, LogicalFieldId::Error);
    let status = required_access(task, LogicalFieldId::Status);
    put7(
        out,
        "        ",
        error.as_str(),
        " = (cr_error){1001, \"invalid coroutine state\"};\n        ",
        status.as_str(),
        " = CR_POLL_ERROR;\n        return ",
        status.as_str(),
        ";\n",
    );
}

/// C code that gives up an awaitable that was refused.
pub open spec fn candidate_drop_text(
    out: Seq<char>,
    awaitable: Seq<char>,
    indent: Seq<char>,
    owned: bool,
) -> Seq<char> {
    let out = if owned {
        let out = out
            + indent
            + "if ("@
            + awaitable
            + ".vtable->drop != NULL) "@
            + awaitable
            + ".vtable->drop("@
            + awaitable
            + ".state);\n"@;
        out
    } else {
        out
    };
    out
}

/// Appends C code that gives up an awaitable that was refused.
pub fn write_candidate_drop(out: &mut String, awaitable: &str, indent: &str, owned: bool)
    ensures
        final(out)@ == candidate_drop_text(old(out)@, awaitable@, indent@, owned),
{
    if owned {
        put8(
            out,
            indent,
            "if (",
            awaitable,
            ".vtable->drop != NULL) ",
            awaitable,
            ".vtable->drop(",
            awaitable,
            ".state);\n",
        );
    }
}

/// C code that checks an awaitable before it is used: its interface, its callbacks, and the layout of its value.
#[verifier::opaque]
pub open spec fn activation_validation_text(
    out: Seq<char>,
    task: TaskView,
    awaitable: Seq<char>,
    valued: bool,
    expected: Seq<char>,
    indent: Seq<char>,
    owned: bool,
) -> Seq<char> {
    let deeper = indent + "    "@;
    let out = out
        + indent
        + "if ("@
        + awaitable
        + ".vtable == NULL || "@
        + awaitable
        + ".vtable->abi_version < CR_AWAITABLE_VTABLE_ABI_VERSION || "@
        + awaitable
        + ".vtable->struct_size < CR_AWAITABLE_VTABLE_DROP_PREFIX_SIZE) {\n"@;
    let out = async_error_at_text(out, task, "1102"@, "invalid awaitable ABI"@, deeper);
    let out = out
        + indent
        + "}\n"@
        + indent
        + "if ("@
        + awaitable
        + ".vtable->struct_size < CR_AWAITABLE_VTABLE_V1_MIN_SIZE) {\n"@;
    let out = candidate_drop_text(out, awaitable, deeper, owned);
    let out = async_error_at_text(out, task, "1102"@, "invalid awaitable ABI"@, deeper);
    let out = out
        + indent
        + "}\n"@
        + indent
        + "if ("@
        + awaitable
        + ".vtable->poll == NULL || "@
        + awaitable
        + ".vtable->drop == NULL) {\n"@;
    let out = candidate_drop_text(out, awaitable, deeper, owned);
    let out = async_error_at_text(out, task, "1103"@, "awaitable callback missing"@, deeper);
    let out = out + indent + "}\n"@;
    let out = if valued {
        let out = out
            + indent
            + "if ("@
            + awaitable
            + ".vtable->value_size != sizeof("@
            + expected
            + ") || "@
            + awaitable
            + ".vtable->value_align != _Alignof("@
            + expected;
        let out = out + ")) {\n"@;
        let out = candidate_drop_text(out, awaitable, deeper, owned);
        let out = async_error_at_text(
            out,
            task,
            "1105"@,
            "awaitable value layout mismatch"@,
            deeper,
        );
        let out = out + indent + "}\n"@;
        out
    } else {
        let out = out
            + indent
            + "if ("@
            + awaitable
            + ".vtable->value_size != 0u || "@
            + awaitable
            + ".vtable->value_align != 0u) {\n"@;
        let out = candidate_drop_text(out, awaitable, deeper, owned);
        let out = async_error_at_text(
            out,
            task,
            "1105"@,
            "void awaitable exposes a value layout"@,
            deeper,
        );
        let out = out + indent + "}\n"@;
        out
    };
    out
}

/// Appends C code that checks an awaitable before it is used.
pub fn write_activation_validation(
    out: &mut String,
    task: &TaskContext<'_>,
    awaitable: &str,
    valued: bool,
    expected: &str,
    indent: &str,
    owned: bool,
)
    requires
        header_placed(task@),
    ensures
        final(out)@ == activation_validation_text(
            old(out)@,
            task@,
            awaitable@,
            valued,
            expected@,
            indent@,
            owned,
        ),
{
    proof {
        reveal(activation_validation_text);
    }
    let deeper = concat2(indent, "    ");
    put8(
        out,
        indent,
        "if (",
        awaitable,
        ".vtable == NULL || ",
        awaitable,
        ".vtable->abi_version < CR_AWAITABLE_VTABLE_ABI_VERSION || ",
        awaitable,
        ".vtable->struct_size < CR_AWAITABLE_VTABLE_DROP_PREFIX_SIZE) {\n",
    );
    write_async_error_at(out, task, "1102", "invalid awaitable ABI", deeper.as_str());
    put6(
        out,
        indent,
        "}\n",
        indent,
        "if (",
        awaitable,
        ".vtable->struct_size < CR_AWAITABLE_VTABLE_V1_MIN_SIZE) {\n",
    );
    write_candidate_drop(out, awaitable, deeper.as_str(), owned);
    write_async_error_at(out, task, "1102", "invalid awaitable ABI", deeper.as_str());
    put8(
        out,
        indent,
        "}\n",
        indent,
        "if (",
        awaitable,
        ".vtable->poll == NULL || ",
        awaitable,
        ".vtable->drop == NULL) {\n",
    );
    write_candidate_drop(out, awaitable, deeper.as_str(), owned);
    write_async_error_at(out, task, "1103", "awaitable callback missing", deeper.as_str());
    put2(out, indent, "}\n");
    if valued {
        put9(
            out,
            indent,
            "if (",
            awaitable,
            ".vtable->value_size != sizeof(",
            expected,
            ") || ",
            awaitable,
            ".vtable->value_align != _Alignof(",
            expected,
        );
        put(out, ")) {\n");
        write_candidate_drop(out, awaitable, deeper.as_str(), owned);
        write_async_error_at(out, task, "1105", "awaitable value layout mismatch", deeper.as_str());
        put2(out, indent, "}\n");
    } else {
        put6(
            out,
            indent,
            "if (",
            awaitable,
            ".vtable->value_size != 0u || ",
            awaitable,
            ".vtable->value_align != 0u) {\n",
        );
        write_candidate_drop(out, awaitable, deeper.as_str(), owned);
        write_async_error_at(
            out,
            task,
            "1105",
            "void awaitable exposes a value layout",
            deeper.as_str(),
        );
        put2(out, indent, "}\n");
    }
}

/// C code that gives up the awaitable of a slot.
pub open spec fn await_release_text(
    out: Seq<char>,
    task: TaskView,
    slot: AwaitSlotId,
    indent: Seq<char>,
    owned: bool,
) -> Seq<char> {
    let awaitable = c_source::path(task, LogicalFieldId::Awaitable(slot));
    let active = c_source::path(task, LogicalFieldId::AwaitableActive(slot));
    let out = if owned {
        let out = out
            + indent
            + "if ("@
            + awaitable
            + ".vtable != NULL && "@
            + awaitable
            + ".vtable->drop != NULL) "@
            + awaitable
            + ".vtable->drop("@
            + awaitable;
        let out = out + ".state);\n"@;
        out
    } else {
        out
    };
    let out = out + indent + active + " = false;\n"@;
    out
}

/// Appends C code that gives up the awaitable of a slot.
pub fn write_await_release(
    out: &mut String,
    task: &TaskContext<'_>,
    slot: AwaitSlotId,
    indent: &str,
    owned: bool,
)
    requires
        awaitable_placed(task@, slot),
    ensures
        final(out)@ == await_release_text(old(out)@, task@, slot, indent@, owned),
{
    let awaitable = required_access(task, LogicalFieldId::Awaitable(slot));
    let active = required_access(task, LogicalFieldId::AwaitableActive(slot));
    if owned {
        put9(
            out,
            indent,
            "if (",
            awaitable.as_str(),
            ".vtable != NULL && ",
            awaitable.as_str(),
            ".vtable->drop != NULL) ",
            awaitable.as_str(),
            ".vtable->drop(",
            awaitable.as_str(),
        );
        put(out, ".state);\n");
    }
    put3(out, indent, active.as_str(), " = false;\n");
}

} // verus!
