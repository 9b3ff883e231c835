//! Generated C that waits for awaitables of any make, as statements.

use vstd::prelude::*;

use crate::c_meaning;
use crate::c_meaning::{Place, Statement, Test, Value};
use crate::c_source;
use crate::c_source::TaskView;
use crate::context_layout::LogicalFieldId;
use crate::semantic::{AwaitSlotId, DeclarationId};
use crate::wait_code;

verus! {

/// What a suspension knows of an awaitable: how it is written.
pub open spec fn awaitable_text(task: TaskView, slot: AwaitSlotId) -> Seq<char> {
    c_source::path(task, LogicalFieldId::Awaitable(slot))
}

/// The table of an awaitable.
pub open spec fn table(awaitable: Seq<char>) -> Value {
    Value::Read(Place::Local(awaitable + ".vtable"@))
}

/// A function of an awaitable.
pub open spec fn callback(awaitable: Seq<char>, name: Seq<char>) -> Value {
    Value::Read(Place::Local(awaitable + ".vtable->"@ + name))
}

/// Code that drops an awaitable that was refused, if the task owns it.
pub open spec fn discard(awaitable: Seq<char>, owned: bool) -> Statement {
    if owned {
        Statement::CallIf(
            Test::Isnt(callback(awaitable, "drop"@), "NULL"@),
            awaitable + ".vtable->drop"@,
            Value::Text(awaitable + ".state"@),
            ""@,
        )
    } else {
        Statement::Nothing
    }
}

/// Code that refuses an awaitable if a condition holds.
pub open spec fn refuse(
    test: Test,
    awaitable: Seq<char>,
    owned: bool,
    code: Seq<char>,
    message: Seq<char>,
) -> Statement {
    c_meaning::when(
        test,
        c_meaning::both(discard(awaitable, owned), wait_code::fail(code, message)),
    )
}

/// The condition that an awaitable has no table, or one of another make.
pub open spec fn foreign(awaitable: Seq<char>) -> Test {
    Test::Either(
        Box::new(
            Test::Either(
                Box::new(Test::Is(table(awaitable), "NULL"@)),
                Box::new(
                    Test::Source(
                        awaitable + ".vtable->abi_version < CR_AWAITABLE_VTABLE_ABI_VERSION"@,
                    ),
                ),
            ),
        ),
        Box::new(
            Test::Source(
                awaitable + ".vtable->struct_size < CR_AWAITABLE_VTABLE_DROP_PREFIX_SIZE"@,
            ),
        ),
    )
}

/// The condition that the table of an awaitable is too short.
pub open spec fn short(awaitable: Seq<char>) -> Test {
    Test::Source(awaitable + ".vtable->struct_size < CR_AWAITABLE_VTABLE_V1_MIN_SIZE"@)
}

/// The condition that an awaitable lacks a function.
pub open spec fn incomplete(awaitable: Seq<char>) -> Test {
    Test::Either(
        Box::new(Test::Is(callback(awaitable, "poll"@), "NULL"@)),
        Box::new(Test::Is(callback(awaitable, "drop"@), "NULL"@)),
    )
}

/// The condition that the value of an awaitable isn't laid out as expected.
pub open spec fn misfit(awaitable: Seq<char>, valued: bool, expected: Seq<char>) -> Test {
    if valued {
        Test::Source(
            awaitable + ".vtable->value_size != sizeof("@ + expected + ") || "@ + awaitable
                + ".vtable->value_align != _Alignof("@ + expected + ")"@,
        )
    } else {
        Test::Source(
            awaitable + ".vtable->value_size != 0u || "@ + awaitable
                + ".vtable->value_align != 0u"@,
        )
    }
}

/// The message for a value that isn't laid out as expected.
pub open spec fn misfit_message(valued: bool) -> Seq<char> {
    if valued {
        "awaitable value layout mismatch"@
    } else {
        "void awaitable exposes a value layout"@
    }
}

/// Code that checks an awaitable before it is used.
pub open spec fn check_code(
    awaitable: Seq<char>,
    valued: bool,
    expected: Seq<char>,
    owned: bool,
) -> Statement {
    c_meaning::both(
        refuse(foreign(awaitable), awaitable, false, "1102"@, "invalid awaitable ABI"@),
        c_meaning::both(
            refuse(short(awaitable), awaitable, owned, "1102"@, "invalid awaitable ABI"@),
            c_meaning::both(
                refuse(incomplete(awaitable), awaitable, owned, "1103"@, "awaitable callback missing"@),
                refuse(
                    misfit(awaitable, valued, expected),
                    awaitable,
                    owned,
                    "1105"@,
                    misfit_message(valued),
                ),
            ),
        ),
    )
}

/// Code that gives up the awaitable of a slot.
pub open spec fn let_go(awaitable: Seq<char>, slot: AwaitSlotId, owned: bool) -> Statement {
    let idle = Statement::Store(
        Place::Own(LogicalFieldId::AwaitableActive(slot)),
        Value::Text("false"@),
    );
    if owned {
        c_meaning::both(
            Statement::CallIf(
                Test::Both(
                    Box::new(Test::Isnt(table(awaitable), "NULL"@)),
                    Box::new(Test::Isnt(callback(awaitable, "drop"@), "NULL"@)),
                ),
                awaitable + ".vtable->drop"@,
                Value::Text(awaitable + ".state"@),
                ""@,
            ),
            idle,
        )
    } else {
        idle
    }
}

/// Code that takes an awaitable unless one is active.
pub open spec fn take_code(
    awaitable: Seq<char>,
    slot: AwaitSlotId,
    operand: Seq<char>,
    bound: Option<DeclarationId>,
    valued: bool,
    expected: Seq<char>,
) -> Statement {
    c_meaning::when(
        Test::Not(Value::Read(Place::Own(LogicalFieldId::AwaitableActive(slot)))),
        c_meaning::both(
            match bound {
                Some(declaration) => wait_code::unless_active(
                    LogicalFieldId::BindingActive(declaration),
                ),
                None => Statement::Nothing,
            },
            c_meaning::both(
                Statement::Store(Place::Own(LogicalFieldId::Awaitable(slot)), Value::Text(operand)),
                c_meaning::both(
                    check_code(awaitable, valued, expected, bound is None),
                    Statement::Store(
                        Place::Own(LogicalFieldId::AwaitableActive(slot)),
                        Value::Text("true"@),
                    ),
                ),
            ),
        ),
    )
}

/// The condition that an awaitable needs what no caller has.
pub open spec fn unknown_needs(awaitable: Seq<char>) -> Test {
    Test::Source(
        "("@ + awaitable
            + ".vtable->required_context_capabilities & ~CR_POLL_KNOWN_CAPABILITIES) != 0u"@,
    )
}

/// The condition that an awaitable needs what the caller lacks.
pub open spec fn unmet_needs(awaitable: Seq<char>) -> Test {
    Test::Source(
        "("@ + awaitable
            + ".vtable->required_context_capabilities & ~(poll_context != NULL ? poll_context->available_capabilities : 0u)) != 0u"@,
    )
}

/// Code that remembers where to go on and checks what the awaitable needs.
pub open spec fn prepare_code(
    awaitable: Seq<char>,
    slot: AwaitSlotId,
    state: Seq<char>,
    owned: bool,
) -> Statement {
    c_meaning::both(
        Statement::Store(Place::Own(LogicalFieldId::State), Value::Text(state + "u"@)),
        c_meaning::both(
            c_meaning::when(
                unknown_needs(awaitable),
                c_meaning::both(
                    let_go(awaitable, slot, owned),
                    wait_code::fail("1107"@, "unsupported poll capability"@),
                ),
            ),
            c_meaning::when(
                unmet_needs(awaitable),
                c_meaning::both(
                    let_go(awaitable, slot, owned),
                    wait_code::fail("1104"@, "missing poll capability"@),
                ),
            ),
        ),
    )
}

/// Code that polls the awaitable; its value goes where `pointer` points.
pub open spec fn ask_code(awaitable: Seq<char>, name: Seq<char>, pointer: Seq<char>) -> Statement {
    Statement::Result(
        "cr_poll_status "@ + name,
        name,
        awaitable + ".vtable->poll"@,
        Value::Text(awaitable + ".state"@),
        ", poll_context, "@ + pointer,
    )
}

/// The variable for the error of an awaitable.
pub open spec fn error_name(number: Seq<char>) -> Seq<char> {
    "cr_await_"@ + number + "_error"@
}

/// The error of an awaitable.
pub open spec fn error_of(awaitable: Seq<char>) -> Value {
    Value::Read(
        Place::Local(
            awaitable + ".vtable->error != NULL ? "@ + awaitable + ".vtable->error("@ + awaitable
                + ".state) : NULL"@,
        ),
    )
}

/// What is done when the awaitable is ready.
pub open spec fn arrived_code(
    awaitable: Seq<char>,
    slot: AwaitSlotId,
    owned: bool,
    target: Seq<char>,
) -> Statement {
    c_meaning::both(let_go(awaitable, slot, owned), Statement::Jump(target))
}

/// What is done when the awaitable has failed.
pub open spec fn failed_code(
    awaitable: Seq<char>,
    slot: AwaitSlotId,
    owned: bool,
    detail: Seq<char>,
) -> Statement {
    c_meaning::both(
        Statement::Declare("const cr_error *"@ + detail, detail, error_of(awaitable)),
        c_meaning::both(
            Statement::Store(
                Place::Own(LogicalFieldId::Error),
                Value::Pointed(
                    detail,
                    "CR_ERROR_MISSING_CHILD_ERROR"@,
                    "awaitable error without details"@,
                ),
            ),
            c_meaning::both(let_go(awaitable, slot, owned), wait_code::give_up("CR_POLL_ERROR"@)),
        ),
    )
}

/// What is done when the awaitable was canceled.
pub open spec fn stopped_code(awaitable: Seq<char>, slot: AwaitSlotId, owned: bool) -> Statement {
    c_meaning::both(let_go(awaitable, slot, owned), wait_code::give_up("CR_POLL_CANCELED"@))
}

/// What is done when the awaitable has yielded.
pub open spec fn gave_code(
    awaitable: Seq<char>,
    slot: AwaitSlotId,
    owned: bool,
    yields: bool,
) -> Statement {
    if yields {
        c_meaning::both(
            Statement::Store(
                Place::Own(LogicalFieldId::Yielded),
                Value::Read(Place::Own(LogicalFieldId::AwaitResult(slot))),
            ),
            wait_code::end_with("CR_POLL_YIELDED"@),
        )
    } else {
        c_meaning::both(
            let_go(awaitable, slot, owned),
            wait_code::fail("1005"@, "yielded awaitable has an incompatible value type"@),
        )
    }
}

/// What is done with a status that no awaitable has.
pub open spec fn odd_code(awaitable: Seq<char>, slot: AwaitSlotId, owned: bool) -> Statement {
    c_meaning::both(
        let_go(awaitable, slot, owned),
        wait_code::fail("1106"@, "invalid awaitable poll status"@),
    )
}

/// What is done with the status of the awaitable.
pub open spec fn answer_code(
    awaitable: Seq<char>,
    slot: AwaitSlotId,
    name: Seq<char>,
    detail: Seq<char>,
    target: Seq<char>,
    owned: bool,
    yields: bool,
) -> Statement {
    c_meaning::both(
        Statement::ReturnIf(
            wait_code::polled(name, "CR_POLL_PENDING"@),
            Value::Read(Place::Local(name)),
        ),
        c_meaning::both(
            c_meaning::when(
                wait_code::polled(name, "CR_POLL_READY"@),
                arrived_code(awaitable, slot, owned, target),
            ),
            c_meaning::both(
                c_meaning::when(
                    wait_code::polled(name, "CR_POLL_ERROR"@),
                    failed_code(awaitable, slot, owned, detail),
                ),
                c_meaning::both(
                    c_meaning::when(
                        wait_code::polled(name, "CR_POLL_CANCELED"@),
                        stopped_code(awaitable, slot, owned),
                    ),
                    c_meaning::both(
                        c_meaning::when(
                            wait_code::polled(name, "CR_POLL_YIELDED"@),
                            gave_code(awaitable, slot, owned, yields),
                        ),
                        odd_code(awaitable, slot, owned),
                    ),
                ),
            ),
        ),
    )
}

} // verus!
