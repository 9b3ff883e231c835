//! What waiting for awaitables of any make does when it runs.

use vstd::prelude::*;

use crate::awaitable_code;
use crate::c_meaning;
use crate::c_meaning::{Called, Datum, Exit, Machine, Place, Run, Value, World};
use crate::context_layout::LogicalFieldId;
use crate::semantic::{AwaitSlotId, DeclarationId};
use crate::wait_laws;

verus! {

/// The call that drops an awaitable.
pub open spec fn drop_call(awaitable: Seq<char>) -> Called {
    Called {
        function: awaitable + ".vtable->drop"@,
        subject: Datum::Text(awaitable + ".state"@),
        rest: ""@,
    }
}

/// Whether an awaitable has a table.
pub open spec fn has_table(awaitable: Seq<char>, machine: Machine) -> bool {
    (machine.memory)(Place::Local(awaitable + ".vtable"@)) != Datum::Text("NULL"@)
}

/// Whether an awaitable can be dropped.
pub open spec fn droppable(awaitable: Seq<char>, machine: Machine) -> bool {
    (machine.memory)(Place::Local(awaitable + ".vtable->"@ + "drop"@)) != Datum::Text("NULL"@)
}

/// The calls that were made once an awaitable was given up: an owned one is
/// dropped if it can be.
pub open spec fn gone(awaitable: Seq<char>, owned: bool, machine: Machine) -> Seq<Called> {
    if owned && has_table(awaitable, machine) && droppable(awaitable, machine) {
        machine.calls.push(drop_call(awaitable))
    } else {
        machine.calls
    }
}

/// The calls that were made once an awaitable was refused: an owned one is
/// dropped if it can be.
pub open spec fn refused(awaitable: Seq<char>, owned: bool, machine: Machine) -> Seq<Called> {
    if owned && droppable(awaitable, machine) {
        machine.calls.push(drop_call(awaitable))
    } else {
        machine.calls
    }
}

proof fn letting_go(awaitable: Seq<char>, slot: AwaitSlotId, owned: bool, machine: Machine, world: World)
    ensures
        ({
            let r = c_meaning::run(awaitable_code::let_go(awaitable, slot, owned), machine, world);
            let idle = Place::Own(LogicalFieldId::AwaitableActive(slot));
            &&& r.exit is Falls
            &&& r.machine.calls == gone(awaitable, owned, machine)
            &&& (r.machine.memory)(idle) == Datum::Text("false"@)
            &&& forall|q: Place|
                q != idle ==> #[trigger] (r.machine.memory)(q) == (machine.memory)(q)
        }),
{
    broadcast use {c_meaning::run_then, c_meaning::run_nothing};

    reveal_with_fuel(c_meaning::test_of, 3);
}

proof fn refusing(
    test: c_meaning::Test,
    awaitable: Seq<char>,
    owned: bool,
    code: Seq<char>,
    message: Seq<char>,
    machine: Machine,
    world: World,
)
    ensures
        ({
            let r = c_meaning::run(
                awaitable_code::refuse(test, awaitable, owned, code, message),
                machine,
                world,
            );
            if c_meaning::test_of(test, machine, world) {
                failed_with(r, code, message, refused(awaitable, owned, machine))
            } else {
                r == (Run { machine, exit: Exit::Falls })
            }
        }),
{
    broadcast use {c_meaning::run_then, c_meaning::run_nothing, c_meaning::run_if};

    let m = c_meaning::run(awaitable_code::discard(awaitable, owned), machine, world).machine;
    assert(m.calls == refused(awaitable, owned, machine));
    wait_laws::failing_stops(code, message, m, world);
}

/// Whether the running task has failed with an error after some calls, all its
/// deferred calls made.
pub open spec fn failed_with(
    run: Run,
    code: Seq<char>,
    message: Seq<char>,
    calls: Seq<Called>,
) -> bool {
    &&& wait_laws::stopped(run, "CR_POLL_ERROR"@)
    &&& (run.machine.memory)(Place::Own(LogicalFieldId::Error)) == Datum::Failure(code, message)
    &&& run.machine.calls == wait_laws::cleaned(calls)
}

/// An awaitable is used only if it is fit: with a table of the right make that
/// is long enough, with both functions that waiting needs, and with a value laid
/// out as expected. An awaitable that isn't fit is given up, and the running task
/// fails with the error for the first thing that is wrong. A fit one is left
/// alone.
pub proof fn unfit_awaitables_are_refused(
    awaitable: Seq<char>,
    valued: bool,
    expected: Seq<char>,
    owned: bool,
    machine: Machine,
    world: World,
)
    ensures
        ({
            let r = c_meaning::run(
                awaitable_code::check_code(awaitable, valued, expected, owned),
                machine,
                world,
            );
            let absent = |name: Seq<char>|
                (machine.memory)(Place::Local(awaitable + ".vtable->"@ + name)) == Datum::Text(
                    "NULL"@,
                );
            let is = |s: Seq<char>| (world.truth)(awaitable + s);
            let given_up = refused(awaitable, owned, machine);
            if !has_table(awaitable, machine) || is(
                ".vtable->abi_version < CR_AWAITABLE_VTABLE_ABI_VERSION"@,
            ) || is(".vtable->struct_size < CR_AWAITABLE_VTABLE_DROP_PREFIX_SIZE"@) {
                failed_with(r, "1102"@, "invalid awaitable ABI"@, machine.calls)
            } else if is(".vtable->struct_size < CR_AWAITABLE_VTABLE_V1_MIN_SIZE"@) {
                failed_with(r, "1102"@, "invalid awaitable ABI"@, given_up)
            } else if absent("poll"@) || absent("drop"@) {
                failed_with(r, "1103"@, "awaitable callback missing"@, given_up)
            } else if c_meaning::test_of(
                awaitable_code::misfit(awaitable, valued, expected),
                machine,
                world,
            ) {
                failed_with(r, "1105"@, awaitable_code::misfit_message(valued), given_up)
            } else {
                r == (Run { machine, exit: Exit::Falls })
            }
        }),
{
    broadcast use {c_meaning::run_then, c_meaning::run_nothing, c_meaning::run_if};

    reveal_with_fuel(c_meaning::test_of, 4);
    refusing(
        awaitable_code::foreign(awaitable),
        awaitable,
        false,
        "1102"@,
        "invalid awaitable ABI"@,
        machine,
        world,
    );
    refusing(
        awaitable_code::short(awaitable),
        awaitable,
        owned,
        "1102"@,
        "invalid awaitable ABI"@,
        machine,
        world,
    );
    refusing(
        awaitable_code::incomplete(awaitable),
        awaitable,
        owned,
        "1103"@,
        "awaitable callback missing"@,
        machine,
        world,
    );
    refusing(
        awaitable_code::misfit(awaitable, valued, expected),
        awaitable,
        owned,
        "1105"@,
        awaitable_code::misfit_message(valued),
        machine,
        world,
    );
}

/// An awaitable is taken once: while one is active in the slot, nothing happens.
/// Else a bound task must be active, the slot gets the awaitable, and if the
/// awaitable is fit, it counts as active.
pub proof fn awaitables_are_taken_once(
    awaitable: Seq<char>,
    slot: AwaitSlotId,
    operand: Seq<char>,
    bound: Option<DeclarationId>,
    valued: bool,
    expected: Seq<char>,
    machine: Machine,
    world: World,
)
    ensures
        ({
            let r = c_meaning::run(
                awaitable_code::take_code(awaitable, slot, operand, bound, valued, expected),
                machine,
                world,
            );
            let active = Place::Own(LogicalFieldId::AwaitableActive(slot));
            let filled = c_meaning::stored(
                machine,
                Place::Own(LogicalFieldId::Awaitable(slot)),
                Datum::Text(operand),
            );
            let checked = c_meaning::run(
                awaitable_code::check_code(awaitable, valued, expected, bound is None),
                filled,
                world,
            );
            if (machine.memory)(active) == c_meaning::yes() {
                r == (Run { machine, exit: Exit::Falls })
            } else if bound matches Some(declaration) && (machine.memory)(
                Place::Own(LogicalFieldId::BindingActive(declaration)),
            ) != c_meaning::yes() {
                failed_with(r, "1109"@, "inactive task binding"@, machine.calls)
            } else if checked.exit is Falls {
                &&& r.exit is Falls
                &&& (r.machine.memory)(active) == c_meaning::yes()
                &&& (r.machine.memory)(Place::Own(LogicalFieldId::Awaitable(slot)))
                    == Datum::Text(operand)
                &&& r.machine.calls == machine.calls
            } else {
                r == checked
            }
        }),
{
    broadcast use {c_meaning::run_then, c_meaning::run_nothing, c_meaning::run_if};

    let filled = c_meaning::stored(
        machine,
        Place::Own(LogicalFieldId::Awaitable(slot)),
        Datum::Text(operand),
    );
    unfit_awaitables_are_refused(awaitable, valued, expected, bound is None, filled, world);
    wait_laws::failing_stops("1109"@, "inactive task binding"@, machine, world);
}

/// Before an awaitable is polled, the task remembers where to go on. What the
/// awaitable needs of its caller must be known and there, or it is given up and
/// the task fails.
pub proof fn needs_are_checked(
    awaitable: Seq<char>,
    slot: AwaitSlotId,
    state: Seq<char>,
    owned: bool,
    machine: Machine,
    world: World,
)
    ensures
        ({
            let r = c_meaning::run(
                awaitable_code::prepare_code(awaitable, slot, state, owned),
                machine,
                world,
            );
            let needs = |lacking: Seq<char>|
                (world.truth)(
                    "("@ + awaitable + lacking,
                );
            let given_up = gone(awaitable, owned, machine);
            &&& (r.machine.memory)(Place::Own(LogicalFieldId::State)) == Datum::Text(state + "u"@)
            &&& if needs(
                ".vtable->required_context_capabilities & ~CR_POLL_KNOWN_CAPABILITIES) != 0u"@,
            ) {
                failed_with(r, "1107"@, "unsupported poll capability"@, given_up)
            } else if needs(
                ".vtable->required_context_capabilities & ~(poll_context != NULL ? poll_context->available_capabilities : 0u)) != 0u"@,
            ) {
                failed_with(r, "1104"@, "missing poll capability"@, given_up)
            } else {
                r.exit is Falls && r.machine.calls == machine.calls
            }
        }),
{
    broadcast use {c_meaning::run_then, c_meaning::run_nothing, c_meaning::run_if};

    let m = c_meaning::stored(
        machine,
        Place::Own(LogicalFieldId::State),
        Datum::Text(state + "u"@),
    );
    letting_go(awaitable, slot, owned, m, world);
    let end = c_meaning::run(awaitable_code::let_go(awaitable, slot, owned), m, world).machine;
    wait_laws::failing_stops("1107"@, "unsupported poll capability"@, end, world);
    wait_laws::failing_stops("1104"@, "missing poll capability"@, end, world);
}

proof fn names_apart(awaitable: Seq<char>, number: Seq<char>)
    ensures
        awaitable_code::error_name(number) != awaitable + ".vtable"@,
        awaitable_code::error_name(number) != awaitable + ".vtable->"@ + "drop"@,
{
    reveal_strlit("_error");
    reveal_strlit(".vtable");
    reveal_strlit("drop");
    assert(awaitable_code::error_name(number).last() == 'r');
    assert((awaitable + ".vtable"@).last() == 'e');
    assert((awaitable + ".vtable->"@ + "drop"@).last() == 'p');
}

/// A suspension goes by the status of the awaitable. It returns a pending status
/// and changes nothing. A ready awaitable is given up, and control goes to the
/// block behind the suspension; its value is where the poll put it. If the
/// awaitable has failed or was canceled, it is given up, and the running task
/// stops with the same status, with the error that the awaitable points to if it
/// has failed. A value that it yields is yielded from the slot; where the types
/// don't match, the running task fails instead, as it does for every other
/// status.
pub proof fn answers_are_followed(
    awaitable: Seq<char>,
    slot: AwaitSlotId,
    name: Seq<char>,
    number: Seq<char>,
    target: Seq<char>,
    owned: bool,
    yields: bool,
    machine: Machine,
    world: World,
)
    ensures
        ({
            let status = (machine.memory)(Place::Local(name));
            let detail = awaitable_code::error_name(number);
            let r = c_meaning::run(
                awaitable_code::answer_code(awaitable, slot, name, detail, target, owned, yields),
                machine,
                world,
            );
            let own = |field: LogicalFieldId| (r.machine.memory)(Place::Own(field));
            let idle = own(LogicalFieldId::AwaitableActive(slot)) == Datum::Text("false"@);
            let given_up = gone(awaitable, owned, machine);
            let found = c_meaning::value_of(awaitable_code::error_of(awaitable), machine);
            &&& status == Datum::Text("CR_POLL_PENDING"@) ==> r.machine == machine && r.exit
                == Exit::Returns(status)
            &&& status == Datum::Text("CR_POLL_READY"@) ==> {
                &&& r.exit == Exit::Jumps(target)
                &&& own(LogicalFieldId::AwaitResult(slot)) == (machine.memory)(
                    Place::Own(LogicalFieldId::AwaitResult(slot)),
                )
                &&& r.machine.calls == given_up
                &&& idle
            }
            &&& status == Datum::Text("CR_POLL_ERROR"@) ==> {
                &&& wait_laws::stopped(r, "CR_POLL_ERROR"@)
                &&& found is Pointer && found->Pointer_0 is Own ==> own(LogicalFieldId::Error)
                    == (machine.memory)(found->Pointer_0)
                &&& !(found is Pointer) ==> own(LogicalFieldId::Error) == Datum::Failure(
                    "CR_ERROR_MISSING_CHILD_ERROR"@,
                    "awaitable error without details"@,
                )
                &&& r.machine.calls == wait_laws::cleaned(given_up)
                &&& idle
            }
            &&& status == Datum::Text("CR_POLL_CANCELED"@) ==> {
                &&& wait_laws::stopped(r, "CR_POLL_CANCELED"@)
                &&& r.machine.calls == wait_laws::cleaned(given_up)
                &&& idle
            }
            &&& status == Datum::Text("CR_POLL_YIELDED"@) && yields ==> {
                &&& wait_laws::stopped(r, "CR_POLL_YIELDED"@)
                &&& own(LogicalFieldId::Yielded) == (machine.memory)(
                    Place::Own(LogicalFieldId::AwaitResult(slot)),
                )
                &&& own(LogicalFieldId::AwaitableActive(slot)) == (machine.memory)(
                    Place::Own(LogicalFieldId::AwaitableActive(slot)),
                )
                &&& r.machine.calls == machine.calls
            }
            &&& status == Datum::Text("CR_POLL_YIELDED"@) && !yields ==> failed_with(
                r,
                "1005"@,
                "yielded awaitable has an incompatible value type"@,
                given_up,
            ) && idle
            &&& status != Datum::Text("CR_POLL_PENDING"@) && status != Datum::Text(
                "CR_POLL_READY"@,
            ) && status != Datum::Text("CR_POLL_ERROR"@) && status != Datum::Text(
                "CR_POLL_CANCELED"@,
            ) && status != Datum::Text("CR_POLL_YIELDED"@) ==> failed_with(
                r,
                "1106"@,
                "invalid awaitable poll status"@,
                given_up,
            ) && idle
        }),
{
    broadcast use {c_meaning::run_then, c_meaning::run_nothing, c_meaning::run_if};

    wait_laws::statuses_differ();
    names_apart(awaitable, number);
    let status = (machine.memory)(Place::Local(name));
    let detail = awaitable_code::error_name(number);
    if status == Datum::Text("CR_POLL_READY"@) {
        letting_go(awaitable, slot, owned, machine, world);
    } else if status == Datum::Text("CR_POLL_ERROR"@) {
        let m1 = c_meaning::stored(
            machine,
            Place::Local(detail),
            c_meaning::value_of(awaitable_code::error_of(awaitable), machine),
        );
        let m2 = c_meaning::stored(
            m1,
            Place::Own(LogicalFieldId::Error),
            c_meaning::value_of(
                Value::Pointed(
                    detail,
                    "CR_ERROR_MISSING_CHILD_ERROR"@,
                    "awaitable error without details"@,
                ),
                m1,
            ),
        );
        letting_go(awaitable, slot, owned, m2, world);
        let m3 = c_meaning::run(awaitable_code::let_go(awaitable, slot, owned), m2, world).machine;
        wait_laws::giving_up_stops("CR_POLL_ERROR"@, m3, world);
    } else if status == Datum::Text("CR_POLL_CANCELED"@) {
        letting_go(awaitable, slot, owned, machine, world);
        let m = c_meaning::run(awaitable_code::let_go(awaitable, slot, owned), machine, world).machine;
        wait_laws::giving_up_stops("CR_POLL_CANCELED"@, m, world);
    } else if status == Datum::Text("CR_POLL_YIELDED"@) {
        letting_go(awaitable, slot, owned, machine, world);
        let m = c_meaning::run(awaitable_code::let_go(awaitable, slot, owned), machine, world).machine;
        wait_laws::failing_stops(
            "1005"@,
            "yielded awaitable has an incompatible value type"@,
            m,
            world,
        );
    } else {
        letting_go(awaitable, slot, owned, machine, world);
        let m = c_meaning::run(awaitable_code::let_go(awaitable, slot, owned), machine, world).machine;
        wait_laws::failing_stops("1106"@, "invalid awaitable poll status"@, m, world);
    }
}

} // verus!
