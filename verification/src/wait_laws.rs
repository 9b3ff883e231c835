//! What suspensions do when they run.

use vstd::prelude::*;

use crate::c_meaning;
use crate::c_meaning::{Called, Datum, Exit, Machine, Place, Run, World};
use crate::context_layout::LogicalFieldId;
use crate::semantic::AwaitSlotId;
use crate::wait_code;
use crate::wait_code::Awaited;

verus! {

/// Whether the fields of a task that is waited for are none that every task
/// has, nor one that holds a result.
pub open spec fn apart(task: Awaited) -> bool {
    &&& task.holder is DirectChildPayload || task.holder is Lifted
    &&& task.active is DirectChildActive || task.active is BindingActive
    &&& task.accessors ==> task.pointed
}

/// The calls that were made once the task has ended, if the suspension ends it.
pub open spec fn ended(task: Awaited, machine: Machine) -> Seq<Called> {
    if !task.owned {
        machine.calls
    } else {
        machine.calls.push(
            Called {
                function: if task.pointed {
                    task.stem + "_destroy"@
                } else {
                    task.stem + "_drop"@
                },
                subject: c_meaning::value_of(wait_code::handle(task), machine),
                rest: ""@,
            },
        )
    }
}

/// The calls that were made once all deferred calls have been made too.
pub open spec fn cleaned(calls: Seq<Called>) -> Seq<Called> {
    calls.push(
        Called {
            function: "cr_cleanup_run_all"@,
            subject: Datum::Pointer(Place::Own(LogicalFieldId::Cleanups)),
            rest: ""@,
        },
    )
}

/// Whether the task has ended as far as the suspension ends it: it doesn't
/// count as started, and nothing points to it.
pub open spec fn inactive(task: Awaited, machine: Machine) -> bool {
    task.owned ==> {
        &&& (machine.memory)(Place::Own(task.active)) == Datum::Text("false"@)
        &&& task.pointed ==> (machine.memory)(Place::Own(task.holder)) == Datum::Text("NULL"@)
    }
}

/// Whether the running task has stopped with a status: it has stored it, and
/// returns it.
pub open spec fn stopped(run: Run, status: Seq<char>) -> bool {
    &&& run.exit == Exit::Returns(Datum::Text(status))
    &&& (run.machine.memory)(Place::Own(LogicalFieldId::Status)) == Datum::Text(status)
}

/// The status names are different.
pub proof fn statuses_differ()
    ensures
        "CR_POLL_PENDING"@ != "CR_POLL_READY"@,
        "CR_POLL_PENDING"@ != "CR_POLL_ERROR"@,
        "CR_POLL_PENDING"@ != "CR_POLL_CANCELED"@,
        "CR_POLL_PENDING"@ != "CR_POLL_YIELDED"@,
        "CR_POLL_READY"@ != "CR_POLL_ERROR"@,
        "CR_POLL_READY"@ != "CR_POLL_CANCELED"@,
        "CR_POLL_READY"@ != "CR_POLL_YIELDED"@,
        "CR_POLL_ERROR"@ != "CR_POLL_CANCELED"@,
        "CR_POLL_ERROR"@ != "CR_POLL_YIELDED"@,
        "CR_POLL_CANCELED"@ != "CR_POLL_YIELDED"@,
{
    reveal_strlit("CR_POLL_PENDING");
    reveal_strlit("CR_POLL_READY");
    reveal_strlit("CR_POLL_ERROR");
    reveal_strlit("CR_POLL_CANCELED");
    reveal_strlit("CR_POLL_YIELDED");
    assert("CR_POLL_PENDING"@[8] == 'P');
    assert("CR_POLL_READY"@[8] == 'R');
    assert("CR_POLL_ERROR"@[8] == 'E');
    assert("CR_POLL_CANCELED"@[8] == 'C');
    assert("CR_POLL_YIELDED"@[8] == 'Y');
}

proof fn release_ends(task: Awaited, machine: Machine, world: World)
    requires
        apart(task),
    ensures
        ({
            let r = c_meaning::run(wait_code::release(task), machine, world);
            &&& r.exit is Falls
            &&& r.machine.calls == ended(task, machine)
            &&& inactive(task, r.machine)
            &&& forall|q: Place|
                q is Own && q->Own_0 != task.active && q->Own_0 != task.holder
                    ==> #[trigger] (r.machine.memory)(q) == (machine.memory)(q)
        }),
{
    broadcast use {c_meaning::run_then, c_meaning::run_nothing};

}

pub proof fn giving_up_stops(status: Seq<char>, machine: Machine, world: World)
    ensures
        ({
            let r = c_meaning::run(wait_code::give_up(status), machine, world);
            &&& stopped(r, status)
            &&& r.machine.calls == cleaned(machine.calls)
            &&& forall|q: Place|
                q is Own && q->Own_0 != LogicalFieldId::Cleanups && q->Own_0
                    != LogicalFieldId::Status ==> #[trigger] (r.machine.memory)(q)
                    == (machine.memory)(q)
        }),
{
    broadcast use {c_meaning::run_then, c_meaning::run_nothing};

}

pub proof fn failing_stops(code: Seq<char>, message: Seq<char>, machine: Machine, world: World)
    ensures
        ({
            let r = c_meaning::run(wait_code::fail(code, message), machine, world);
            &&& stopped(r, "CR_POLL_ERROR"@)
            &&& r.machine.calls == cleaned(machine.calls)
            &&& (r.machine.memory)(Place::Own(LogicalFieldId::Error)) == Datum::Failure(
                code,
                message,
            )
            &&& forall|q: Place|
                q is Own && q->Own_0 != LogicalFieldId::Cleanups && q->Own_0
                    != LogicalFieldId::Status && q->Own_0 != LogicalFieldId::Error
                    ==> #[trigger] (r.machine.memory)(q) == (machine.memory)(q)
        }),
{
    broadcast use {c_meaning::run_then, c_meaning::run_nothing};

    let m = c_meaning::stored(
        machine,
        Place::Own(LogicalFieldId::Error),
        Datum::Failure(code, message),
    );
    giving_up_stops("CR_POLL_ERROR"@, m, world);
}

/// A suspension goes by the status of the task it waits for. It returns a
/// pending status and changes nothing. A ready task hands its result over to
/// the slot of the suspension before it ends, and control goes to the block
/// behind the suspension. A task that failed hands its error over; one that was
/// canceled doesn't. Either ends, and the running task stops with the same
/// status, all its deferred calls made. A value that the task yields is yielded
/// by the running task, and the task goes on; where the types don't match, the
/// running task fails instead, as it does for every other status.
pub proof fn statuses_are_followed(
    task: Awaited,
    valued: bool,
    yields: bool,
    slot: AwaitSlotId,
    name: Seq<char>,
    target: Seq<char>,
    machine: Machine,
    world: World,
)
    requires
        apart(task),
    ensures
        ({
            let status = (machine.memory)(Place::Local(name));
            let r = c_meaning::run(
                wait_code::status_code(task, valued, yields, slot, name, target),
                machine,
                world,
            );
            let held = |field: LogicalFieldId| (machine.memory)(wait_code::member(task, field));
            let own = |field: LogicalFieldId| (r.machine.memory)(Place::Own(field));
            &&& status == Datum::Text("CR_POLL_PENDING"@) ==> r.machine == machine && r.exit
                == Exit::Returns(status)
            &&& status == Datum::Text("CR_POLL_READY"@) ==> {
                &&& r.exit == Exit::Jumps(target)
                &&& valued ==> own(LogicalFieldId::AwaitResult(slot)) == held(
                    LogicalFieldId::Result,
                )
                &&& r.machine.calls == ended(task, machine)
                &&& inactive(task, r.machine)
            }
            &&& status == Datum::Text("CR_POLL_ERROR"@) ==> {
                &&& stopped(r, "CR_POLL_ERROR"@)
                &&& own(LogicalFieldId::Error) == held(LogicalFieldId::Error)
                &&& r.machine.calls == cleaned(ended(task, machine))
                &&& inactive(task, r.machine)
            }
            &&& status == Datum::Text("CR_POLL_CANCELED"@) ==> {
                &&& stopped(r, "CR_POLL_CANCELED"@)
                &&& r.machine.calls == cleaned(ended(task, machine))
                &&& inactive(task, r.machine)
            }
            &&& status == Datum::Text("CR_POLL_YIELDED"@) && yields ==> {
                &&& stopped(r, "CR_POLL_YIELDED"@)
                &&& own(LogicalFieldId::Yielded) == held(LogicalFieldId::Yielded)
                &&& own(LogicalFieldId::State) == (machine.memory)(
                    Place::Own(LogicalFieldId::State),
                )
                &&& own(task.active) == (machine.memory)(Place::Own(task.active))
                &&& r.machine.calls == machine.calls
            }
            &&& status == Datum::Text("CR_POLL_YIELDED"@) && !yields ==> {
                &&& stopped(r, "CR_POLL_ERROR"@)
                &&& own(LogicalFieldId::Error) == Datum::Failure(
                    "1005"@,
                    "yielded awaitable has an incompatible value type"@,
                )
                &&& r.machine.calls == cleaned(ended(task, machine))
                &&& inactive(task, r.machine)
            }
            &&& status != Datum::Text("CR_POLL_PENDING"@) && status != Datum::Text(
                "CR_POLL_READY"@,
            ) && status != Datum::Text("CR_POLL_ERROR"@) && status != Datum::Text(
                "CR_POLL_CANCELED"@,
            ) && status != Datum::Text("CR_POLL_YIELDED"@) ==> {
                &&& stopped(r, "CR_POLL_ERROR"@)
                &&& own(LogicalFieldId::Error) == Datum::Failure(
                    "1106"@,
                    "invalid awaitable poll status"@,
                )
                &&& r.machine.calls == cleaned(ended(task, machine))
                &&& inactive(task, r.machine)
            }
        }),
{
    broadcast use {c_meaning::run_then, c_meaning::run_nothing, c_meaning::run_if};

    statuses_differ();
    let status = (machine.memory)(Place::Local(name));
    if status == Datum::Text("CR_POLL_READY"@) {
        let m = c_meaning::stored(
            machine,
            Place::Own(LogicalFieldId::AwaitResult(slot)),
            (machine.memory)(wait_code::member(task, LogicalFieldId::Result)),
        );
        release_ends(task, machine, world);
        release_ends(task, m, world);
    } else if status == Datum::Text("CR_POLL_ERROR"@) {
        let m = c_meaning::run(wait_code::take_error(task), machine, world).machine;
        assert((m.memory)(Place::Own(LogicalFieldId::Error)) == (machine.memory)(
            wait_code::member(task, LogicalFieldId::Error),
        ));
        release_ends(task, m, world);
        giving_up_stops(
            "CR_POLL_ERROR"@,
            c_meaning::run(wait_code::release(task), m, world).machine,
            world,
        );
    } else if status == Datum::Text("CR_POLL_CANCELED"@) {
        release_ends(task, machine, world);
        giving_up_stops(
            "CR_POLL_CANCELED"@,
            c_meaning::run(wait_code::release(task), machine, world).machine,
            world,
        );
    } else if status == Datum::Text("CR_POLL_YIELDED"@) {
        if !yields {
            release_ends(task, machine, world);
            failing_stops(
                "1005"@,
                "yielded awaitable has an incompatible value type"@,
                c_meaning::run(wait_code::release(task), machine, world).machine,
                world,
            );
        }
    } else if status != Datum::Text("CR_POLL_PENDING"@) {
        release_ends(task, machine, world);
        failing_stops(
            "1106"@,
            "invalid awaitable poll status"@,
            c_meaning::run(wait_code::release(task), machine, world).machine,
            world,
        );
    }
}

/// Before it polls, a suspension remembers the state to go on with. It makes
/// one call, of the poll function of the task on the task, and keeps the status
/// that comes back.
pub proof fn polling_remembers_where_to_go_on(
    task: Awaited,
    name: Seq<char>,
    state: Seq<char>,
    machine: Machine,
    world: World,
)
    requires
        apart(task),
    ensures
        ({
            let r = c_meaning::run(wait_code::poll_code(task, name, state), machine, world);
            let n = machine.calls.len();
            &&& r.exit is Falls
            &&& (r.machine.memory)(Place::Own(LogicalFieldId::State)) == Datum::Text(state + "u"@)
            &&& (r.machine.memory)(Place::Local(name)) == (world.returned)(n)
            &&& r.machine.calls == machine.calls.push(
                Called {
                    function: task.stem + "_poll"@,
                    subject: c_meaning::value_of(wait_code::handle(task), machine),
                    rest: ", poll_context"@,
                },
            )
            &&& forall|field: LogicalFieldId|
                (r.machine.memory)(#[trigger] wait_code::member(task, field)) == (world.left)(
                    n,
                    wait_code::member(task, field),
                )
        }),
{
    broadcast use {c_meaning::run_then, c_meaning::run_nothing};

}

} // verus!
