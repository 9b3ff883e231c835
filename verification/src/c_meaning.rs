//! What generated C does when it runs: statements, how they are written, and
//! how they change what a task holds.

use vstd::prelude::*;

use crate::c_source;
use crate::c_source::TaskView;
use crate::context_layout::LogicalFieldId;
use crate::text;

verus! {

/// Something that generated C reads or changes.
pub enum Place {
    /// A field of the running task.
    Own(LogicalFieldId),
    /// A field of the task that a field of the running task holds.
    Inside(LogicalFieldId, LogicalFieldId),
    /// A field of the task that a field of the running task points to.
    Behind(LogicalFieldId, LogicalFieldId),
    /// A variable.
    Local(Seq<char>),
}

/// A value at run time.
pub enum Datum {
    /// What a constant or an expression of the source is worth.
    Text(Seq<char>),
    /// The address of a place.
    Pointer(Place),
    /// The error with a code and a message.
    Failure(Seq<char>, Seq<char>),
    /// What several expressions of the source are worth.
    Record(Seq<Seq<char>>),
}

/// An expression of generated C.
pub enum Value {
    /// A constant or an expression of the source.
    Text(Seq<char>),
    /// What a place holds.
    Read(Place),
    /// Where a place is.
    Address(Place),
    /// What a field of the task that a field points to holds, read through the
    /// function of the task that returns its address.
    Through(Seq<char>, LogicalFieldId, LogicalFieldId),
    /// Where a field of the task is that a field points to, from the function
    /// of the task that returns its address.
    Found(Seq<char>, LogicalFieldId, LogicalFieldId),
    /// What a variable points to, and an error if it points nowhere.
    Pointed(Seq<char>, Seq<char>, Seq<char>),
    /// What a variable holds if it is an error, and an error if it is none.
    Detailed(Seq<char>, Seq<char>, Seq<char>),
    /// An error.
    Failure(Seq<char>, Seq<char>),
}

/// A condition of generated C.
pub enum Test {
    /// A value is a constant.
    Is(Value, Seq<char>),
    /// A value isn't true.
    Not(Value),
    /// A value is true.
    Holds(Value),
    /// Two conditions, one after another.
    Both(Box<Test>, Box<Test>),
    /// One of two conditions.
    Either(Box<Test>, Box<Test>),
    /// A condition that the surroundings decide.
    Source(Seq<char>),
    /// A value isn't a constant.
    Isnt(Value, Seq<char>),
}

/// A statement of generated C.
pub enum Statement {
    Nothing,
    Then(Box<Statement>, Box<Statement>),
    Store(Place, Value),
    /// A declaration of a variable with a name, and its value.
    Declare(Seq<char>, Seq<char>, Value),
    /// A declaration of a variable with a name, and several values.
    Gather(Seq<char>, Seq<char>, Seq<Seq<char>>),
    Increment(Place),
    /// An expression of the source.
    Evaluate(Seq<char>),
    /// A call with a first argument and others.
    Call(Seq<char>, Value, Seq<char>),
    /// A declaration of a variable with a name that gets what a call returns.
    Result(Seq<char>, Seq<char>, Seq<char>, Value, Seq<char>),
    /// A place that gets what a call returns, whose last argument is where a
    /// variable is.
    Create(Place, Seq<char>, Seq<char>, Seq<char>),
    If(Test, Box<Statement>),
    /// A block that runs if a call doesn't return true.
    Unless(Seq<char>, Value, Seq<char>, Box<Statement>),
    ReturnIf(Test, Value),
    LeaveIf(Test),
    CallIf(Test, Seq<char>, Value, Seq<char>),
    /// A call with one argument and a store, in one line.
    CallAndStoreIf(Test, Seq<char>, Value, Place, Value),
    StoreIf(Test, Place, Value),
    Jump(Seq<char>),
    /// A condition in parentheses, and where to go if it holds and if not.
    Choose(Seq<char>, Seq<char>, Seq<char>, Seq<char>),
    /// An expression, where to go for each value of it, and where to go else.
    Select(Seq<char>, Seq<(Seq<char>, Seq<char>)>, Seq<char>),
    /// Where to go for each state of the task, and what to do in none of them.
    Resume(Seq<(nat, Seq<char>)>, Box<Statement>),
    /// Where to go for each state of the task through a table of labels.
    Index(Seq<Seq<char>>, Box<Statement>),
    Return(Value),
    Leave,
    Abort,
}

/// The name of a member that holds a field of every task.
pub open spec fn member_name(field: LogicalFieldId) -> Seq<char> {
    match field {
        LogicalFieldId::State => "state"@,
        LogicalFieldId::Status => "status"@,
        LogicalFieldId::Error => "error"@,
        LogicalFieldId::Cleanups => "cleanups"@,
        LogicalFieldId::Result => "result"@,
        LogicalFieldId::Yielded => "yielded"@,
        _ => ""@,
    }
}

/// How a place is written.
pub open spec fn place_text(place: Place, task: TaskView) -> Seq<char> {
    match place {
        Place::Own(field) => c_source::path(task, field),
        Place::Inside(holder, field) => c_source::path(task, holder) + "."@ + member_name(field),
        Place::Behind(holder, field) => c_source::path(task, holder) + "->"@ + member_name(field),
        Place::Local(name) => name,
    }
}

/// How an error is written.
pub open spec fn failure_text(code: Seq<char>, message: Seq<char>) -> Seq<char> {
    "(cr_error){"@ + code + ", \""@ + message + "\"}"@
}

/// How an expression is written.
pub open spec fn value_text(value: Value, task: TaskView) -> Seq<char> {
    match value {
        Value::Text(s) => s,
        Value::Read(place) => place_text(place, task),
        Value::Address(place) => "&"@ + place_text(place, task),
        Value::Through(stem, holder, field) => "*"@ + stem + "_"@ + member_name(field) + "("@
            + c_source::path(task, holder) + ")"@,
        Value::Found(stem, holder, field) => stem + "_"@ + member_name(field) + "("@
            + c_source::path(task, holder) + ")"@,
        Value::Pointed(name, code, message) => name + " != NULL ? *"@ + name + " : "@
            + failure_text(code, message),
        Value::Detailed(name, code, message) => name + ".code != 0 ? "@ + name + " : "@
            + failure_text(code, message),
        Value::Failure(code, message) => failure_text(code, message),
    }
}

/// How a condition is written.
pub open spec fn test_text(test: Test, task: TaskView) -> Seq<char>
    decreases test,
{
    match test {
        Test::Is(value, constant) => value_text(value, task) + " == "@ + constant,
        Test::Not(value) => "!"@ + value_text(value, task),
        Test::Holds(value) => value_text(value, task),
        Test::Both(a, b) => test_text(*a, task) + " && "@ + test_text(*b, task),
        Test::Either(a, b) => test_text(*a, task) + " || "@ + test_text(*b, task),
        Test::Source(s) => s,
        Test::Isnt(value, constant) => value_text(value, task) + " != "@ + constant,
    }
}

/// How a call is written.
pub open spec fn call_text(
    function: Seq<char>,
    subject: Value,
    rest: Seq<char>,
    task: TaskView,
) -> Seq<char> {
    function + "("@ + value_text(subject, task) + rest + ")"@
}

/// The cases of a selection, the first `n` of them.
pub open spec fn cases_text(out: Seq<char>, cases: Seq<(Seq<char>, Seq<char>)>, n: int) -> Seq<char>
    decreases n,
{
    if n <= 0 {
        out
    } else {
        cases_text(out, cases, n - 1) + "    case "@ + cases[n - 1].0 + ": goto cr_b"@
            + cases[n - 1].1 + ";\n"@
    }
}

/// The states that a task can go on with, the first `n` of them.
pub open spec fn states_text(out: Seq<char>, states: Seq<(nat, Seq<char>)>, n: int) -> Seq<char>
    decreases n,
{
    if n <= 0 {
        out
    } else {
        states_text(out, states, n - 1) + "    case "@ + text::dec(states[n - 1].0)
            + ": goto cr_b"@ + states[n - 1].1 + ";\n"@
    }
}

/// The first `n` values of a variable with several, a line each.
pub open spec fn items_text(
    out: Seq<char>,
    items: Seq<Seq<char>>,
    indent: Seq<char>,
    n: int,
) -> Seq<char>
    decreases n,
{
    if n <= 0 {
        out
    } else {
        items_text(out, items, indent, n - 1) + indent + items[n - 1] + if n == items.len() {
            "\n"@
        } else {
            ",\n"@
        }
    }
}

/// The first `n` texts of a list, separated by commas.
pub open spec fn listed(items: Seq<Seq<char>>, n: int) -> Seq<char>
    decreases n,
{
    if n <= 0 {
        Seq::empty()
    } else if n == 1 {
        items[0]
    } else {
        listed(items, n - 1) + ", "@ + items[n - 1]
    }
}

/// Text with a statement behind it.
pub open spec fn written(
    out: Seq<char>,
    statement: Statement,
    task: TaskView,
    indent: Seq<char>,
) -> Seq<char>
    decreases statement,
{
    match statement {
        Statement::Nothing => out,
        Statement::Then(a, b) => written(written(out, *a, task, indent), *b, task, indent),
        Statement::Store(place, value) => out + indent + place_text(place, task) + " = "@
            + value_text(value, task) + ";\n"@,
        Statement::Declare(declared, name, value) => out + indent + declared + " = "@ + value_text(
            value,
            task,
        ) + ";\n"@,
        Statement::Gather(declared, name, items) => items_text(
            out + indent + declared + " = {\n"@,
            items,
            indent + "    "@,
            items.len() as int,
        ) + indent + "};\n"@,
        Statement::Evaluate(expression) => out + indent + expression + ";\n"@,
        Statement::Increment(place) => out + indent + place_text(place, task) + "++"@ + ";\n"@,
        Statement::Call(function, subject, rest) => out + indent + call_text(
            function,
            subject,
            rest,
            task,
        ) + ";\n"@,
        Statement::Result(declared, name, function, subject, rest) => out + indent + declared
            + " = "@ + call_text(function, subject, rest, task) + ";\n"@,
        Statement::Create(place, function, before, name) => out + indent + place_text(place, task)
            + " = "@ + function + "("@ + before + "&"@ + name + ")"@ + ";\n"@,
        Statement::If(test, body) => written(
            out + indent + "if ("@ + test_text(test, task) + ") {\n"@,
            *body,
            task,
            indent + "    "@,
        ) + indent + "}\n"@,
        Statement::Unless(function, subject, rest, body) => written(
            out + indent + "if (!"@ + call_text(function, subject, rest, task) + ") {\n"@,
            *body,
            task,
            indent + "    "@,
        ) + indent + "}\n"@,
        Statement::ReturnIf(test, value) => out + indent + "if ("@ + test_text(test, task)
            + ") return "@ + value_text(value, task) + ";\n"@,
        Statement::LeaveIf(test) => out + indent + "if ("@ + test_text(test, task)
            + ") return;\n"@,
        Statement::CallAndStoreIf(test, function, subject, place, value) => out + indent + "if ("@
            + test_text(test, task) + ") { "@ + call_text(function, subject, ""@, task) + "; "@
            + place_text(place, task) + " = "@ + value_text(value, task) + "; }\n"@,
        Statement::CallIf(test, function, subject, rest) => out + indent + "if ("@ + test_text(
            test,
            task,
        ) + ") "@ + call_text(function, subject, rest, task) + ";\n"@,
        Statement::StoreIf(test, place, value) => out + indent + "if ("@ + test_text(test, task)
            + ") "@ + place_text(place, task) + " = "@ + value_text(value, task) + ";\n"@,
        Statement::Jump(block) => out + indent + "goto cr_b"@ + block + ";\n"@,
        Statement::Choose(shown, condition, yes, no) => out + indent + "if "@ + shown + " goto cr_b"@
            + yes + "; else goto cr_b"@ + no + ";\n"@,
        Statement::Select(expression, cases, other) => cases_text(
            out + indent + "switch ("@ + expression + ") {\n"@,
            cases,
            cases.len() as int,
        ) + indent + "default: goto cr_b"@ + other + ";\n"@ + indent + "}\n"@,
        Statement::Resume(states, other) => written(
            states_text(
                out + indent + "switch ("@ + c_source::path(task, LogicalFieldId::State)
                    + ") {\n"@,
                states,
                states.len() as int,
            ) + indent + "default:\n"@,
            *other,
            task,
            indent + "    "@,
        ) + indent + "}\n"@,
        Statement::Index(labels, other) => written(
            out + indent + "static void *const cr_dispatch[] = {"@ + listed(
                Seq::new(labels.len(), |i: int| "&&cr_b"@ + labels[i]),
                labels.len() as int,
            ) + "};\n"@ + indent + "if ("@ + c_source::path(task, LogicalFieldId::State)
                + " >= (sizeof(cr_dispatch) / sizeof(cr_dispatch[0]))) {\n"@,
            *other,
            task,
            indent + "    "@,
        ) + indent + "}\n"@ + indent + "goto *cr_dispatch["@ + c_source::path(
            task,
            LogicalFieldId::State,
        ) + "];\n"@,
        Statement::Abort => out + indent + "abort();\n"@,
        Statement::Return(value) => out + indent + "return "@ + value_text(value, task) + ";\n"@,
        Statement::Leave => out + indent + "return"@ + ";\n"@,
    }
}

/// A call that was made.
pub struct Called {
    pub function: Seq<char>,
    pub subject: Datum,
    pub rest: Seq<char>,
}

/// What surrounds generated C: what the call with a number returns and what it
/// leaves in the places that it can reach, which conditions of the source hold,
/// and which expressions of the source are equal.
pub struct World {
    pub returned: spec_fn(nat) -> Datum,
    pub left: spec_fn(nat, Place) -> Datum,
    pub truth: spec_fn(Seq<char>) -> bool,
    pub equal: spec_fn(Seq<char>, Seq<char>) -> bool,
}

/// What a running task holds, and the calls it has made.
pub struct Machine {
    pub memory: spec_fn(Place) -> Datum,
    pub calls: Seq<Called>,
}

/// How a statement ends.
pub enum Exit {
    /// Control goes on behind it.
    Falls,
    /// Control goes to the block with a number.
    Jumps(Seq<char>),
    /// The function returns a value.
    Returns(Datum),
    /// The function returns.
    Leaves,
    /// The program stops.
    Aborts,
}

/// What a statement comes to.
pub struct Run {
    pub machine: Machine,
    pub exit: Exit,
}

/// What a task holds after a place has got a value.
pub open spec fn stored(machine: Machine, place: Place, value: Datum) -> Machine {
    Machine {
        memory: |q: Place| if q == place { value } else { (machine.memory)(q) },
        calls: machine.calls,
    }
}

/// What an expression is worth.
pub open spec fn value_of(value: Value, machine: Machine) -> Datum {
    match value {
        Value::Text(s) => Datum::Text(s),
        Value::Read(place) => (machine.memory)(place),
        Value::Address(place) => Datum::Pointer(place),
        Value::Through(stem, holder, field) => (machine.memory)(Place::Behind(holder, field)),
        Value::Found(stem, holder, field) => Datum::Pointer(Place::Behind(holder, field)),
        Value::Pointed(name, code, message) => match (machine.memory)(Place::Local(name)) {
            Datum::Pointer(place) => (machine.memory)(place),
            _ => Datum::Failure(code, message),
        },
        Value::Detailed(name, code, message) => match (machine.memory)(Place::Local(name)) {
            Datum::Failure(own, detail) => Datum::Failure(own, detail),
            _ => Datum::Failure(code, message),
        },
        Value::Failure(code, message) => Datum::Failure(code, message),
    }
}

/// The constant of a condition that holds.
pub open spec fn yes() -> Datum {
    Datum::Text("true"@)
}

/// Whether a condition holds.
pub open spec fn test_of(test: Test, machine: Machine, world: World) -> bool
    decreases test,
{
    match test {
        Test::Is(value, constant) => value_of(value, machine) == Datum::Text(constant),
        Test::Not(value) => value_of(value, machine) != yes(),
        Test::Holds(value) => value_of(value, machine) == yes(),
        Test::Both(a, b) => test_of(*a, machine, world) && test_of(*b, machine, world),
        Test::Either(a, b) => test_of(*a, machine, world) || test_of(*b, machine, world),
        Test::Source(s) => (world.truth)(s),
        Test::Isnt(value, constant) => value_of(value, machine) != Datum::Text(constant),
    }
}

/// Whether a call with a first argument can change a place.
pub open spec fn reaches(subject: Value, place: Place) -> bool {
    match (subject, place) {
        (Value::Address(Place::Own(holder)), Place::Own(field)) => holder == field,
        (Value::Address(Place::Own(holder)), Place::Inside(other, field)) => holder == other,
        (Value::Read(Place::Own(holder)), Place::Behind(other, field)) => holder == other,
        (Value::Address(Place::Local(name)), Place::Local(other)) => name == other,
        _ => false,
    }
}

/// What a task holds after a call.
pub open spec fn called(
    machine: Machine,
    function: Seq<char>,
    subject: Value,
    rest: Seq<char>,
    world: World,
) -> Machine {
    let n = machine.calls.len();
    Machine {
        memory: |q: Place|
            if reaches(subject, q) {
                (world.left)(n, q)
            } else {
                (machine.memory)(q)
            },
        calls: machine.calls.push(Called { function, subject: value_of(subject, machine), rest }),
    }
}

/// Where a selection goes: with the first case from `i` on whose value the
/// expression has.
pub open spec fn selected(
    expression: Seq<char>,
    cases: Seq<(Seq<char>, Seq<char>)>,
    other: Seq<char>,
    world: World,
    i: int,
) -> Seq<char>
    decreases cases.len() - i,
{
    if i < 0 || i >= cases.len() {
        other
    } else if (world.equal)(expression, cases[i].0) {
        cases[i].1
    } else {
        selected(expression, cases, other, world, i + 1)
    }
}

/// Whether a value is a number.
pub open spec fn numeral(value: Datum, n: nat) -> bool {
    value == Datum::Text(text::dec(n) + "u"@) || value == Datum::Text(text::dec(n))
}

/// Where a task goes on in a state: with the first label from `i` on that its
/// state has.
pub open spec fn resumed(states: Seq<(nat, Seq<char>)>, state: Datum, i: int) -> Option<Seq<char>>
    decreases states.len() - i,
{
    if i < 0 || i >= states.len() {
        None
    } else if numeral(state, states[i].0) {
        Some(states[i].1)
    } else {
        resumed(states, state, i + 1)
    }
}

/// Where a task goes on in a state that counts the labels of a table, from `i`
/// on.
pub open spec fn indexed(labels: Seq<Seq<char>>, state: Datum, i: int) -> Option<Seq<char>>
    decreases labels.len() - i,
{
    if i < 0 || i >= labels.len() {
        None
    } else if numeral(state, i as nat) {
        Some(labels[i])
    } else {
        indexed(labels, state, i + 1)
    }
}

/// What a statement comes to.
pub open spec fn run(statement: Statement, machine: Machine, world: World) -> Run
    decreases statement,
{
    match statement {
        Statement::Nothing => Run { machine, exit: Exit::Falls },
        Statement::Then(a, b) => {
            let first = run(*a, machine, world);
            if first.exit is Falls {
                run(*b, first.machine, world)
            } else {
                first
            }
        },
        Statement::Store(place, value) => Run {
            machine: stored(machine, place, value_of(value, machine)),
            exit: Exit::Falls,
        },
        Statement::Declare(declared, name, value) => Run {
            machine: stored(machine, Place::Local(name), value_of(value, machine)),
            exit: Exit::Falls,
        },
        Statement::Gather(declared, name, items) => Run {
            machine: stored(machine, Place::Local(name), Datum::Record(items)),
            exit: Exit::Falls,
        },
        Statement::Evaluate(expression) => Run {
            machine: Machine {
                memory: machine.memory,
                calls: machine.calls.push(
                    Called { function: ""@, subject: Datum::Text(expression), rest: ""@ },
                ),
            },
            exit: Exit::Falls,
        },
        Statement::Increment(place) => Run { machine: changed(machine, place), exit: Exit::Falls },
        Statement::Call(function, subject, rest) => Run {
            machine: called(machine, function, subject, rest, world),
            exit: Exit::Falls,
        },
        Statement::Result(declared, name, function, subject, rest) => Run {
            machine: stored(
                called(machine, function, subject, rest, world),
                Place::Local(name),
                (world.returned)(machine.calls.len()),
            ),
            exit: Exit::Falls,
        },
        Statement::Create(place, function, before, name) => Run {
            machine: stored(
                called(machine, function, Value::Address(Place::Local(name)), before, world),
                place,
                (world.returned)(machine.calls.len()),
            ),
            exit: Exit::Falls,
        },
        Statement::If(test, body) => if test_of(test, machine, world) {
            run(*body, machine, world)
        } else {
            Run { machine, exit: Exit::Falls }
        },
        Statement::Unless(function, subject, rest, body) => {
            let after = called(machine, function, subject, rest, world);
            if (world.returned)(machine.calls.len()) != yes() {
                run(*body, after, world)
            } else {
                Run { machine: after, exit: Exit::Falls }
            }
        },
        Statement::ReturnIf(test, value) => if test_of(test, machine, world) {
            Run { machine, exit: Exit::Returns(value_of(value, machine)) }
        } else {
            Run { machine, exit: Exit::Falls }
        },
        Statement::LeaveIf(test) => Run {
            machine,
            exit: if test_of(test, machine, world) {
                Exit::Leaves
            } else {
                Exit::Falls
            },
        },
        Statement::CallAndStoreIf(test, function, subject, place, value) => Run {
            machine: if test_of(test, machine, world) {
                let after = called(machine, function, subject, ""@, world);
                stored(after, place, value_of(value, after))
            } else {
                machine
            },
            exit: Exit::Falls,
        },
        Statement::CallIf(test, function, subject, rest) => Run {
            machine: if test_of(test, machine, world) {
                called(machine, function, subject, rest, world)
            } else {
                machine
            },
            exit: Exit::Falls,
        },
        Statement::StoreIf(test, place, value) => Run {
            machine: if test_of(test, machine, world) {
                stored(machine, place, value_of(value, machine))
            } else {
                machine
            },
            exit: Exit::Falls,
        },
        Statement::Jump(block) => Run { machine, exit: Exit::Jumps(block) },
        Statement::Choose(shown, condition, yes, no) => Run {
            machine,
            exit: Exit::Jumps(
                if (world.truth)(condition) {
                    yes
                } else {
                    no
                },
            ),
        },
        Statement::Select(expression, cases, other) => Run {
            machine,
            exit: Exit::Jumps(selected(expression, cases, other, world, 0)),
        },
        Statement::Resume(states, other) => match resumed(
            states,
            (machine.memory)(Place::Own(LogicalFieldId::State)),
            0,
        ) {
            Some(label) => Run { machine, exit: Exit::Jumps(label) },
            None => run(*other, machine, world),
        },
        Statement::Index(labels, other) => match indexed(
            labels,
            (machine.memory)(Place::Own(LogicalFieldId::State)),
            0,
        ) {
            Some(label) => Run { machine, exit: Exit::Jumps(label) },
            None => run(*other, machine, world),
        },
        Statement::Abort => Run { machine, exit: Exit::Aborts },
        Statement::Return(value) => Run { machine, exit: Exit::Returns(value_of(value, machine)) },
        Statement::Leave => Run { machine, exit: Exit::Leaves },
    }
}

/// The value after another.
pub open spec fn next(value: Datum) -> Datum {
    match value {
        Datum::Text(s) => Datum::Text(s + "+1"@),
        _ => value,
    }
}

/// What a task holds after a place has got the next value.
pub open spec fn changed(machine: Machine, place: Place) -> Machine {
    stored(machine, place, next((machine.memory)(place)))
}

/// Two statements, one after another.
pub open spec fn both(a: Statement, b: Statement) -> Statement {
    Statement::Then(Box::new(a), Box::new(b))
}

/// A block that runs if a condition holds.
pub open spec fn when(test: Test, body: Statement) -> Statement {
    Statement::If(test, Box::new(body))
}

/// Whether two texts are the same.
pub open spec fn same(a: Seq<char>, b: Seq<char>) -> bool {
    a == b
}

/// Text in front of other text is text in front of its parts.
pub broadcast proof fn joined(a: Seq<char>, b: Seq<char>, c: Seq<char>)
    ensures
        #[trigger] (a + (b + c)) == (a + b) + c,
{
    assert(a + (b + c) =~= (a + b) + c);
}

/// Nothing behind a text leaves it alone.
pub broadcast proof fn nothing_behind(a: Seq<char>)
    ensures
        #[trigger] (a + ""@) == a,
{
    reveal_strlit("");
    assert(a + ""@ =~= a);
}

/// A branch starts behind a line.
pub broadcast proof fn branch_behind_line(a: Seq<char>)
    ensures
        #[trigger] (a + ";\n    if ("@) == (a + ";\n"@) + "    if ("@,
{
    reveal_strlit(";\n    if (");
    reveal_strlit(";\n");
    reveal_strlit("    if (");
    assert(a + ";\n    if ("@ =~= (a + ";\n"@) + "    if ("@);
}

/// A branch starts behind another.
pub broadcast proof fn branch_behind_branch(a: Seq<char>)
    ensures
        #[trigger] (a + ";\n    }\n    if ("@) == (a + ";\n    }\n"@) + "    if ("@,
{
    reveal_strlit(";\n    }\n    if (");
    reveal_strlit(";\n    }\n");
    reveal_strlit("    if (");
    assert(a + ";\n    }\n    if ("@ =~= (a + ";\n    }\n"@) + "    if ("@);
}

/// A line starts behind a block.
pub broadcast proof fn line_behind_block(a: Seq<char>)
    ensures
        #[trigger] (a + "    }\n    "@) == (a + "    }\n"@) + "    "@,
{
    reveal_strlit("    }\n    ");
    reveal_strlit("    }\n");
    reveal_strlit("    ");
    assert(a + "    }\n    "@ =~= (a + "    }\n"@) + "    "@);
}

pub broadcast proof fn written_nothing(out: Seq<char>, task: TaskView, indent: Seq<char>)
    ensures
        #[trigger] written(out, Statement::Nothing, task, indent) == out,
{
}

pub broadcast proof fn written_then(
    out: Seq<char>,
    a: Box<Statement>,
    b: Box<Statement>,
    task: TaskView,
    indent: Seq<char>,
)
    ensures
        #[trigger] written(out, Statement::Then(a, b), task, indent) == written(
            written(out, *a, task, indent),
            *b,
            task,
            indent,
        ),
{
}

pub broadcast proof fn written_if(
    out: Seq<char>,
    test: Test,
    body: Box<Statement>,
    task: TaskView,
    indent: Seq<char>,
)
    ensures
        #[trigger] written(out, Statement::If(test, body), task, indent) == written(
            out + indent + "if ("@ + test_text(test, task) + ") {\n"@,
            *body,
            task,
            indent + "    "@,
        ) + indent + "}\n"@,
{
}

pub broadcast proof fn written_unless_in_function(
    out: Seq<char>,
    function: Seq<char>,
    subject: Value,
    rest: Seq<char>,
    body: Box<Statement>,
    task: TaskView,
)
    ensures
        #[trigger] written(out, Statement::Unless(function, subject, rest, body), task, "    "@)
            == written(
            out + "    "@ + "if (!"@ + call_text(function, subject, rest, task) + ") {\n"@,
            *body,
            task,
            "        "@,
        ) + "    "@ + "}\n"@,
{
    reveal_strlit("    ");
    reveal_strlit("        ");
    assert("    "@ + "    "@ =~= "        "@);
}

pub broadcast proof fn written_if_in_function(
    out: Seq<char>,
    test: Test,
    body: Box<Statement>,
    task: TaskView,
)
    ensures
        #[trigger] written(out, Statement::If(test, body), task, "    "@) == written(
            out + "    "@ + "if ("@ + test_text(test, task) + ") {\n"@,
            *body,
            task,
            "        "@,
        ) + "    "@ + "}\n"@,
{
    reveal_strlit("    ");
    reveal_strlit("        ");
    assert("    "@ + "    "@ =~= "        "@);
}

pub broadcast proof fn written_if_in_block(
    out: Seq<char>,
    test: Test,
    body: Box<Statement>,
    task: TaskView,
)
    ensures
        #[trigger] written(out, Statement::If(test, body), task, "        "@) == written(
            out + "        "@ + "if ("@ + test_text(test, task) + ") {\n"@,
            *body,
            task,
            "            "@,
        ) + "        "@ + "}\n"@,
{
    reveal_strlit("    ");
    reveal_strlit("        ");
    reveal_strlit("            ");
    assert("        "@ + "    "@ =~= "            "@);
}

pub broadcast proof fn run_nothing(machine: Machine, world: World)
    ensures
        #[trigger] run(Statement::Nothing, machine, world) == (Run { machine, exit: Exit::Falls }),
{
}

pub broadcast proof fn run_then(a: Box<Statement>, b: Box<Statement>, machine: Machine, world: World)
    ensures
        #[trigger] run(Statement::Then(a, b), machine, world) == (if run(*a, machine, world).exit is Falls {
            run(*b, run(*a, machine, world).machine, world)
        } else {
            run(*a, machine, world)
        }),
{
}

pub broadcast proof fn run_unless(
    function: Seq<char>,
    subject: Value,
    rest: Seq<char>,
    body: Box<Statement>,
    machine: Machine,
    world: World,
)
    ensures
        #[trigger] run(Statement::Unless(function, subject, rest, body), machine, world) == (if (
        world.returned)(machine.calls.len()) != yes() {
            run(*body, called(machine, function, subject, rest, world), world)
        } else {
            Run { machine: called(machine, function, subject, rest, world), exit: Exit::Falls }
        }),
{
}

pub broadcast proof fn run_resume(
    states: Seq<(nat, Seq<char>)>,
    other: Box<Statement>,
    machine: Machine,
    world: World,
)
    ensures
        #[trigger] run(Statement::Resume(states, other), machine, world) == (match resumed(
            states,
            (machine.memory)(Place::Own(LogicalFieldId::State)),
            0,
        ) {
            Some(label) => Run { machine, exit: Exit::Jumps(label) },
            None => run(*other, machine, world),
        }),
{
}

pub broadcast proof fn run_if(test: Test, body: Box<Statement>, machine: Machine, world: World)
    ensures
        #[trigger] run(Statement::If(test, body), machine, world) == (if test_of(test, machine, world) {
            run(*body, machine, world)
        } else {
            Run { machine, exit: Exit::Falls }
        }),
{
}

} // verus!
