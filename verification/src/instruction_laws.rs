//! What instructions do when they run.

use vstd::prelude::*;

use crate::c_expression;
use crate::c_function_text;
use crate::c_instruction;
use crate::c_instruction::{Emitted, FunctionView};
use crate::c_meaning;
use crate::c_meaning::{Called, Datum, Machine, Place, Statement, Value, World};
use crate::c_source::TaskView;
use crate::c_symbols;
use crate::c_symbols::HelperView;
use crate::context_layout::LogicalFieldId;
use crate::control_flow::{CfgInstruction, CleanupRegistration};
use crate::liveness::LiftedField;
use crate::order;
use crate::semantic::{DeclarationId, HirExpr, ScopeId};
use crate::text;
use crate::wait_code;
use crate::wait_laws;

verus! {

/// Where a declaration lives: in the context if it is lifted there, and in a
/// variable if it isn't.
pub open spec fn home(view: FunctionView, id: DeclarationId) -> Place {
    if view.scene.task is Some && exists|i: int|
        0 <= i < view.scene.fields.len() && (#[trigger] view.scene.fields[i]).declaration == id {
        Place::Own(LogicalFieldId::Lifted(id))
    } else {
        Place::Local(c_symbols::symbol_name(view.function, id))
    }
}

/// The field that is found for a declaration is one of its fields, and the
/// search fails only if there is none.
pub proof fn lifted_are_found(fields: Seq<LiftedField>, id: DeclarationId, n: int)
    requires
        n <= fields.len(),
    ensures
        match c_symbols::lifted_last(fields, id, n) {
            Some(k) => 0 <= k < n && fields[k].declaration == id,
            None => forall|i: int| 0 <= i < n ==> (#[trigger] fields[i]).declaration != id,
        },
    decreases n,
{
    if n > 0 {
        lifted_are_found(fields, id, n - 1);
    }
}

/// A declaration is named by where it lives.
pub proof fn targets_are_homes(view: FunctionView, id: DeclarationId, task: TaskView)
    requires
        view.scene.task is Some ==> view.scene.task == Some(task),
    ensures
        c_instruction::target_text(view, id) == c_meaning::place_text(home(view, id), task),
{
    lifted_are_found(view.scene.fields, id, view.scene.fields.len() as int);
    if c_symbols::symbol_field(view.scene.fields, id) is Some {
        let k = c_symbols::lifted_last(view.scene.fields, id, view.scene.fields.len() as int)->0;
        assert(view.scene.fields[k].declaration == id);
    }
}

/// The stack that deferred calls are kept on.
pub open spec fn stack(view: FunctionView) -> Place {
    if view.scene.task is Some {
        Place::Own(LogicalFieldId::Cleanups)
    } else {
        Place::Local("cr_cleanups"@)
    }
}

/// Code that makes the deferred calls of the first `n` scopes.
pub open spec fn scope_code(view: FunctionView, scopes: Seq<ScopeId>, n: int) -> Statement
    decreases n,
{
    if n <= 0 {
        Statement::Nothing
    } else {
        c_meaning::both(
            scope_code(view, scopes, n - 1),
            Statement::Call(
                "cr_cleanup_run_scope"@,
                Value::Address(stack(view)),
                ", "@ + text::dec(scopes[n - 1].0 as nat) + "u"@,
            ),
        )
    }
}

/// What is done if a deferred call can't be kept.
pub open spec fn push_refused(view: FunctionView) -> Statement {
    if view.scene.task is Some {
        wait_code::fail("1002"@, "cleanup allocation failed"@)
    } else {
        Statement::Call("cr_oom_abort"@, Value::Text(""@), ""@)
    }
}

/// What a deferred call keeps: its arguments, or something if it has none.
pub open spec fn kept_values(
    view: FunctionView,
    scopes: Seq<ScopeId>,
    registration: CleanupRegistration,
    helper: HelperView,
) -> Seq<Seq<char>> {
    if helper.types.len() == 0 {
        seq!["0"@]
    } else {
        Seq::new(
            registration.arguments@.len(),
            |i: int| c_expression::expression_text(registration.arguments@[i], scopes, view.scene),
        )
    }
}

/// The variable for what a deferred call keeps.
pub open spec fn payload(registration: CleanupRegistration) -> Seq<char> {
    "cr_payload_"@ + text::dec(registration.id.0 as nat)
}

/// Code that registers a deferred call.
pub open spec fn push_code(
    view: FunctionView,
    scopes: Seq<ScopeId>,
    registration: CleanupRegistration,
    helper: HelperView,
) -> Statement {
    c_meaning::both(
        Statement::Gather(
            c_symbols::payload_type(view.stem, registration.id) + " "@ + payload(registration),
            payload(registration),
            kept_values(view, scopes, registration, helper),
        ),
        Statement::Unless(
            "cr_cleanup_push"@,
            Value::Address(stack(view)),
            ", "@ + text::dec(registration.scope.0 as nat) + "u, "@ + c_symbols::run_function(
                view.stem,
                registration.id,
            ) + ", &"@ + payload(registration) + ", sizeof("@ + payload(registration) + ")"@,
            Box::new(push_refused(view)),
        ),
    )
}

/// What an instruction does that is neither source text nor a declaration.
pub open spec fn instruction_code(
    view: FunctionView,
    scopes: Seq<ScopeId>,
    instruction: CfgInstruction,
) -> Statement {
    match instruction {
        CfgInstruction::AssignAwaitResult { destination, slot, span } => Statement::Store(
            home(view, destination),
            Value::Read(Place::Own(LogicalFieldId::AwaitResult(slot))),
        ),
        CfgInstruction::AssignExpression { destination, expression, span } => Statement::Store(
            home(view, destination),
            Value::Text(c_expression::expression_text(expression, scopes, view.scene)),
        ),
        CfgInstruction::AssignExpressionSlot { slot, ty, expression, span } => Statement::Store(
            Place::Own(LogicalFieldId::AwaitResult(slot)),
            Value::Text(c_expression::expression_text(expression, scopes, view.scene)),
        ),
        CfgInstruction::Evaluate(expression) => Statement::Evaluate(
            c_expression::expression_text(expression, scopes, view.scene),
        ),
        CfgInstruction::PushCleanup(registration) => match order::lookup(
            view.helpers,
            registration.id,
        ) {
            Some(helper) => push_code(view, scopes, registration, helper),
            None => Statement::Nothing,
        },
        CfgInstruction::RunCleanups { exited_scopes } => scope_code(
            view,
            exited_scopes@,
            exited_scopes@.len() as int,
        ),
        _ => Statement::Nothing,
    }
}

/// Whether an instruction is neither source text nor a declaration, and can be
/// written.
pub open spec fn acts_plainly(view: FunctionView, instruction: CfgInstruction) -> bool {
    match instruction {
        CfgInstruction::Source(fragment) => false,
        CfgInstruction::Declaration(declaration) => false,
        CfgInstruction::RegisterDefer(defer) => false,
        CfgInstruction::AssignExpressionSlot { slot, ty, expression, span } => view.scene.task is Some,
        CfgInstruction::AssignAwaitResult { destination, slot, span } => view.scene.task is Some,
        _ => true,
    }
}

/// How the fixed parts of the C are made up.
proof fn instruction_literals()
    ensures
        "    cr_cleanup_run_scope("@ == "    "@ + "cr_cleanup_run_scope"@ + "("@,
        "u);\n"@ == "u"@ + ")"@ + ";\n"@,
        "&cr_cleanups"@ == "&"@ + "cr_cleanups"@,
        "    if (!cr_cleanup_push(&"@ == "    "@ + "if (!"@ + "cr_cleanup_push"@ + "("@ + "&"@,
        "))) {\n"@ == ")"@ + ")"@ + ") {\n"@,
        " = (cr_error){1002, \"cleanup allocation failed\"};\n        cr_cleanup_run_all(&"@ == " = "@ + "(cr_error){"@ + "1002"@ + ", \""@ + "cleanup allocation failed"@ + "\"}"@ + ";\n"@ + "        "@ + "cr_cleanup_run_all"@ + "("@ + "&"@,
        ");\n        "@ == ")"@ + ";\n"@ + "        "@,
        " = CR_POLL_ERROR;\n        return "@ == " = "@ + "CR_POLL_ERROR"@ + ";\n"@ + "        "@ + "return "@,
        ";\n    }\n"@ == ";\n"@ + "    "@ + "}\n"@,
        "    if (!cr_cleanup_push(&cr_cleanups, "@ == "    "@ + "if (!"@ + "cr_cleanup_push"@ + "("@ + "&"@ + "cr_cleanups"@ + ", "@,
        "))) {\n        cr_oom_abort();\n    }\n"@ == ")"@ + ")"@ + ") {\n"@ + "        "@ + "cr_oom_abort"@ + "("@ + ")"@ + ";\n"@ + "    "@ + "}\n"@,
        "        0\n"@ == "        "@ + "0"@ + "\n"@,
        "    }\n"@ == "    "@ + "}\n"@,
{
    assert("    cr_cleanup_run_scope("@ =~= "    "@ + "cr_cleanup_run_scope"@ + "("@) by {
        reveal_strlit("    cr_cleanup_run_scope(");
        reveal_strlit("    ");
        reveal_strlit("cr_cleanup_run_scope");
        reveal_strlit("(");
    }
    assert("u);\n"@ =~= "u"@ + ")"@ + ";\n"@) by {
        reveal_strlit("u);\n");
        reveal_strlit("u");
        reveal_strlit(")");
        reveal_strlit(";\n");
    }
    assert("&cr_cleanups"@ =~= "&"@ + "cr_cleanups"@) by {
        reveal_strlit("&cr_cleanups");
        reveal_strlit("&");
        reveal_strlit("cr_cleanups");
    }
    assert("    if (!cr_cleanup_push(&"@ =~= "    "@ + "if (!"@ + "cr_cleanup_push"@ + "("@ + "&"@) by {
        reveal_strlit("    if (!cr_cleanup_push(&");
        reveal_strlit("    ");
        reveal_strlit("if (!");
        reveal_strlit("cr_cleanup_push");
        reveal_strlit("(");
        reveal_strlit("&");
    }
    assert("))) {\n"@ =~= ")"@ + ")"@ + ") {\n"@) by {
        reveal_strlit("))) {\n");
        reveal_strlit(")");
        reveal_strlit(") {\n");
    }
    assert(" = (cr_error){1002, \"cleanup allocation failed\"};\n        cr_cleanup_run_all(&"@ =~= " = "@ + "(cr_error){"@ + "1002"@ + ", \""@ + "cleanup allocation failed"@ + "\"}"@ + ";\n"@ + "        "@ + "cr_cleanup_run_all"@ + "("@ + "&"@) by {
        reveal_strlit(" = (cr_error){1002, \"cleanup allocation failed\"};\n        cr_cleanup_run_all(&");
        reveal_strlit(" = ");
        reveal_strlit("(cr_error){");
        reveal_strlit("1002");
        reveal_strlit(", \"");
        reveal_strlit("cleanup allocation failed");
        reveal_strlit("\"}");
        reveal_strlit(";\n");
        reveal_strlit("        ");
        reveal_strlit("cr_cleanup_run_all");
        reveal_strlit("(");
        reveal_strlit("&");
    }
    assert(");\n        "@ =~= ")"@ + ";\n"@ + "        "@) by {
        reveal_strlit(");\n        ");
        reveal_strlit(")");
        reveal_strlit(";\n");
        reveal_strlit("        ");
    }
    assert(" = CR_POLL_ERROR;\n        return "@ =~= " = "@ + "CR_POLL_ERROR"@ + ";\n"@ + "        "@ + "return "@) by {
        reveal_strlit(" = CR_POLL_ERROR;\n        return ");
        reveal_strlit(" = ");
        reveal_strlit("CR_POLL_ERROR");
        reveal_strlit(";\n");
        reveal_strlit("        ");
        reveal_strlit("return ");
    }
    assert(";\n    }\n"@ =~= ";\n"@ + "    "@ + "}\n"@) by {
        reveal_strlit(";\n    }\n");
        reveal_strlit(";\n");
        reveal_strlit("    ");
        reveal_strlit("}\n");
    }
    assert("    if (!cr_cleanup_push(&cr_cleanups, "@ =~= "    "@ + "if (!"@ + "cr_cleanup_push"@ + "("@ + "&"@ + "cr_cleanups"@ + ", "@) by {
        reveal_strlit("    if (!cr_cleanup_push(&cr_cleanups, ");
        reveal_strlit("    ");
        reveal_strlit("if (!");
        reveal_strlit("cr_cleanup_push");
        reveal_strlit("(");
        reveal_strlit("&");
        reveal_strlit("cr_cleanups");
        reveal_strlit(", ");
    }
    assert("))) {\n        cr_oom_abort();\n    }\n"@ =~= ")"@ + ")"@ + ") {\n"@ + "        "@ + "cr_oom_abort"@ + "("@ + ")"@ + ";\n"@ + "    "@ + "}\n"@) by {
        reveal_strlit("))) {\n        cr_oom_abort();\n    }\n");
        reveal_strlit(")");
        reveal_strlit(") {\n");
        reveal_strlit("        ");
        reveal_strlit("cr_oom_abort");
        reveal_strlit("(");
        reveal_strlit(";\n");
        reveal_strlit("    ");
        reveal_strlit("}\n");
    }
    assert("        0\n"@ =~= "        "@ + "0"@ + "\n"@) by {
        reveal_strlit("        0\n");
        reveal_strlit("        ");
        reveal_strlit("0");
        reveal_strlit("\n");
    }
    assert("    }\n"@ =~= "    "@ + "}\n"@) by {
        reveal_strlit("    }\n");
        reveal_strlit("    ");
        reveal_strlit("}\n");
    }
}

proof fn scopes_are_written(
    out: Seq<char>,
    view: FunctionView,
    scopes: Seq<ScopeId>,
    n: int,
    task: TaskView,
)
    requires
        view.scene.task is Some ==> view.scene.task == Some(task),
    ensures
        c_meaning::same(
            c_instruction::run_text(out, view, scopes, n),
            c_meaning::written(out, scope_code(view, scopes, n), task, "    "@),
        ),
    decreases n,
{
    if n > 0 {
        scopes_are_written(out, view, scopes, n - 1, task);
        broadcast use {c_meaning::joined, c_meaning::written_then, c_meaning::written_nothing};

        instruction_literals();
    }
}

proof fn values_are_written(
    out: Seq<char>,
    view: FunctionView,
    scopes: Seq<ScopeId>,
    arguments: Seq<HirExpr>,
    n: int,
)
    requires
        n <= arguments.len(),
    ensures
        c_meaning::same(
            c_instruction::payload_values(out, view, scopes, arguments, n),
            c_meaning::items_text(
                out,
                Seq::new(
                    arguments.len(),
                    |i: int| c_expression::expression_text(arguments[i], scopes, view.scene),
                ),
                "        "@,
                n,
            ),
        ),
    decreases n,
{
    if n > 0 {
        values_are_written(out, view, scopes, arguments, n - 1);
    }
}

proof fn nothing_is_written(out: Seq<char>)
    ensures
        c_meaning::same(
            out + "        0\n"@,
            c_meaning::items_text(out, seq!["0"@], "        "@, 1),
        ),
{
    broadcast use c_meaning::joined;

    instruction_literals();
    reveal_with_fuel(c_meaning::items_text, 2);
}

proof fn gathering_is_written(
    out: Seq<char>,
    view: FunctionView,
    scopes: Seq<ScopeId>,
    registration: CleanupRegistration,
    helper: HelperView,
    task: TaskView,
)
    ensures
        ({
            let kept = payload(registration);
            let opened = out + "    "@ + c_symbols::payload_type(view.stem, registration.id) + " "@
                + kept + " = {\n"@;
            let filled = if helper.types.len() == 0 {
                opened + "        0\n"@
            } else {
                c_instruction::payload_values(
                    opened,
                    view,
                    scopes,
                    registration.arguments@,
                    registration.arguments@.len() as int,
                )
            };
            c_meaning::same(
                filled + "    };\n"@,
                c_meaning::written(
                    out,
                    Statement::Gather(
                        c_symbols::payload_type(view.stem, registration.id) + " "@ + kept,
                        kept,
                        kept_values(view, scopes, registration, helper),
                    ),
                    task,
                    "    "@,
                ),
            )
        }),
{
    let kept = payload(registration);
    let ty = c_symbols::payload_type(view.stem, registration.id);
    let opened = out + "    "@ + ty + " "@ + kept + " = {\n"@;
    assert(c_meaning::same(opened, out + "    "@ + (ty + " "@ + kept) + " = {\n"@)) by {
        c_meaning::joined(out + "    "@, ty + " "@, kept);
        c_meaning::joined(out + "    "@, ty, " "@);
    }
    assert("    "@ + "    "@ == "        "@ && "    };\n"@ == "    "@ + "};\n"@) by {
        reveal_strlit("    ");
        reveal_strlit("        ");
        reveal_strlit("    };\n");
        reveal_strlit("};\n");
        assert("    "@ + "    "@ =~= "        "@);
        assert("    };\n"@ =~= "    "@ + "};\n"@);
    }
    values_are_written(
        opened,
        view,
        scopes,
        registration.arguments@,
        registration.arguments@.len() as int,
    );
    nothing_is_written(opened);
    let values = kept_values(view, scopes, registration, helper);
    assert(helper.types.len() == 0 ==> values.len() == 1);
    let filled = c_meaning::items_text(opened, values, "        "@, values.len() as int);
    c_meaning::joined(filled, "    "@, "};\n"@);
}

proof fn push_test_is_written(
    out: Seq<char>,
    kept: Seq<char>,
    scope: Seq<char>,
    run: Seq<char>,
    view: FunctionView,
    task: TaskView,
)
    requires
        view.scene.task is Some ==> view.scene.task == Some(task),
    ensures
        c_meaning::same(
            match view.scene.task {
                Some(own) => c_function_text::cleanup_push_text(out, own, kept, scope, run),
                None => c_function_text::plain_cleanup_push_text(out, kept, scope, run),
            },
            c_meaning::written(
                out,
                Statement::Unless(
                    "cr_cleanup_push"@,
                    Value::Address(stack(view)),
                    ", "@ + scope + "u, "@ + run + ", &"@ + kept + ", sizeof("@ + kept + ")"@,
                    Box::new(push_refused(view)),
                ),
                task,
                "    "@,
            ),
        ),
{
    broadcast use {
        c_meaning::joined,
        c_meaning::nothing_behind,
        c_meaning::written_then,
        c_meaning::written_unless_in_function,
    };

    instruction_literals();
}

/// The C of an instruction is that of its statements. It adds no error.
pub proof fn instructions_are_written(
    emitted: Emitted,
    view: FunctionView,
    scopes: Seq<ScopeId>,
    instruction: CfgInstruction,
    task: TaskView,
)
    requires
        acts_plainly(view, instruction),
        view.scene.task is Some ==> view.scene.task == Some(task),
    ensures
        c_instruction::instruction_text(emitted, view, scopes, instruction).problems
            == emitted.problems,
        c_meaning::same(
            c_instruction::instruction_text(emitted, view, scopes, instruction).out,
            c_meaning::written(
                emitted.out,
                instruction_code(view, scopes, instruction),
                task,
                "    "@,
            ),
        ),
{
    broadcast use {c_meaning::written_then, c_meaning::written_nothing};

    match instruction {
        CfgInstruction::AssignAwaitResult { destination, slot, span } => {
            targets_are_homes(view, destination, task);
        },
        CfgInstruction::AssignExpression { destination, expression, span } => {
            targets_are_homes(view, destination, task);
        },
        CfgInstruction::PushCleanup(registration) => {
            if let Some(helper) = order::lookup(view.helpers, registration.id) {
                gathering_is_written(emitted.out, view, scopes, registration, helper, task);
                push_test_is_written(
                    c_meaning::written(
                        emitted.out,
                        Statement::Gather(
                            c_symbols::payload_type(view.stem, registration.id) + " "@ + payload(
                                registration,
                            ),
                            payload(registration),
                            kept_values(view, scopes, registration, helper),
                        ),
                        task,
                        "    "@,
                    ),
                    payload(registration),
                    text::dec(registration.scope.0 as nat),
                    c_symbols::run_function(view.stem, registration.id),
                    view,
                    task,
                );
            }
        },
        CfgInstruction::RunCleanups { exited_scopes } => {
            scopes_are_written(
                emitted.out,
                view,
                exited_scopes@,
                exited_scopes@.len() as int,
                task,
            );
        },
        _ => {},
    }
}

/// The deferred calls of exited scopes are made scope by scope: for scopes
/// s1 to sk there are exactly k calls of the function that makes the deferred
/// calls of a scope, all on the stack of the function, the i-th for si.
pub proof fn exited_scopes_are_cleaned_up(
    view: FunctionView,
    scopes: Seq<ScopeId>,
    n: int,
    machine: Machine,
    world: World,
)
    requires
        0 <= n <= scopes.len(),
    ensures
        ({
            let r = c_meaning::run(scope_code(view, scopes, n), machine, world);
            &&& r.exit is Falls
            &&& r.machine.calls.len() == machine.calls.len() + n
            &&& r.machine.calls.take(machine.calls.len() as int) == machine.calls
            &&& forall|i: int|
                0 <= i < n ==> #[trigger] r.machine.calls[machine.calls.len() + i] == (Called {
                    function: "cr_cleanup_run_scope"@,
                    subject: Datum::Pointer(stack(view)),
                    rest: ", "@ + text::dec(scopes[i].0 as nat) + "u"@,
                })
        }),
    decreases n,
{
    broadcast use {c_meaning::run_then, c_meaning::run_nothing};

    if n > 0 {
        exited_scopes_are_cleaned_up(view, scopes, n - 1, machine, world);
        let r = c_meaning::run(scope_code(view, scopes, n - 1), machine, world);
        let end = c_meaning::run(scope_code(view, scopes, n), machine, world);
        assert(end.machine.calls == r.machine.calls.push(
            Called {
                function: "cr_cleanup_run_scope"@,
                subject: Datum::Pointer(stack(view)),
                rest: ", "@ + text::dec(scopes[n - 1].0 as nat) + "u"@,
            },
        ));
        assert(end.machine.calls.take(machine.calls.len() as int) =~= r.machine.calls.take(
            machine.calls.len() as int,
        ));
    } else {
        assert(machine.calls.take(machine.calls.len() as int) =~= machine.calls);
    }
}

/// Assignments reach what they name: the destination gets the awaited result,
/// the value of the expression, or the slot gets the value of the expression.
/// Nothing else changes, and no call is made. An expression on its own is
/// evaluated once.
pub proof fn assignments_reach_their_destination(
    view: FunctionView,
    scopes: Seq<ScopeId>,
    instruction: CfgInstruction,
    machine: Machine,
    world: World,
)
    ensures
        ({
            let r = c_meaning::run(instruction_code(view, scopes, instruction), machine, world);
            let shown = |e: HirExpr| c_expression::expression_text(e, scopes, view.scene);
            let only = |place: Place, value: Datum|
                r.exit is Falls && r.machine.calls == machine.calls && (r.machine.memory)(place)
                    == value && forall|q: Place|
                    q != place ==> #[trigger] (r.machine.memory)(q) == (machine.memory)(q);
            match instruction {
                CfgInstruction::AssignAwaitResult { destination, slot, span } => only(
                    home(view, destination),
                    (machine.memory)(Place::Own(LogicalFieldId::AwaitResult(slot))),
                ),
                CfgInstruction::AssignExpression { destination, expression, span } => only(
                    home(view, destination),
                    Datum::Text(shown(expression)),
                ),
                CfgInstruction::AssignExpressionSlot { slot, ty, expression, span } => only(
                    Place::Own(LogicalFieldId::AwaitResult(slot)),
                    Datum::Text(shown(expression)),
                ),
                CfgInstruction::Evaluate(expression) => r.exit is Falls && r.machine.memory
                    == machine.memory && r.machine.calls.len() == machine.calls.len() + 1
                    && r.machine.calls.last().subject == Datum::Text(shown(expression)),
                _ => true,
            }
        }),
{
}

/// A deferred call is kept with the values that its arguments have when it is
/// registered, in their order, for its own scope, on the stack of the function.
/// If it can't be kept, a task fails and a plain function stops the program.
pub proof fn deferred_calls_are_kept(
    view: FunctionView,
    scopes: Seq<ScopeId>,
    registration: CleanupRegistration,
    helper: HelperView,
    machine: Machine,
    world: World,
)
    ensures
        ({
            let r = c_meaning::run(push_code(view, scopes, registration, helper), machine, world);
            let n = machine.calls.len();
            let kept = payload(registration);
            let pushed = machine.calls.push(
                Called {
                    function: "cr_cleanup_push"@,
                    subject: Datum::Pointer(stack(view)),
                    rest: ", "@ + text::dec(registration.scope.0 as nat) + "u, "@
                        + c_symbols::run_function(view.stem, registration.id) + ", &"@ + kept
                        + ", sizeof("@ + kept + ")"@,
                },
            );
            &&& (world.returned)(n) == c_meaning::yes() ==> {
                &&& r.exit is Falls
                &&& r.machine.calls == pushed
                &&& helper.types.len() > 0 && (view.scene.task is Some || kept != "cr_cleanups"@)
                    ==> ((r.machine.memory)(Place::Local(kept)) matches Datum::Record(values)
                    && values.len() == registration.arguments@.len() && forall|i: int|
                    0 <= i < values.len() ==> #[trigger] values[i] == c_expression::expression_text(
                        registration.arguments@[i],
                        scopes,
                        view.scene,
                    ))
            }
            &&& (world.returned)(n) != c_meaning::yes() && view.scene.task is Some ==> {
                &&& wait_laws::stopped(r, "CR_POLL_ERROR"@)
                &&& (r.machine.memory)(Place::Own(LogicalFieldId::Error)) == Datum::Failure(
                    "1002"@,
                    "cleanup allocation failed"@,
                )
                &&& r.machine.calls == wait_laws::cleaned(pushed)
            }
            &&& (world.returned)(n) != c_meaning::yes() && view.scene.task is None ==> {
                r.machine.calls.len() == n + 2 && r.machine.calls.last().function
                    == "cr_oom_abort"@
            }
        }),
{
    broadcast use {c_meaning::run_then, c_meaning::run_nothing, c_meaning::run_unless};

    let gathered = c_meaning::stored(
        machine,
        Place::Local(payload(registration)),
        Datum::Record(kept_values(view, scopes, registration, helper)),
    );
    let rest = ", "@ + text::dec(registration.scope.0 as nat) + "u, "@ + c_symbols::run_function(
        view.stem,
        registration.id,
    ) + ", &"@ + payload(registration) + ", sizeof("@ + payload(registration) + ")"@;
    let pushed = c_meaning::called(
        gathered,
        "cr_cleanup_push"@,
        Value::Address(stack(view)),
        rest,
        world,
    );
    wait_laws::failing_stops("1002"@, "cleanup allocation failed"@, pushed, world);
}

} // verus!
