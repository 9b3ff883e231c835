//! What the ends of blocks do when they run.

use vstd::prelude::*;

use crate::c_expression;
use crate::c_expression::SceneView;
use crate::c_instruction::{Emitted, FunctionView};
use crate::c_meaning;
use crate::c_meaning::{Called, Datum, Exit, Machine, Place, Statement, Value, World};
use crate::c_source::TaskView;
use crate::c_terminator;
use crate::context_layout::LogicalFieldId;
use crate::control_flow::{BasicBlock, BlockId, CfgSwitchCase, CfgTerminator, CfgValue};
use crate::semantic::{HirExpr, ScopeId};
use crate::text;
use crate::wait_code;
use crate::wait_laws;

verus! {

/// The value that a block ends with.
pub open spec fn value_code(value: CfgValue, scopes: Seq<ScopeId>, scene: SceneView) -> Value {
    match value {
        CfgValue::Expression(expression) => Value::Text(
            c_expression::expression_text(expression, scopes, scene),
        ),
        CfgValue::AwaitResult(slot) => Value::Read(Place::Own(LogicalFieldId::AwaitResult(slot))),
    }
}

/// Code that stores a value, if there is one.
pub open spec fn store_code(
    field: LogicalFieldId,
    value: Option<CfgValue>,
    scopes: Seq<ScopeId>,
    scene: SceneView,
) -> Statement {
    match value {
        Some(own) => Statement::Store(Place::Own(field), value_code(own, scopes, scene)),
        None => Statement::Nothing,
    }
}

/// The label of a block.
pub open spec fn label(block: BlockId) -> Seq<char> {
    text::dec(block.0 as nat)
}

/// The cases of a switch and their labels.
pub open spec fn case_labels(
    cases: Seq<CfgSwitchCase>,
    scopes: Seq<ScopeId>,
    scene: SceneView,
) -> Seq<(Seq<char>, Seq<char>)> {
    Seq::new(
        cases.len(),
        |i: int|
            (
                c_expression::expression_text(cases[i].value, scopes, scene),
                label(cases[i].edge.target),
            ),
    )
}

/// What the end of a block without a suspension does.
pub open spec fn end_code(view: FunctionView, block: BasicBlock) -> Statement {
    let scopes = block.scope_stack@;
    match block.terminator {
        CfgTerminator::Goto(edge) => Statement::Jump(label(edge.target)),
        CfgTerminator::Branch { condition, consequence, alternative } => {
            let shown = c_expression::expression_text(condition, scopes, view.scene);
            Statement::Choose(
                c_terminator::parenthesized(shown),
                shown,
                label(consequence.target),
                label(alternative.target),
            )
        },
        CfgTerminator::Switch { expression, cases, default } => Statement::Select(
            c_expression::expression_text(expression, scopes, view.scene),
            case_labels(cases@, scopes, view.scene),
            label(default.target),
        ),
        CfgTerminator::Yield { value, continuation, span } => c_meaning::both(
            store_code(LogicalFieldId::Yielded, value, scopes, view.scene),
            c_meaning::both(
                Statement::Store(
                    Place::Own(LogicalFieldId::State),
                    Value::Text(
                        text::dec(
                            c_terminator::state_of(view.function.coroutine, continuation.target),
                        ) + "u"@,
                    ),
                ),
                wait_code::end_with("CR_POLL_YIELDED"@),
            ),
        ),
        CfgTerminator::Return { value, span } => if view.scene.task is Some {
            c_meaning::both(
                store_code(LogicalFieldId::Result, value, scopes, view.scene),
                c_meaning::both(
                    Statement::Call(
                        "cr_cleanup_stack_destroy"@,
                        Value::Address(Place::Own(LogicalFieldId::Cleanups)),
                        ""@,
                    ),
                    c_meaning::both(
                        Statement::Store(
                            Place::Own(LogicalFieldId::Status),
                            Value::Text("CR_POLL_READY"@),
                        ),
                        c_meaning::both(
                            Statement::Store(
                                Place::Own(LogicalFieldId::State),
                                Value::Text("UINT32_MAX"@),
                            ),
                            Statement::Return(Value::Read(Place::Own(LogicalFieldId::Status))),
                        ),
                    ),
                ),
            )
        } else {
            c_meaning::both(
                Statement::Call(
                    "cr_cleanup_stack_destroy"@,
                    Value::Address(Place::Local("cr_cleanups"@)),
                    ""@,
                ),
                match value {
                    Some(own) => Statement::Return(value_code(own, scopes, view.scene)),
                    None => Statement::Leave,
                },
            )
        },
        CfgTerminator::Unreachable => Statement::Abort,
        _ => Statement::Nothing,
    }
}

/// Whether a block ends in C that isn't a suspension, and can be written.
pub open spec fn ends_plainly(view: FunctionView, block: BasicBlock) -> bool {
    match block.terminator {
        CfgTerminator::Suspend { edge, operand, slot, continuation, span } => false,
        CfgTerminator::Yield { value, continuation, span } => view.scene.task is Some,
        CfgTerminator::Open => false,
        CfgTerminator::Return { value, span } => view.scene.task is None ==> !(value matches Some(
            CfgValue::AwaitResult(slot),
        )),
        _ => true,
    }
}

/// How the fixed parts of the C are made up.
proof fn ending_literals()
    ensures
        "    goto cr_b"@ == "    "@ + "goto cr_b"@,
        "    if "@ == "    "@ + "if "@,
        "    switch ("@ == "    "@ + "switch ("@,
        "    default: goto cr_b"@ == "    "@ + "default: goto cr_b"@,
        ";\n    }\n"@ == ";\n"@ + "    "@ + "}\n"@,
        "    abort();\n"@ == "    "@ + "abort();\n"@,
        "    cr_cleanup_stack_destroy(&"@ == "    "@ + "cr_cleanup_stack_destroy"@ + "("@ + "&"@,
        ");\n    "@ == ")"@ + ";\n"@ + "    "@,
        " = CR_POLL_READY;\n    "@ == " = "@ + "CR_POLL_READY"@ + ";\n"@ + "    "@,
        " = UINT32_MAX;\n    return "@ == " = "@ + "UINT32_MAX"@ + ";\n"@ + "    "@ + "return "@,
        "    cr_cleanup_stack_destroy(&cr_cleanups);\n"@ == "    "@ + "cr_cleanup_stack_destroy"@ + "("@ + "&"@ + "cr_cleanups"@ + ")"@ + ";\n"@,
        "    return "@ == "    "@ + "return "@,
        "    return;\n"@ == "    "@ + "return"@ + ";\n"@,
        "u;\n    "@ == "u"@ + ";\n"@ + "    "@,
        " = CR_POLL_YIELDED;\n    return "@ == " = "@ + "CR_POLL_YIELDED"@ + ";\n"@ + "    "@ + "return "@,
{
    assert("    goto cr_b"@ =~= "    "@ + "goto cr_b"@) by {
        reveal_strlit("    goto cr_b");
        reveal_strlit("    ");
        reveal_strlit("goto cr_b");
    }
    assert("    if "@ =~= "    "@ + "if "@) by {
        reveal_strlit("    if ");
        reveal_strlit("    ");
        reveal_strlit("if ");
    }
    assert("    switch ("@ =~= "    "@ + "switch ("@) by {
        reveal_strlit("    switch (");
        reveal_strlit("    ");
        reveal_strlit("switch (");
    }
    assert("    default: goto cr_b"@ =~= "    "@ + "default: goto cr_b"@) by {
        reveal_strlit("    default: goto cr_b");
        reveal_strlit("    ");
        reveal_strlit("default: goto cr_b");
    }
    assert(";\n    }\n"@ =~= ";\n"@ + "    "@ + "}\n"@) by {
        reveal_strlit(";\n    }\n");
        reveal_strlit(";\n");
        reveal_strlit("    ");
        reveal_strlit("}\n");
    }
    assert("    abort();\n"@ =~= "    "@ + "abort();\n"@) by {
        reveal_strlit("    abort();\n");
        reveal_strlit("    ");
        reveal_strlit("abort();\n");
    }
    assert("    cr_cleanup_stack_destroy(&"@ =~= "    "@ + "cr_cleanup_stack_destroy"@ + "("@ + "&"@) by {
        reveal_strlit("    cr_cleanup_stack_destroy(&");
        reveal_strlit("    ");
        reveal_strlit("cr_cleanup_stack_destroy");
        reveal_strlit("(");
        reveal_strlit("&");
    }
    assert(");\n    "@ =~= ")"@ + ";\n"@ + "    "@) by {
        reveal_strlit(");\n    ");
        reveal_strlit(")");
        reveal_strlit(";\n");
        reveal_strlit("    ");
    }
    assert(" = CR_POLL_READY;\n    "@ =~= " = "@ + "CR_POLL_READY"@ + ";\n"@ + "    "@) by {
        reveal_strlit(" = CR_POLL_READY;\n    ");
        reveal_strlit(" = ");
        reveal_strlit("CR_POLL_READY");
        reveal_strlit(";\n");
        reveal_strlit("    ");
    }
    assert(" = UINT32_MAX;\n    return "@ =~= " = "@ + "UINT32_MAX"@ + ";\n"@ + "    "@ + "return "@) by {
        reveal_strlit(" = UINT32_MAX;\n    return ");
        reveal_strlit(" = ");
        reveal_strlit("UINT32_MAX");
        reveal_strlit(";\n");
        reveal_strlit("    ");
        reveal_strlit("return ");
    }
    assert("    cr_cleanup_stack_destroy(&cr_cleanups);\n"@ =~= "    "@ + "cr_cleanup_stack_destroy"@ + "("@ + "&"@ + "cr_cleanups"@ + ")"@ + ";\n"@) by {
        reveal_strlit("    cr_cleanup_stack_destroy(&cr_cleanups);\n");
        reveal_strlit("    ");
        reveal_strlit("cr_cleanup_stack_destroy");
        reveal_strlit("(");
        reveal_strlit("&");
        reveal_strlit("cr_cleanups");
        reveal_strlit(")");
        reveal_strlit(";\n");
    }
    assert("    return "@ =~= "    "@ + "return "@) by {
        reveal_strlit("    return ");
        reveal_strlit("    ");
        reveal_strlit("return ");
    }
    assert("    return;\n"@ =~= "    "@ + "return"@ + ";\n"@) by {
        reveal_strlit("    return;\n");
        reveal_strlit("    ");
        reveal_strlit("return");
        reveal_strlit(";\n");
    }
    assert("u;\n    "@ =~= "u"@ + ";\n"@ + "    "@) by {
        reveal_strlit("u;\n    ");
        reveal_strlit("u");
        reveal_strlit(";\n");
        reveal_strlit("    ");
    }
    assert(" = CR_POLL_YIELDED;\n    return "@ =~= " = "@ + "CR_POLL_YIELDED"@ + ";\n"@ + "    "@ + "return "@) by {
        reveal_strlit(" = CR_POLL_YIELDED;\n    return ");
        reveal_strlit(" = ");
        reveal_strlit("CR_POLL_YIELDED");
        reveal_strlit(";\n");
        reveal_strlit("    ");
        reveal_strlit("return ");
    }
}

proof fn cases_are_written(
    out: Seq<char>,
    view: FunctionView,
    scopes: Seq<ScopeId>,
    cases: Seq<CfgSwitchCase>,
    n: int,
)
    requires
        n <= cases.len(),
    ensures
        c_meaning::same(
            c_terminator::cases_text(out, view, scopes, cases, n),
            c_meaning::cases_text(out, case_labels(cases, scopes, view.scene), n),
        ),
    decreases n,
{
    if n > 0 {
        cases_are_written(out, view, scopes, cases, n - 1);
    }
}

proof fn return_is_written(emitted: Emitted, view: FunctionView, block: BasicBlock, task: TaskView)
    requires
        block.terminator is Return,
        ends_plainly(view, block),
        view.scene.task is Some ==> view.scene.task == Some(task),
    ensures
        c_meaning::same(
            c_terminator::terminator_text(emitted, view, block).out,
            c_meaning::written(emitted.out, end_code(view, block), task, "    "@),
        ),
{
    broadcast use {
        c_meaning::joined,
        c_meaning::nothing_behind,
        c_meaning::written_then,
        c_meaning::written_nothing,
    };

    ending_literals();
}

proof fn yield_is_written(emitted: Emitted, view: FunctionView, block: BasicBlock, task: TaskView)
    requires
        block.terminator is Yield,
        view.scene.task == Some(task),
    ensures
        c_meaning::same(
            c_terminator::terminator_text(emitted, view, block).out,
            c_meaning::written(emitted.out, end_code(view, block), task, "    "@),
        ),
{
    broadcast use {
        c_meaning::joined,
        c_meaning::nothing_behind,
        c_meaning::written_then,
        c_meaning::written_nothing,
    };

    ending_literals();
}

/// The C at the end of a block is that of its statements. It adds no error.
pub proof fn ends_are_written(emitted: Emitted, view: FunctionView, block: BasicBlock, task: TaskView)
    requires
        ends_plainly(view, block),
        view.scene.task is Some ==> view.scene.task == Some(task),
    ensures
        c_terminator::terminator_text(emitted, view, block).problems == emitted.problems,
        c_meaning::same(
            c_terminator::terminator_text(emitted, view, block).out,
            c_meaning::written(emitted.out, end_code(view, block), task, "    "@),
        ),
{
    match block.terminator {
        CfgTerminator::Return { value, span } => {
            return_is_written(emitted, view, block, task);
        },
        CfgTerminator::Yield { value, continuation, span } => {
            yield_is_written(emitted, view, block, task);
        },
        CfgTerminator::Switch { expression, cases, default } => {
            broadcast use c_meaning::joined;

            ending_literals();
            cases_are_written(
                emitted.out + "    switch ("@ + c_expression::expression_text(
                    expression,
                    block.scope_stack@,
                    view.scene,
                ) + ") {\n"@,
                view,
                block.scope_stack@,
                cases@,
                cases@.len() as int,
            );
            assert(case_labels(cases@, block.scope_stack@, view.scene).len() == cases@.len());
        },
        _ => {
            broadcast use c_meaning::joined;

            ending_literals();
        },
    }
}

/// The numeral of a number belongs to no other.
pub proof fn numerals_differ(a: nat, b: nat)
    ensures
        text::dec(a) == text::dec(b) <==> a == b,
    decreases a,
{
    if text::dec(a) == text::dec(b) {
        assert(text::dec(a).len() == text::dec(b).len());
        if a >= 10 {
            assert(text::dec(a / 10).len() >= 1);
            assert(text::dec(a).len() >= 2);
        }
        if b >= 10 {
            assert(text::dec(b / 10).len() >= 1);
            assert(text::dec(b).len() >= 2);
        }
        assert(text::dec(a).last() == text::dec(b).last());
        if a >= 10 {
            assert(text::dec(a).drop_last() =~= text::dec(a / 10));
            assert(text::dec(b).drop_last() =~= text::dec(b / 10));
            numerals_differ(a / 10, b / 10);
        }
    }
}

/// Where a switch goes: with a case whose value the expression has, or with
/// the default if there is none.
proof fn selection_is_found(
    expression: Seq<char>,
    cases: Seq<(Seq<char>, Seq<char>)>,
    other: Seq<char>,
    world: World,
    i: int,
)
    requires
        0 <= i <= cases.len(),
    ensures
        ({
            let r = c_meaning::selected(expression, cases, other, world, i);
            ||| r == other && forall|k: int|
                i <= k < cases.len() ==> !(world.equal)(expression, #[trigger] cases[k].0)
            ||| exists|k: int|
                i <= k < cases.len() && (world.equal)(expression, #[trigger] cases[k].0) && r
                    == cases[k].1 && forall|h: int|
                    i <= h < k ==> !(world.equal)(expression, #[trigger] cases[h].0)
        }),
    decreases cases.len() - i,
{
    if i < cases.len() && !(world.equal)(expression, cases[i].0) {
        selection_is_found(expression, cases, other, world, i + 1);
    }
}

/// Control follows the graph. A block that ends in a jump goes to its target. A
/// block that ends in a branch goes to the consequence if the condition holds,
/// and to the alternative if it doesn't. A block that ends in a switch goes to
/// the target of the first case whose value the expression has, and to the
/// default if it has none of them. No label is that of two blocks.
pub proof fn control_follows_the_graph(
    view: FunctionView,
    block: BasicBlock,
    machine: Machine,
    world: World,
)
    requires
        ends_plainly(view, block),
    ensures
        ({
            let r = c_meaning::run(end_code(view, block), machine, world);
            let shown = |e: HirExpr| c_expression::expression_text(e, block.scope_stack@, view.scene);
            let goes_to = |target: BlockId| r.machine == machine && r.exit == Exit::Jumps(label(target));
            match block.terminator {
                CfgTerminator::Goto(edge) => goes_to(edge.target),
                CfgTerminator::Branch { condition, consequence, alternative } => {
                    &&& (world.truth)(shown(condition)) ==> goes_to(consequence.target)
                    &&& !(world.truth)(shown(condition)) ==> goes_to(alternative.target)
                },
                CfgTerminator::Switch { expression, cases, default } => {
                    ||| goes_to(default.target) && forall|k: int|
                        0 <= k < cases@.len() ==> !(world.equal)(
                            shown(expression),
                            shown(#[trigger] cases@[k].value),
                        )
                    ||| exists|k: int|
                        0 <= k < cases@.len() && (world.equal)(
                            shown(expression),
                            shown(#[trigger] cases@[k].value),
                        ) && goes_to(cases@[k].edge.target) && forall|h: int|
                            0 <= h < k ==> !(world.equal)(
                                shown(expression),
                                shown(#[trigger] cases@[h].value),
                            )
                },
                CfgTerminator::Unreachable => r.exit is Aborts,
                _ => !(r.exit is Jumps) && !(r.exit is Falls),
            }
        }),
        forall|a: BlockId, b: BlockId| #[trigger] label(a) == #[trigger] label(b) ==> a == b,
{
    broadcast use {c_meaning::run_then, c_meaning::run_nothing};

    assert forall|a: BlockId, b: BlockId| #[trigger] label(a) == #[trigger] label(b) implies a
        == b by {
        numerals_differ(a.0 as nat, b.0 as nat);
    }
    if let CfgTerminator::Switch { expression, cases, default } = block.terminator {
        let labels = case_labels(cases@, block.scope_stack@, view.scene);
        let shown = c_expression::expression_text(expression, block.scope_stack@, view.scene);
        selection_is_found(shown, labels, label(default.target), world, 0);
        assert forall|k: int| 0 <= k < cases@.len() implies (#[trigger] cases@[k].value,
            label(cases@[k].edge.target)) == (cases@[k].value, labels[k].1) by {
        }
        let r = c_meaning::selected(shown, labels, label(default.target), world, 0);
        let e = |k: int|
            c_expression::expression_text(cases@[k].value, block.scope_stack@, view.scene);
        if exists|k: int|
            0 <= k < labels.len() && (world.equal)(shown, #[trigger] labels[k].0) && r
                == labels[k].1 && forall|h: int|
                0 <= h < k ==> !(world.equal)(shown, #[trigger] labels[h].0) {
            let k = choose|k: int|
                0 <= k < labels.len() && (world.equal)(shown, #[trigger] labels[k].0) && r
                    == labels[k].1 && forall|h: int|
                    0 <= h < k ==> !(world.equal)(shown, #[trigger] labels[h].0);
            assert(labels[k].0 == c_expression::expression_text(
                cases@[k].value,
                block.scope_stack@,
                view.scene,
            ));
            assert forall|h: int| 0 <= h < k implies !(world.equal)(
                shown,
                c_expression::expression_text(
                    #[trigger] cases@[h].value,
                    block.scope_stack@,
                    view.scene,
                ),
            ) by {
                assert(!(world.equal)(shown, labels[h].0));
            }
        } else {
            assert forall|k: int| 0 <= k < cases@.len() implies !(world.equal)(
                shown,
                c_expression::expression_text(
                    #[trigger] cases@[k].value,
                    block.scope_stack@,
                    view.scene,
                ),
            ) by {
                assert(!(world.equal)(shown, labels[k].0));
            }
        }
    }
}

/// The status tells how a task has stopped. A yield leaves its value, the state
/// of the block to go on with and the status of a yield, and makes no call. A
/// return leaves its value and the status of a finished task, in no state to go
/// on with, and the deferred calls are made. A plain function makes its deferred
/// calls and returns its value.
pub proof fn statuses_tell_how_tasks_stop(
    view: FunctionView,
    block: BasicBlock,
    machine: Machine,
    world: World,
)
    ensures
        ({
            let r = c_meaning::run(end_code(view, block), machine, world);
            let own = |field: LogicalFieldId| (r.machine.memory)(Place::Own(field));
            let worth = |value: CfgValue|
                match value {
                    CfgValue::Expression(e) => Datum::Text(
                        c_expression::expression_text(e, block.scope_stack@, view.scene),
                    ),
                    CfgValue::AwaitResult(slot) => (machine.memory)(
                        Place::Own(LogicalFieldId::AwaitResult(slot)),
                    ),
                };
            match block.terminator {
                CfgTerminator::Yield { value, continuation, span } => {
                    &&& wait_laws::stopped(r, "CR_POLL_YIELDED"@)
                    &&& c_meaning::numeral(
                        own(LogicalFieldId::State),
                        c_terminator::state_of(view.function.coroutine, continuation.target),
                    )
                    &&& value matches Some(v) ==> own(LogicalFieldId::Yielded) == worth(v)
                    &&& r.machine.calls == machine.calls
                },
                CfgTerminator::Return { value, span } => if view.scene.task is Some {
                    &&& wait_laws::stopped(r, "CR_POLL_READY"@)
                    &&& own(LogicalFieldId::State) == Datum::Text("UINT32_MAX"@)
                    &&& value matches Some(v) ==> own(LogicalFieldId::Result) == worth(v)
                    &&& r.machine.calls == machine.calls.push(
                        Called {
                            function: "cr_cleanup_stack_destroy"@,
                            subject: Datum::Pointer(Place::Own(LogicalFieldId::Cleanups)),
                            rest: ""@,
                        },
                    )
                } else {
                    &&& r.machine.calls == machine.calls.push(
                        Called {
                            function: "cr_cleanup_stack_destroy"@,
                            subject: Datum::Pointer(Place::Local("cr_cleanups"@)),
                            rest: ""@,
                        },
                    )
                    &&& r.exit == match value {
                        Some(v) => Exit::Returns(worth(v)),
                        None => Exit::Leaves,
                    }
                },
                _ => !wait_laws::stopped(r, "CR_POLL_YIELDED"@) && !wait_laws::stopped(
                    r,
                    "CR_POLL_READY"@,
                ),
            }
        }),
{
    broadcast use {c_meaning::run_then, c_meaning::run_nothing};

    assert forall|n: nat| c_meaning::numeral(Datum::Text(#[trigger] text::dec(n) + "u"@), n) by {
    }
}

} // verus!
