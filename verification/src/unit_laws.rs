//! What the C code of a unit is put together from.

use vstd::prelude::*;

use crate::c_emitter;
use crate::c_emitter::Source;
use crate::c_function_text;
use crate::c_meaning;
use crate::c_static_plan::{
    CalleeView, ChildPlanView, ChildTargetView, FunctionPlanView, IslandView,
};
use crate::context_layout::LayoutView;
use crate::context_types;
use crate::liveness::LivenessFunction;
use crate::order;
use crate::symbol_index::{AsyncParameter, FunctionId};
use crate::syntax::DiagnosticView;
use crate::text;

verus! {

/// The plan of a function is one that starts where the function does, if there is
/// one at all.
pub proof fn plans_belong_to_their_functions(
    functions: Seq<(FunctionId, FunctionPlanView)>,
    start: usize,
    n: int,
)
    requires
        0 <= n <= functions.len(),
    ensures
        match c_emitter::plan_last(functions, start, n) {
            Some(plan) => plan.source_start == start && exists|i: int|
                0 <= i < n && (#[trigger] functions[i]).1 == plan && forall|j: int|
                    i < j < n ==> (#[trigger] functions[j]).1.source_start != start,
            None => forall|i: int| 0 <= i < n ==> (#[trigger] functions[i]).1.source_start != start,
        },
    decreases n,
{
    if n > 0 {
        plans_belong_to_their_functions(functions, start, n - 1);
        if functions[n - 1].1.source_start == start {
            assert(functions[n - 1].1 == functions[n - 1].1);
        } else if let Some(plan) = c_emitter::plan_last(functions, start, n - 1) {
            let i = choose|i: int|
                0 <= i < n - 1 && (#[trigger] functions[i]).1 == plan && forall|j: int|
                    i < j < n - 1 ==> (#[trigger] functions[j]).1.source_start != start;
            assert(functions[i].1 == plan);
        }
    }
}

/// The children of a plan are those of all its functions.
pub proof fn children_are_those_of_all_functions(
    functions: Seq<(FunctionId, FunctionPlanView)>,
    n: int,
    child: ChildPlanView,
)
    requires
        0 <= n <= functions.len(),
    ensures
        c_emitter::all_children(functions, n).contains(child) <==> exists|f: int, i: int|
            0 <= f < n && 0 <= i < functions[f].1.children.len() && (
            #[trigger] functions[f].1.children[i]).1 == child,
    decreases n,
{
    if n > 0 {
        children_are_those_of_all_functions(functions, n - 1, child);
        let before = c_emitter::all_children(functions, n - 1);
        let own = functions[n - 1].1.children;
        let last = Seq::new(own.len(), |i: int| own[i].1);
        let after = c_emitter::all_children(functions, n);
        assert(after == before + last);
        if before.contains(child) {
            let p = choose|p: int| 0 <= p < before.len() && before[p] == child;
            assert(after[p] == child);
        }
        if exists|f: int, i: int|
            0 <= f < n && 0 <= i < functions[f].1.children.len() && (
            #[trigger] functions[f].1.children[i]).1 == child {
            let (f, i) = choose|f: int, i: int|
                0 <= f < n && 0 <= i < functions[f].1.children.len() && (
                #[trigger] functions[f].1.children[i]).1 == child;
            if f == n - 1 {
                assert(last[i] == child);
                assert(after[before.len() + i] == child);
            } else {
                assert(functions[f].1.children[i].1 == child);
            }
        }
        if after.contains(child) {
            let p = choose|p: int| 0 <= p < after.len() && after[p] == child;
            if p < before.len() {
                assert(before[p] == child);
            } else {
                assert(functions[n - 1].1.children[p - before.len()].1 == child);
            }
        }
    }
}

/// The function that starts at a place is the first asynchronous one that does.
pub proof fn functions_are_found_where_they_start(
    functions: Seq<LivenessFunction>,
    start: usize,
    from: int,
)
    requires
        0 <= from <= functions.len(),
    ensures
        match c_emitter::async_at(functions, start, from) {
            Some(i) => from <= i < functions.len() && functions[i].coroutine.cfg.is_async
                && functions[i].coroutine.cfg.span.start_byte == start && forall|j: int|
                from <= j < i && (#[trigger] functions[j]).coroutine.cfg.is_async
                    ==> functions[j].coroutine.cfg.span.start_byte != start,
            None => forall|j: int|
                from <= j < functions.len() && (#[trigger] functions[j]).coroutine.cfg.is_async
                    ==> functions[j].coroutine.cfg.span.start_byte != start,
        },
    decreases functions.len() - from,
{
    if from < functions.len() {
        functions_are_found_where_they_start(functions, start, from + 1);
    }
}

/// Whether a child is one of a known function that an island needs.
pub open spec fn needs_callee(
    functions: Seq<(FunctionId, FunctionPlanView)>,
    island: IslandView,
    child: ChildPlanView,
    callee: CalleeView,
) -> bool {
    child.target == ChildTargetView::Static(callee) && c_emitter::island_requires(
        functions,
        island,
        callee.function,
    )
}

/// An island declares the functions that its layouts need and that a child calls,
/// and no others: each once, as the first child that calls it describes it.
pub proof fn islands_declare_what_they_need(
    functions: Seq<(FunctionId, FunctionPlanView)>,
    island: IslandView,
    children: Seq<ChildPlanView>,
    n: int,
    id: FunctionId,
)
    requires
        0 <= n <= children.len(),
    ensures
        order::ascending(c_emitter::required_callees(functions, island, children, n)),
        match order::lookup(c_emitter::required_callees(functions, island, children, n), id) {
            Some(callee) => callee.function == id && exists|i: int|
                0 <= i < n && needs_callee(functions, island, #[trigger] children[i], callee)
                    && forall|j: int|
                    0 <= j < i && (#[trigger] children[j]).target is Static
                        ==> children[j].target->Static_0.function != id,
            None => forall|i: int|
                0 <= i < n && (#[trigger] children[i]).target is Static
                    && children[i].target->Static_0.function == id
                    ==> !c_emitter::island_requires(functions, island, id),
        },
    decreases n,
{
    if n > 0 {
        islands_declare_what_they_need(functions, island, children, n - 1, id);
        let before = c_emitter::required_callees(functions, island, children, n - 1);
        let child = children[n - 1];
        if let ChildTargetView::Static(callee) = child.target {
            order::put_ascending(before, callee.function, callee, id);
            if callee.function == id && c_emitter::island_requires(functions, island, id)
                && order::lookup(before, id) is None {
                assert(needs_callee(functions, island, children[n - 1], callee));
            }
        }
        if let Some(own) = order::lookup(before, id) {
            let i = choose|i: int|
                0 <= i < n - 1 && needs_callee(functions, island, #[trigger] children[i], own)
                    && forall|j: int|
                    0 <= j < i && (#[trigger] children[j]).target is Static
                        ==> children[j].target->Static_0.function != id;
            assert(needs_callee(functions, island, children[i], own));
        }
    }
}

/// An insertion is added behind what stands at its place, and leaves every other
/// place as it was.
pub proof fn insertions_keep_what_was_there(
    insertions: Seq<(usize, Seq<char>)>,
    at: usize,
    added: Seq<char>,
    other: usize,
)
    requires
        order::ascending(insertions),
    ensures
        order::ascending(c_emitter::with_insertion(insertions, at, added)),
        other != at ==> order::lookup(c_emitter::with_insertion(insertions, at, added), other)
            == order::lookup(insertions, other),
        match order::lookup(insertions, at) {
            Some(before) => order::lookup(c_emitter::with_insertion(insertions, at, added), at)
                == Some(before + added),
            None => order::lookup(c_emitter::with_insertion(insertions, at, added), at) == Some(
                added,
            ),
        },
{
    let value = match order::lookup(insertions, at) {
        Some(before) => before + added,
        None => added,
    };
    order::put_ascending(insertions, at, value, other);
    order::put_ascending(insertions, at, value, at);
}

proof fn plain_insertions_stay(
    unit: Seq<LivenessFunction>,
    layouts: Seq<(usize, LayoutView)>,
    n: int,
    k: int,
)
    requires
        0 <= n <= unit.len(),
        0 <= k < unit.len(),
        unit[k].coroutine.cfg.is_async,
        forall|i: int|
            0 <= i < unit.len() && i != k && (#[trigger] unit[i]).coroutine.cfg.is_async
                ==> unit[i].coroutine.cfg.span.start_byte != unit[k].coroutine.cfg.span.start_byte,
    ensures
        order::ascending(c_emitter::plain_insertions(unit, layouts, n)),
        order::lookup(
            c_emitter::plain_insertions(unit, layouts, n),
            unit[k].coroutine.cfg.span.start_byte,
        ) == if k < n {
            Some(c_emitter::task_type_text(Seq::empty(), unit[k], layouts))
        } else {
            None
        },
    decreases n,
{
    if n > 0 {
        plain_insertions_stay(unit, layouts, n - 1, k);
        if unit[n - 1].coroutine.cfg.is_async {
            insertions_keep_what_was_there(
                c_emitter::plain_insertions(unit, layouts, n - 1),
                unit[n - 1].coroutine.cfg.span.start_byte,
                c_emitter::task_type_text(Seq::empty(), unit[n - 1], layouts),
                unit[k].coroutine.cfg.span.start_byte,
            );
        }
    }
}

/// Without a plan, the task type of every asynchronous function stands before the
/// function.
pub proof fn task_types_stand_before_their_functions(
    unit: Seq<LivenessFunction>,
    layouts: Seq<(usize, LayoutView)>,
    k: int,
)
    requires
        0 <= k < unit.len(),
        unit[k].coroutine.cfg.is_async,
        forall|i: int|
            0 <= i < unit.len() && i != k && (#[trigger] unit[i]).coroutine.cfg.is_async
                ==> unit[i].coroutine.cfg.span.start_byte != unit[k].coroutine.cfg.span.start_byte,
    ensures
        order::lookup(
            c_emitter::insertions_of(None, unit, layouts),
            unit[k].coroutine.cfg.span.start_byte,
        ) == Some(c_emitter::task_type_text(Seq::empty(), unit[k], layouts)),
{
    plain_insertions_stay(unit, layouts, unit.len() as int, k);
}

/// What an island holds is inserted at its anchor, where no other island has the
/// same one.
pub proof fn islands_stand_at_their_anchors(
    functions: Seq<(FunctionId, FunctionPlanView)>,
    unit: Seq<LivenessFunction>,
    layouts: Seq<(usize, LayoutView)>,
    islands: Seq<IslandView>,
    n: int,
    k: int,
)
    requires
        0 <= n <= islands.len(),
        0 <= k < islands.len(),
        forall|i: int|
            0 <= i < islands.len() && i != k ==> (#[trigger] islands[i]).anchor
                != islands[k].anchor,
    ensures
        order::ascending(c_emitter::island_insertions(functions, unit, layouts, islands, n)),
        order::lookup(
            c_emitter::island_insertions(functions, unit, layouts, islands, n),
            islands[k].anchor,
        ) == if k < n {
            Some(c_emitter::island_text(functions, unit, layouts, islands[k]))
        } else {
            None
        },
    decreases n,
{
    if n > 0 {
        islands_stand_at_their_anchors(functions, unit, layouts, islands, n - 1, k);
        insertions_keep_what_was_there(
            c_emitter::island_insertions(functions, unit, layouts, islands, n - 1),
            islands[n - 1].anchor,
            c_emitter::island_text(functions, unit, layouts, islands[n - 1]),
            islands[k].anchor,
        );
    }
}

/// The replacements of a unit stand for its functions, in order, from where each
/// starts to where it ends. What is inserted before a function stands before its
/// code, and before the first function only that starts there.
pub proof fn functions_are_replaced_where_they_stand(
    source: Source<'_>,
    problems: Seq<DiagnosticView>,
    n: int,
    k: int,
)
    requires
        0 <= k < n <= source.unit.len(),
    ensures
        ({
            let list = c_emitter::replacements_of(source, problems, n).list;
            let function = source.unit[k];
            let code = c_emitter::function_text(
                source,
                c_emitter::replacements_of(source, problems, k).problems,
                k,
            ).out;
            let inserted = order::lookup(
                c_emitter::insertions_of(source.plan, source.unit, source.layouts),
                function.coroutine.cfg.span.start_byte,
            );
            let first = forall|i: int|
                0 <= i < k ==> (#[trigger] source.unit[i]).coroutine.cfg.span.start_byte
                    != function.coroutine.cfg.span.start_byte;
            &&& list.len() == n
            &&& list[k].start == function.coroutine.cfg.span.start_byte
            &&& list[k].end == function.coroutine.cfg.span.end_byte
            &&& list[k].body == c_emitter::with_generated_names(
                if first && inserted is Some {
                    inserted->0 + code
                } else {
                    code
                },
            )
        }),
    decreases n,
{
    if k < n - 1 {
        functions_are_replaced_where_they_stand(source, problems, n - 1, k);
    } else {
        replacements_are_counted(source, problems, n);
        let start = source.unit[k].coroutine.cfg.span.start_byte;
        let first = forall|i: int|
            0 <= i < k ==> (#[trigger] source.unit[i]).coroutine.cfg.span.start_byte != start;
        assert(first == !c_emitter::starts_before(source.unit, start, k));
        let code = c_emitter::function_text(
            source,
            c_emitter::replacements_of(source, problems, k).problems,
            k,
        ).out;
        assert(Seq::<char>::empty() + code =~= code);
    }
}

proof fn replacements_are_counted(source: Source<'_>, problems: Seq<DiagnosticView>, n: int)
    requires
        0 <= n,
    ensures
        c_emitter::replacements_of(source, problems, n).list.len() == n,
    decreases n,
{
    if n > 0 {
        replacements_are_counted(source, problems, n - 1);
    }
}

/// Source with functions refers to the runtime, and source without is left as it
/// starts.
pub proof fn runtimes_are_included(original: Seq<char>)
    ensures
        text::occurs(c_emitter::source_head(original, true) + original, "cr_runtime.h"@),
        c_emitter::source_head(original, false) == Seq::<char>::empty(),
{
    let name = "cr_runtime.h"@;
    if text::occurs(original, name) {
        let i = choose|i: int| text::occurs_at(original, name, i);
        assert(Seq::<char>::empty() + original =~= original);
        assert(text::occurs_at(c_emitter::source_head(original, true) + original, name, i));
    } else {
        reveal_strlit("cr_runtime.h");
        reveal_strlit("#include \"cr_runtime.h\"\n\n");
        let head = "#include \"cr_runtime.h\"\n\n"@;
        let all = head + original;
        assert(all.subrange(10, 22) =~= name);
        assert(text::occurs_at(all, name, 10));
    }
}

/// A C prototype.
pub open spec fn prototype(
    internal: bool,
    returned: Seq<char>,
    name: Seq<char>,
    parameters: Seq<char>,
) -> Seq<char> {
    (if internal {
        "static "@
    } else {
        Seq::empty()
    }) + returned + name + "("@ + parameters + ");\n"@
}

/// A list of parameters behind another.
pub open spec fn beside(first: Seq<char>, second: Seq<char>) -> Seq<char> {
    if first.len() == 0 {
        second
    } else if second.len() == 0 {
        first
    } else {
        first + ", "@ + second
    }
}

proof fn prototype_literals()
    ensures
        "_init("@ == "_init"@ + "("@,
        "_drop("@ == "_drop"@ + "("@,
        "_create("@ == "_create"@ + "("@,
        "_poll("@ == "_poll"@ + "("@,
        "_destroy("@ == "_destroy"@ + "("@,
        "_result(const "@ == "_result"@ + "("@ + "const "@,
        "_yielded(const "@ == "_yielded"@ + "("@ + "const "@,
        "_error(const "@ == "_error"@ + "("@ + "const "@,
        "_as_awaitable("@ == "_as_awaitable"@ + "("@,
        "_into_awaitable("@ == "_into_awaitable"@ + "("@,
        " *task);\n"@ == " *task"@ + ");\n"@,
        " *task);\n\n"@ == " *task"@ + ");\n"@ + "\n"@,
        "cr_error *out_error);\n"@ == "cr_error *out_error"@ + ");\n"@,
        " *task, const cr_poll_context *poll_context);\n"@ == " *task"@ + ", "@
            + "const cr_poll_context *poll_context"@ + ");\n"@,
        ""@ == Seq::<char>::empty(),
        " *task"@.len() > 0,
        "cr_error *out_error"@.len() > 0,
        "const cr_poll_context *poll_context"@.len() > 0,
{
    reveal_strlit("_init(");
    reveal_strlit("_init");
    reveal_strlit("(");
    reveal_strlit("_drop(");
    reveal_strlit("_drop");
    reveal_strlit("_create(");
    reveal_strlit("_create");
    reveal_strlit("_poll(");
    reveal_strlit("_poll");
    reveal_strlit("_destroy(");
    reveal_strlit("_destroy");
    reveal_strlit("_result(const ");
    reveal_strlit("_result");
    reveal_strlit("const ");
    reveal_strlit("_yielded(const ");
    reveal_strlit("_yielded");
    reveal_strlit("_error(const ");
    reveal_strlit("_error");
    reveal_strlit("_as_awaitable(");
    reveal_strlit("_as_awaitable");
    reveal_strlit("_into_awaitable(");
    reveal_strlit("_into_awaitable");
    reveal_strlit(" *task);\n");
    reveal_strlit(" *task");
    reveal_strlit(");\n");
    reveal_strlit(" *task);\n\n");
    reveal_strlit("\n");
    reveal_strlit("cr_error *out_error);\n");
    reveal_strlit("cr_error *out_error");
    reveal_strlit(" *task, const cr_poll_context *poll_context);\n");
    reveal_strlit(", ");
    reveal_strlit("const cr_poll_context *poll_context");
    reveal_strlit("");
    assert("_init("@ =~= "_init"@ + "("@);
    assert("_drop("@ =~= "_drop"@ + "("@);
    assert("_create("@ =~= "_create"@ + "("@);
    assert("_poll("@ =~= "_poll"@ + "("@);
    assert("_destroy("@ =~= "_destroy"@ + "("@);
    assert("_result(const "@ =~= "_result"@ + "("@ + "const "@);
    assert("_yielded(const "@ =~= "_yielded"@ + "("@ + "const "@);
    assert("_error(const "@ =~= "_error"@ + "("@ + "const "@);
    assert("_as_awaitable("@ =~= "_as_awaitable"@ + "("@);
    assert("_into_awaitable("@ =~= "_into_awaitable"@ + "("@);
    assert(" *task);\n"@ =~= " *task"@ + ");\n"@);
    assert(" *task);\n\n"@ =~= " *task"@ + ");\n"@ + "\n"@);
    assert("cr_error *out_error);\n"@ =~= "cr_error *out_error"@ + ");\n"@);
    assert(" *task, const cr_poll_context *poll_context);\n"@ =~= " *task"@ + ", "@
        + "const cr_poll_context *poll_context"@ + ");\n"@);
    assert(""@ =~= Seq::<char>::empty());
}

/// The prototypes of a function, one behind the other.
pub open spec fn prototypes(
    stem: Seq<char>,
    task_type: Seq<char>,
    result_type: Seq<char>,
    parameters: Seq<char>,
    internal: bool,
    visible: bool,
    heap: bool,
    accessed: bool,
) -> Seq<Seq<char>> {
    let task = task_type + " *task"@;
    let valued = accessed && result_type != "void"@;
    let optional = |there: bool, piece: Seq<char>|
        if there {
            piece
        } else {
            Seq::empty()
        };
    seq![
        "typedef struct "@ + task_type + " "@ + task_type + ";\n"@,
        optional(visible, prototype(internal, "void "@, stem + "_init"@, beside(task, parameters))),
        optional(visible, prototype(internal, "void "@, stem + "_drop"@, task)),
        optional(
            heap,
            prototype(
                internal,
                task_type + " *"@,
                stem + "_create"@,
                beside(parameters, "cr_error *out_error"@),
            ),
        ),
        prototype(
            internal,
            "cr_poll_status "@,
            stem + "_poll"@,
            beside(task, "const cr_poll_context *poll_context"@),
        ),
        optional(heap, prototype(internal, "void "@, stem + "_destroy"@, task)),
        optional(
            valued,
            prototype(
                internal,
                "const "@ + result_type + " *"@,
                stem + "_result"@,
                "const "@ + task,
            ),
        ),
        optional(
            valued,
            prototype(
                internal,
                "const "@ + result_type + " *"@,
                stem + "_yielded"@,
                "const "@ + task,
            ),
        ),
        optional(
            accessed,
            prototype(internal, "const cr_error *"@, stem + "_error"@, "const "@ + task),
        ),
        optional(
            !internal,
            prototype(internal, "cr_awaitable "@, stem + "_as_awaitable"@, task),
        ),
        optional(
            !internal,
            prototype(internal, "cr_awaitable "@, stem + "_into_awaitable"@, task) + "\n"@,
        ),
    ]
}

proof fn type_is_declared(out: Seq<char>, task_type: Seq<char>)
    ensures
        out + "typedef struct "@ + task_type + " "@ + task_type + ";\n"@ == out
            + ("typedef struct "@ + task_type + " "@ + task_type + ";\n"@),
{
}

proof fn init_is_declared(
    out: Seq<char>,
    internal: bool,
    stem: Seq<char>,
    task_type: Seq<char>,
    parameters: Seq<char>,
)
    ensures
        out + (if internal { "static "@ } else { ""@ }) + "void "@ + stem + "_init("@ + task_type
            + " *task"@ + (if parameters == ""@ { ""@ } else { ", "@ }) + parameters + ");\n"@
            == out + (prototype(internal, "void "@, stem + "_init"@, beside(task_type
            + " *task"@, parameters))),
{
    prototype_literals();
    if parameters.len() == 0 {
        assert(parameters =~= ""@);
    }
    assert(out + (if internal { "static "@ } else { ""@ }) + "void "@ + stem + "_init("@
        + task_type + " *task"@ + (if parameters == ""@ { ""@ } else { ", "@ }) + parameters
        + ");\n"@ =~= out + (prototype(internal, "void "@, stem + "_init"@, beside(task_type
        + " *task"@, parameters))));
}

proof fn drop_is_declared(out: Seq<char>, internal: bool, stem: Seq<char>, task_type: Seq<char>)
    ensures
        out + (if internal { "static "@ } else { ""@ }) + "void "@ + stem + "_drop("@ + task_type
            + " *task);\n"@ == out + (prototype(internal, "void "@, stem + "_drop"@, task_type
            + " *task"@)),
{
    prototype_literals();
    assert(out + (if internal { "static "@ } else { ""@ }) + "void "@ + stem + "_drop("@
        + task_type + " *task);\n"@ =~= out + (prototype(internal, "void "@, stem
        + "_drop"@, task_type + " *task"@)));
}

proof fn create_is_declared(
    out: Seq<char>,
    internal: bool,
    stem: Seq<char>,
    task_type: Seq<char>,
    parameters: Seq<char>,
)
    ensures
        out + (if internal { "static "@ } else { ""@ }) + task_type + " *"@ + stem + "_create("@
            + parameters + (if parameters == ""@ { ""@ } else { ", "@ })
            + "cr_error *out_error);\n"@ == out + (prototype(internal, task_type + " *"@, stem
            + "_create"@, beside(parameters, "cr_error *out_error"@))),
{
    prototype_literals();
    if parameters.len() == 0 {
        assert(parameters =~= ""@);
    }
    assert(out + (if internal { "static "@ } else { ""@ }) + task_type + " *"@ + stem
        + "_create("@ + parameters + (if parameters == ""@ { ""@ } else { ", "@ })
        + "cr_error *out_error);\n"@ =~= out + (prototype(internal, task_type + " *"@, stem
        + "_create"@, beside(parameters, "cr_error *out_error"@))));
}

proof fn poll_is_declared(out: Seq<char>, internal: bool, stem: Seq<char>, task_type: Seq<char>)
    ensures
        out + (if internal { "static "@ } else { ""@ }) + "cr_poll_status "@ + stem + "_poll("@
            + task_type + " *task, const cr_poll_context *poll_context);\n"@ == out
            + (prototype(internal, "cr_poll_status "@, stem + "_poll"@, beside(task_type
            + " *task"@, "const cr_poll_context *poll_context"@))),
{
    prototype_literals();
    assert(out + (if internal { "static "@ } else { ""@ }) + "cr_poll_status "@ + stem
        + "_poll("@ + task_type + " *task, const cr_poll_context *poll_context);\n"@ =~= out
        + (prototype(internal, "cr_poll_status "@, stem + "_poll"@, beside(task_type
        + " *task"@, "const cr_poll_context *poll_context"@))));
}

proof fn destroy_is_declared(out: Seq<char>, internal: bool, stem: Seq<char>, task_type: Seq<char>)
    ensures
        out + (if internal { "static "@ } else { ""@ }) + "void "@ + stem + "_destroy("@
            + task_type + " *task);\n"@ == out + (prototype(internal, "void "@, stem
            + "_destroy"@, task_type + " *task"@)),
{
    prototype_literals();
    assert(out + (if internal { "static "@ } else { ""@ }) + "void "@ + stem + "_destroy("@
        + task_type + " *task);\n"@ =~= out + (prototype(internal, "void "@, stem
        + "_destroy"@, task_type + " *task"@)));
}

proof fn result_is_declared(
    out: Seq<char>,
    internal: bool,
    stem: Seq<char>,
    task_type: Seq<char>,
    result_type: Seq<char>,
)
    ensures
        out + (if internal { "static "@ } else { ""@ }) + "const "@ + result_type + " *"@ + stem
            + "_result(const "@ + task_type + " *task);\n"@ == out
            + (prototype(internal, "const "@ + result_type + " *"@, stem + "_result"@, "const "@
            + (task_type + " *task"@))),
{
    prototype_literals();
    assert(out + (if internal { "static "@ } else { ""@ }) + "const "@ + result_type + " *"@
        + stem + "_result(const "@ + task_type + " *task);\n"@ =~= out
        + (prototype(internal, "const "@ + result_type + " *"@, stem + "_result"@, "const "@
        + (task_type + " *task"@))));
}

proof fn yielded_is_declared(
    out: Seq<char>,
    internal: bool,
    stem: Seq<char>,
    task_type: Seq<char>,
    result_type: Seq<char>,
)
    ensures
        out + (if internal { "static "@ } else { ""@ }) + "const "@ + result_type + " *"@ + stem
            + "_yielded(const "@ + task_type + " *task);\n"@ == out
            + (prototype(internal, "const "@ + result_type + " *"@, stem + "_yielded"@, "const "@
            + (task_type + " *task"@))),
{
    prototype_literals();
    assert(out + (if internal { "static "@ } else { ""@ }) + "const "@ + result_type + " *"@
        + stem + "_yielded(const "@ + task_type + " *task);\n"@ =~= out
        + (prototype(internal, "const "@ + result_type + " *"@, stem + "_yielded"@, "const "@
        + (task_type + " *task"@))));
}

proof fn error_is_declared(out: Seq<char>, internal: bool, stem: Seq<char>, task_type: Seq<char>)
    ensures
        out + (if internal { "static "@ } else { ""@ }) + "const cr_error *"@ + stem
            + "_error(const "@ + task_type + " *task);\n"@ == out
            + (prototype(internal, "const cr_error *"@, stem + "_error"@, "const "@ + (task_type
            + " *task"@))),
{
    prototype_literals();
    assert(out + (if internal { "static "@ } else { ""@ }) + "const cr_error *"@ + stem
        + "_error(const "@ + task_type + " *task);\n"@ =~= out
        + (prototype(internal, "const cr_error *"@, stem + "_error"@, "const "@ + (task_type
        + " *task"@))));
}

proof fn as_awaitable_is_declared(
    out: Seq<char>,
    internal: bool,
    stem: Seq<char>,
    task_type: Seq<char>,
)
    ensures
        out + (if internal { "static "@ } else { ""@ }) + "cr_awaitable "@ + stem
            + "_as_awaitable("@ + task_type + " *task);\n"@ == out
            + (prototype(internal, "cr_awaitable "@, stem + "_as_awaitable"@, task_type
            + " *task"@)),
{
    prototype_literals();
    assert(out + (if internal { "static "@ } else { ""@ }) + "cr_awaitable "@ + stem
        + "_as_awaitable("@ + task_type + " *task);\n"@ =~= out
        + (prototype(internal, "cr_awaitable "@, stem + "_as_awaitable"@, task_type + " *task"@)));
}

proof fn into_awaitable_is_declared(
    out: Seq<char>,
    internal: bool,
    stem: Seq<char>,
    task_type: Seq<char>,
)
    ensures
        out + (if internal { "static "@ } else { ""@ }) + "cr_awaitable "@ + stem
            + "_into_awaitable("@ + task_type + " *task);\n\n"@ == out
            + (prototype(internal, "cr_awaitable "@, stem + "_into_awaitable"@, task_type
            + " *task"@) + "\n"@),
{
    prototype_literals();
    assert(out + (if internal { "static "@ } else { ""@ }) + "cr_awaitable "@ + stem
        + "_into_awaitable("@ + task_type + " *task);\n\n"@ =~= out
        + (prototype(internal, "cr_awaitable "@, stem + "_into_awaitable"@, task_type
        + " *task"@) + "\n"@));
}

/// What a callee declares for its callers: its type; where the type is complete,
/// how a task is set up and dropped; where tasks live on the heap, how one is made
/// and destroyed; how one is polled; where they are read, its result, what it
/// yielded and its error; and where others see it, how it becomes an awaitable.
/// Every function has the stem of the callee, and all of an internal one are
/// internal.
pub proof fn callees_are_declared(
    out: Seq<char>,
    stem: Seq<char>,
    task_type: Seq<char>,
    result_type: Seq<char>,
    parameters: Seq<char>,
    internal: bool,
    visible: bool,
    heap: bool,
    accessed: bool,
)
    ensures
        ({
            let p = prototypes(
                stem,
                task_type,
                result_type,
                parameters,
                internal,
                visible,
                heap,
                accessed,
            );
            c_meaning::same(
                c_function_text::prototypes_text(
                    out,
                    stem,
                    task_type,
                    result_type,
                    parameters,
                    internal,
                    visible,
                    heap,
                    accessed,
                ),
                out + p[0] + p[1] + p[2] + p[3] + p[4] + p[5] + p[6] + p[7] + p[8] + p[9] + p[10],
            )
        }),
{
    let p = prototypes(
        stem,
        task_type,
        result_type,
        parameters,
        internal,
        visible,
        heap,
        accessed,
    );
    let linkage = if internal {
        "static "@
    } else {
        ""@
    };
    let comma = if parameters == ""@ {
        ""@
    } else {
        ", "@
    };
    let valued = accessed && result_type != "void"@;
    reveal_strlit("");
    assert(""@ =~= Seq::<char>::empty());
    assert(parameters.len() == 0 <==> parameters =~= ""@);
    type_is_declared(out, task_type);
    let o0 = out + "typedef struct "@ + task_type + " "@ + task_type + ";\n"@;
    assert(o0 == out + p[0]);
    if visible {
        init_is_declared(o0, internal, stem, task_type, parameters);
    }
    let o1 = if visible {
        o0 + linkage + "void "@ + stem + "_init("@ + task_type + " *task"@ + comma + parameters
            + ");\n"@
    } else {
        o0
    };
    assert(o0 + Seq::<char>::empty() =~= o0);
    assert(c_meaning::same(o1, o0 + p[1]));
    if visible {
        drop_is_declared(o1, internal, stem, task_type);
    }
    let o2 = if visible {
        o1 + linkage + "void "@ + stem + "_drop("@ + task_type + " *task);\n"@
    } else {
        o1
    };
    assert(o1 + Seq::<char>::empty() =~= o1);
    assert(c_meaning::same(o2, o1 + p[2]));
    if heap {
        create_is_declared(o2, internal, stem, task_type, parameters);
    }
    let o3 = if heap {
        o2 + linkage + task_type + " *"@ + stem + "_create("@ + parameters + comma
            + "cr_error *out_error);\n"@
    } else {
        o2
    };
    assert(o2 + Seq::<char>::empty() =~= o2);
    assert(c_meaning::same(o3, o2 + p[3]));
    poll_is_declared(o3, internal, stem, task_type);
    let o4 = o3 + linkage + "cr_poll_status "@ + stem + "_poll("@ + task_type
        + " *task, const cr_poll_context *poll_context);\n"@;
    assert(c_meaning::same(o4, o3 + p[4]));
    if heap {
        destroy_is_declared(o4, internal, stem, task_type);
    }
    let o5 = if heap {
        o4 + linkage + "void "@ + stem + "_destroy("@ + task_type + " *task);\n"@
    } else {
        o4
    };
    assert(o4 + Seq::<char>::empty() =~= o4);
    assert(c_meaning::same(o5, o4 + p[5]));
    if valued {
        result_is_declared(o5, internal, stem, task_type, result_type);
    }
    let o6 = if valued {
        o5 + linkage + "const "@ + result_type + " *"@ + stem + "_result(const "@ + task_type
            + " *task);\n"@
    } else {
        o5
    };
    assert(o5 + Seq::<char>::empty() =~= o5);
    assert(c_meaning::same(o6, o5 + p[6]));
    if valued {
        yielded_is_declared(o6, internal, stem, task_type, result_type);
    }
    let o7 = if valued {
        o6 + linkage + "const "@ + result_type + " *"@ + stem + "_yielded(const "@ + task_type
            + " *task);\n"@
    } else {
        o6
    };
    assert(o6 + Seq::<char>::empty() =~= o6);
    assert(c_meaning::same(o7, o6 + p[7]));
    if accessed {
        error_is_declared(o7, internal, stem, task_type);
    }
    let o8 = if accessed {
        o7 + linkage + "const cr_error *"@ + stem + "_error(const "@ + task_type + " *task);\n"@
    } else {
        o7
    };
    assert(o7 + Seq::<char>::empty() =~= o7);
    assert(c_meaning::same(o8, o7 + p[8]));
    if !internal {
        as_awaitable_is_declared(o8, internal, stem, task_type);
    }
    let o9 = if !internal {
        o8 + linkage + "cr_awaitable "@ + stem + "_as_awaitable("@ + task_type + " *task);\n"@
    } else {
        o8
    };
    assert(o8 + Seq::<char>::empty() =~= o8);
    assert(c_meaning::same(o9, o8 + p[9]));
    if !internal {
        into_awaitable_is_declared(o9, internal, stem, task_type);
    }
    let o10 = if !internal {
        o9 + linkage + "cr_awaitable "@ + stem + "_into_awaitable("@ + task_type + " *task);\n\n"@
    } else {
        o9
    };
    assert(o9 + Seq::<char>::empty() =~= o9);
    assert(c_meaning::same(o10, o9 + p[10]));
}

proof fn listed_types_grow(parameters: Seq<AsyncParameter>, n: int, k: int)
    requires
        0 <= k <= n <= parameters.len(),
    ensures
        c_emitter::typed_parameters(parameters, k).is_prefix_of(
            c_emitter::typed_parameters(parameters, n),
        ),
    decreases n - k,
{
    if k < n {
        listed_types_grow(parameters, n - 1, k);
        let a = c_emitter::typed_parameters(parameters, k);
        let b = c_emitter::typed_parameters(parameters, n - 1);
        let c = c_emitter::typed_parameters(parameters, n);
        assert(b =~= c.subrange(0, b.len() as int));
        assert(a =~= b.subrange(0, a.len() as int));
        assert(a =~= c.subrange(0, a.len() as int));
    }
}

/// The prototypes of a callee list its parameters in order, each of its own type
/// and under a name of its own.
pub proof fn prototypes_list_parameters(parameters: Seq<AsyncParameter>, k: int)
    requires
        0 <= k < parameters.len(),
    ensures
        ({
            let all = c_emitter::typed_parameters(parameters, parameters.len() as int);
            let before = c_emitter::typed_parameters(parameters, k);
            let own = context_types::declarator(
                parameters[k].adjusted_type@,
                "cr_arg_"@ + text::dec(k as nat),
            );
            (if k == 0 {
                own
            } else {
                before + ", "@ + own
            }).is_prefix_of(all)
        }),
{
    listed_types_grow(parameters, parameters.len() as int, k + 1);
    let own = context_types::declarator(
        parameters[k].adjusted_type@,
        "cr_arg_"@ + text::dec(k as nat),
    );
    assert(Seq::<char>::empty() + own =~= own);
    if k == 0 {
        assert(c_emitter::typed_parameters(parameters, 0) =~= Seq::<char>::empty());
    }
    assert(c_emitter::typed_parameters(parameters, k + 1) == if k == 0 {
        own
    } else {
        c_emitter::typed_parameters(parameters, k) + ", "@ + own
    });
}

} // verus!
