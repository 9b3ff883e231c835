//! How the C code of functions and expressions is put together.

use vstd::prelude::*;

use crate::c_expression;
use crate::c_expression::SceneView;
use crate::c_instruction::{Emitted, FunctionView};
use crate::c_runtime_text;
use crate::c_source;
use crate::c_symbols;
use crate::c_symbols::{Collected, HelperView};
use crate::c_task;
use crate::c_task::CBackend;
use crate::c_terminator;
use crate::context_types;
use crate::control_flow::{BasicBlock, CfgInstruction, CleanupId};
use crate::liveness::LivenessFunction;
use crate::order;
use crate::semantic::{HirExpr, ScopeId};
use crate::syntax::DiagnosticView;
use crate::text;

verus! {

/// Where an extension ends inside its source, or 0 before the first.
pub open spec fn end_before(start: usize, extensions: Seq<HirExpr>, places: Seq<int>, j: int) -> int {
    if j <= 0 {
        0
    } else if extensions[places[j - 1]].span.end_byte >= start {
        extensions[places[j - 1]].span.end_byte - start
    } else {
        0
    }
}

/// Where an extension starts inside its source.
pub open spec fn start_inside(
    start: usize,
    extensions: Seq<HirExpr>,
    places: Seq<int>,
    j: int,
) -> int {
    if extensions[places[j]].span.start_byte >= start {
        extensions[places[j]].span.start_byte - start
    } else {
        0
    }
}

/// The first extensions of a source, each behind what lies before it.
pub open spec fn mixed(
    start: usize,
    source: Seq<char>,
    extensions: Seq<HirExpr>,
    places: Seq<int>,
    scopes: Seq<ScopeId>,
    scene: SceneView,
    j: int,
) -> Seq<char>
    decreases j,
{
    if j <= 0 {
        Seq::empty()
    } else {
        let from = end_before(start, extensions, places, j - 1);
        mixed(start, source, extensions, places, scopes, scene, j - 1)
            + c_source::rewritten(
            text::byte_slice(source, from, start_inside(start, extensions, places, j - 1)),
            (start + from) as nat,
            scopes,
            scene.fields,
            scene.task,
        ) + c_expression::expression_text(extensions[places[j - 1]], scopes, scene)
    }
}

proof fn mixed_so_far(
    start: usize,
    source: Seq<char>,
    extensions: Seq<HirExpr>,
    places: Seq<int>,
    scopes: Seq<ScopeId>,
    scene: SceneView,
    j: int,
)
    requires
        0 <= j <= places.len(),
        forall|i: int| 0 <= i < places.len() ==> 0 <= #[trigger] places[i] < extensions.len(),
    ensures
        c_expression::composite_text(
            Seq::empty(),
            start,
            source,
            0,
            extensions,
            places,
            0,
            scopes,
            scene,
        ) == c_expression::composite_text(
            mixed(start, source, extensions, places, scopes, scene, j),
            start,
            source,
            end_before(start, extensions, places, j),
            extensions,
            places,
            j,
            scopes,
            scene,
        ),
    decreases j,
{
    if j > 0 {
        mixed_so_far(start, source, extensions, places, scopes, scene, j - 1);
        assert(0 <= places[j - 1] < extensions.len());
    }
}

/// A composite expression is its source, with every extension, in the order of the
/// source, in the place where it stands, and nothing between them lost: what lies
/// before an extension and behind the one before it, and what lies behind the last.
pub proof fn composites_keep_what_lies_between(
    start: usize,
    source: Seq<char>,
    extensions: Seq<HirExpr>,
    scopes: Seq<ScopeId>,
    scene: SceneView,
)
    ensures
        ({
            let places = c_expression::extension_order(extensions);
            let n = places.len() as int;
            let end = end_before(start, extensions, places, n);
            &&& n == extensions.len()
            &&& forall|i: int| 0 <= i < n ==> 0 <= #[trigger] places[i] < n
            &&& forall|i: int, j: int|
                0 <= i < j < n ==> places[i] != places[j]
                    && extensions[#[trigger] places[i]].span.start_byte
                    <= extensions[#[trigger] places[j]].span.start_byte
            &&& c_expression::composite_text(
                Seq::empty(),
                start,
                source,
                0,
                extensions,
                places,
                0,
                scopes,
                scene,
            ) == mixed(start, source, extensions, places, scopes, scene, n)
                + c_source::rewritten(
                source.skip(text::chars_before(source, end)),
                (start + end) as nat,
                scopes,
                scene.fields,
                scene.task,
            )
        }),
{
    let keys = c_expression::extension_keys(extensions);
    let places = c_expression::extension_order(extensions);
    order::stable_order_sorts(keys, extensions.len() as int);
    let n = places.len() as int;
    assert forall|i: int, j: int| 0 <= i < j < n implies places[i] != places[j]
        && extensions[#[trigger] places[i]].span.start_byte
        <= extensions[#[trigger] places[j]].span.start_byte by {
        reveal_with_fuel(order::lex_lt, 2);
        let a = places[i];
        let b = places[j];
        assert(order::comes_before(keys, a, b));
        assert(keys[a] =~= seq![extensions[a].span.start_byte as u64]);
        assert(keys[b] =~= seq![extensions[b].span.start_byte as u64]);
        assert(keys[a][0] <= keys[b][0]);
        if a == b {
            order::lex_irreflexive(keys[a]);
        }
    }
    mixed_so_far(start, source, extensions, places, scopes, scene, places.len() as int);
}

/// The C code of a function with a context: its deferred calls, the cleanups of its
/// bound tasks, and how a task of it is set up, polled, dropped and offered to
/// others, in this order, each written behind all before.
pub proof fn functions_with_contexts_are_complete(
    problems: Seq<DiagnosticView>,
    view: FunctionView,
    backend: CBackend,
)
    ensures
        ({
            let task = view.scene.task->0;
            let calls = c_symbols::helpers_text(
                c_runtime_text::abi_guard_text(Seq::empty()),
                view.stem,
                view.helpers,
                view.helpers.len() as int,
            );
            let cleanups = c_task::task_cleanups(
                calls,
                view,
                view.function.lifted_fields@.len() as int,
            );
            let polled = c_task::poll_text(
                Emitted {
                    out: c_task::init_text(cleanups, view.function, task),
                    problems: c_symbols::helpers_of(view.function, problems).problems,
                },
                view,
                task,
                backend,
            );
            let whole = c_task::async_text(problems, view, backend);
            &&& whole.problems == polled.problems
            &&& whole.out == c_task::surface_text(
                c_task::drop_text(polled.out, view, task),
                view,
                task.layout,
            )
        }),
{
}

/// The C code of a function without a context keeps its signature, starts with a
/// stack without deferred calls, and goes to its entry. All its blocks follow.
pub proof fn functions_without_contexts_start_at_their_entry(
    problems: Seq<DiagnosticView>,
    view: FunctionView,
    original: Seq<char>,
)
    ensures
        ({
            let cfg = view.function.coroutine.cfg;
            let calls = c_symbols::helpers_text(
                c_runtime_text::abi_guard_text(Seq::empty()),
                view.stem,
                view.helpers,
                view.helpers.len() as int,
            );
            let signature = text::byte_slice(
                original,
                cfg.span.start_byte as int,
                cfg.body_span.start_byte as int,
            );
            let head = calls + text::trim_back(signature) + " {\n"@
                + "    cr_cleanup_stack cr_cleanups;\n"@
                + "    cr_cleanup_stack_init(&cr_cleanups);\n"@ + "    goto cr_b"@ + text::dec(
                cfg.entry.0 as nat,
            ) + ";\n"@;
            let end = c_terminator::blocks_text(
                Emitted {
                    out: head,
                    problems: c_symbols::helpers_of(view.function, problems).problems,
                },
                view,
                cfg.blocks@.len() as int,
            );
            let whole = c_task::sync_text(problems, view, original);
            &&& whole.problems == end.problems
            &&& whole.out == end.out + "}\n"@
        }),
{
    reveal_strlit(
        " {\n    cr_cleanup_stack cr_cleanups;\n    cr_cleanup_stack_init(&cr_cleanups);\n    goto cr_b",
    );
    reveal_strlit(" {\n");
    reveal_strlit("    cr_cleanup_stack cr_cleanups;\n");
    reveal_strlit("    cr_cleanup_stack_init(&cr_cleanups);\n");
    reveal_strlit("    goto cr_b");
    assert(" {\n    cr_cleanup_stack cr_cleanups;\n    cr_cleanup_stack_init(&cr_cleanups);\n    goto cr_b"@
        =~= " {\n"@ + "    cr_cleanup_stack cr_cleanups;\n"@
        + "    cr_cleanup_stack_init(&cr_cleanups);\n"@ + "    goto cr_b"@);
    let cfg = view.function.coroutine.cfg;
    let calls = c_symbols::helpers_text(
        c_runtime_text::abi_guard_text(Seq::empty()),
        view.stem,
        view.helpers,
        view.helpers.len() as int,
    );
    let signature = text::byte_slice(
        original,
        cfg.span.start_byte as int,
        cfg.body_span.start_byte as int,
    );
    let kept = calls + text::trim_back(signature);
    assert(kept
        + " {\n    cr_cleanup_stack cr_cleanups;\n    cr_cleanup_stack_init(&cr_cleanups);\n    goto cr_b"@
        =~= kept + " {\n"@ + "    cr_cleanup_stack cr_cleanups;\n"@
        + "    cr_cleanup_stack_init(&cr_cleanups);\n"@ + "    goto cr_b"@);
}

/// Whether an instruction puts a deferred call aside.
pub open spec fn defers(instruction: CfgInstruction, id: CleanupId) -> bool {
    instruction matches CfgInstruction::PushCleanup(registration) && registration.id == id
}

/// Whether a helper makes the call that an instruction puts aside: the function that
/// it names, with arguments of the types that are known.
pub open spec fn serves(
    helper: HelperView,
    function: LivenessFunction,
    block: BasicBlock,
    instruction: CfgInstruction,
) -> bool {
    instruction matches CfgInstruction::PushCleanup(registration) && helper.callee
        == registration.function.text@ && helper.types == c_symbols::argument_types(
        function,
        block.scope_stack@,
        registration.arguments@,
        registration.arguments@.len() as int,
    )
}

proof fn instructions_get_helpers(
    start: Collected,
    function: LivenessFunction,
    block: BasicBlock,
    n: int,
    id: CleanupId,
)
    requires
        0 <= n <= block.instructions@.len(),
        order::ascending(start.helpers),
    ensures
        order::ascending(c_symbols::instruction_helpers(start, function, block, n).helpers),
        ({
            let after = order::lookup(
                c_symbols::instruction_helpers(start, function, block, n).helpers,
                id,
            );
            ||| after is Some && exists|i: int|
                0 <= i < n && defers(#[trigger] block.instructions@[i], id) && serves(
                    after->0,
                    function,
                    block,
                    block.instructions@[i],
                )
            ||| after == order::lookup(start.helpers, id) && forall|i: int|
                0 <= i < n ==> !defers(#[trigger] block.instructions@[i], id)
        }),
    decreases n,
{
    if n > 0 {
        instructions_get_helpers(start, function, block, n - 1, id);
        let before = c_symbols::instruction_helpers(start, function, block, n - 1);
        let last = block.instructions@[n - 1];
        let was = order::lookup(before.helpers, id);
        if let CfgInstruction::PushCleanup(registration) = last {
            let helper = HelperView {
                callee: registration.function.text@,
                types: c_symbols::argument_types(
                    function,
                    block.scope_stack@,
                    registration.arguments@,
                    registration.arguments@.len() as int,
                ),
            };
            order::put_ascending(before.helpers, registration.id, helper, id);
            if registration.id == id {
                assert(defers(last, id) && serves(helper, function, block, last));
            }
        }
        if !defers(last, id) && was is Some && exists|i: int|
            0 <= i < n - 1 && defers(#[trigger] block.instructions@[i], id) && serves(
                was->0,
                function,
                block,
                block.instructions@[i],
            ) {
            let i = choose|i: int|
                0 <= i < n - 1 && defers(#[trigger] block.instructions@[i], id) && serves(
                    was->0,
                    function,
                    block,
                    block.instructions@[i],
                );
            assert(defers(block.instructions@[i], id));
        }
    }
}

/// Whether one of the first blocks puts a deferred call aside that a helper makes.
pub open spec fn served(
    helper: HelperView,
    function: LivenessFunction,
    id: CleanupId,
    n: int,
) -> bool {
    exists|b: int, i: int|
        0 <= b < n && 0 <= i < function.coroutine.cfg.blocks@[b].instructions@.len() && defers(
            #[trigger] function.coroutine.cfg.blocks@[b].instructions@[i],
            id,
        ) && serves(
            helper,
            function,
            function.coroutine.cfg.blocks@[b],
            function.coroutine.cfg.blocks@[b].instructions@[i],
        )
}

proof fn blocks_get_helpers(
    start: Collected,
    function: LivenessFunction,
    n: int,
    id: CleanupId,
)
    requires
        0 <= n <= function.coroutine.cfg.blocks@.len(),
        start.helpers == Seq::<(CleanupId, HelperView)>::empty(),
    ensures
        order::ascending(c_symbols::block_helpers(start, function, n).helpers),
        match order::lookup(c_symbols::block_helpers(start, function, n).helpers, id) {
            Some(helper) => served(helper, function, id, n),
            None => forall|b: int, i: int|
                0 <= b < n && 0 <= i < function.coroutine.cfg.blocks@[b].instructions@.len()
                    ==> !defers(
                    #[trigger] function.coroutine.cfg.blocks@[b].instructions@[i],
                    id,
                ),
        },
    decreases n,
{
    if n > 0 {
        blocks_get_helpers(start, function, n - 1, id);
        let blocks = function.coroutine.cfg.blocks@;
        let before = c_symbols::block_helpers(start, function, n - 1);
        let own = blocks[n - 1].instructions@;
        instructions_get_helpers(before, function, blocks[n - 1], own.len() as int, id);
        let after = c_symbols::block_helpers(start, function, n);
        let was = order::lookup(before.helpers, id);
        let is = order::lookup(after.helpers, id);
        if is is Some && exists|i: int|
            0 <= i < own.len() && defers(#[trigger] own[i], id) && serves(
                is->0,
                function,
                blocks[n - 1],
                own[i],
            ) {
            let i = choose|i: int|
                0 <= i < own.len() && defers(#[trigger] own[i], id) && serves(
                    is->0,
                    function,
                    blocks[n - 1],
                    own[i],
                );
            assert(defers(function.coroutine.cfg.blocks@[n - 1].instructions@[i], id));
            assert(served(is->0, function, id, n));
        } else {
            assert(is == was);
            if was is Some {
                let (b, i) = choose|b: int, i: int|
                    0 <= b < n - 1 && 0 <= i
                        < function.coroutine.cfg.blocks@[b].instructions@.len() && defers(
                        #[trigger] function.coroutine.cfg.blocks@[b].instructions@[i],
                        id,
                    ) && serves(
                        was->0,
                        function,
                        function.coroutine.cfg.blocks@[b],
                        function.coroutine.cfg.blocks@[b].instructions@[i],
                    );
                assert(defers(function.coroutine.cfg.blocks@[b].instructions@[i], id));
                assert(served(is->0, function, id, n));
            } else {
                assert forall|b: int, i: int|
                    0 <= b < n && 0 <= i < function.coroutine.cfg.blocks@[b].instructions@.len()
                        implies !defers(
                    #[trigger] function.coroutine.cfg.blocks@[b].instructions@[i],
                    id,
                ) by {
                    if b == n - 1 {
                        assert(!defers(own[i], id));
                    }
                }
            }
        }
    }
}

/// Every deferred call of a function has a helper of its identity, and every helper
/// makes a deferred call of the function.
pub proof fn deferred_calls_have_helpers(
    function: LivenessFunction,
    problems: Seq<DiagnosticView>,
    id: CleanupId,
)
    ensures
        ({
            let blocks = function.coroutine.cfg.blocks@;
            let n = blocks.len() as int;
            match order::lookup(c_symbols::helpers_of(function, problems).helpers, id) {
                Some(helper) => served(helper, function, id, n),
                None => forall|b: int, i: int|
                    0 <= b < n && 0 <= i < blocks[b].instructions@.len() ==> !defers(
                        #[trigger] blocks[b].instructions@[i],
                        id,
                    ),
            }
        }),
{
    let start = Collected {
        helpers: Seq::<(CleanupId, HelperView)>::empty(),
        problems,
    };
    blocks_get_helpers(start, function, function.coroutine.cfg.blocks@.len() as int, id);
}

/// Where the types of all arguments of a deferred call are known, they are those of
/// the arguments, in order, and nothing is reported. Each one that isn't known is
/// reported where it stands.
pub proof fn deferred_arguments_keep_their_types(
    problems: Seq<DiagnosticView>,
    function: LivenessFunction,
    scopes: Seq<ScopeId>,
    arguments: Seq<HirExpr>,
    n: int,
)
    requires
        0 <= n <= arguments.len(),
    ensures
        ({
            let found = context_types::declared_types(function);
            let known = |i: int| context_types::inferred_type(arguments[i], scopes, found);
            let types = c_symbols::argument_types(function, scopes, arguments, n);
            let after = c_symbols::argument_problems(problems, function, scopes, arguments, n);
            &&& types.len() + after.len() == n + problems.len()
            &&& problems.is_prefix_of(after)
            &&& types.len() <= n
            &&& (forall|i: int| 0 <= i < n ==> (#[trigger] known(i)) is Some) ==> types.len() == n
                && after == problems && forall|i: int|
                0 <= i < n ==> Some(types[i]) == #[trigger] known(i)
            &&& forall|i: int|
                0 <= i < n && (#[trigger] known(i)) is None ==> exists|k: int|
                    problems.len() <= k < after.len() && (#[trigger] after[k]).primary_span
                        == arguments[i].span
        }),
    decreases n,
{
    let found = context_types::declared_types(function);
    let known = |i: int| context_types::inferred_type(arguments[i], scopes, found);
    if n > 0 {
        deferred_arguments_keep_their_types(problems, function, scopes, arguments, n - 1);
        let before = c_symbols::argument_problems(problems, function, scopes, arguments, n - 1);
        let after = c_symbols::argument_problems(problems, function, scopes, arguments, n);
        let types = c_symbols::argument_types(function, scopes, arguments, n - 1);
        assert(known(n - 1) == context_types::inferred_type(arguments[n - 1], scopes, found));
        assert(problems =~= after.subrange(0, problems.len() as int)) by {
            assert(problems =~= before.subrange(0, problems.len() as int));
        }
        assert forall|i: int| 0 <= i < n && (#[trigger] known(i)) is None implies exists|k: int|
            problems.len() <= k < after.len() && (#[trigger] after[k]).primary_span
                == arguments[i].span by {
            if i < n - 1 {
                let k = choose|k: int|
                    problems.len() <= k < before.len() && (#[trigger] before[k]).primary_span
                        == arguments[i].span;
                assert(after[k] == before[k]);
            } else {
                assert(after[before.len() as int].primary_span == arguments[i].span);
            }
        }
        if forall|i: int| 0 <= i < n ==> (#[trigger] known(i)) is Some {
            assert forall|i: int| 0 <= i < n - 1 implies (#[trigger] known(i)) is Some by {
            }
            assert(known(n - 1) is Some);
        }
    } else {
        assert(problems =~= problems.subrange(0, problems.len() as int));
    }
}

} // verus!
