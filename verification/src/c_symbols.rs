//! Names that the C code of one function uses.

use vstd::prelude::*;

use crate::c_expression;
use crate::c_expression::{render_expression, Scene, SceneView};
use crate::context_types;
use crate::context_types::{infer_expression_type, render_typed_name, DeclarationType};
use crate::control_flow::{
    BasicBlock, BlockId, CfgFunction, CfgInstruction, CfgSwitchCase, CfgTerminator, CleanupId,
    CleanupRegistration,
};
use crate::graph;
use crate::graph::reachable_from;
use crate::liveness::{LiftedField, LivenessFunction};
use crate::order;
use crate::order::{has_key, put_value};
use crate::semantic::{DeclarationId, HirExpr, ScopeId};
use crate::symbol_index::AsyncParameter;
use crate::syntax;
use crate::syntax::{error_diagnostic, Diagnostic, DiagnosticView};
use crate::text;
use crate::text::{
    chars_of, concat2, concat4, copied, match_at, number, put, put2, put3, put5, put6, string_of,
    trim,
};

verus! {

/// The name stem that the name of a poll function is made from.
pub open spec fn poll_stem(name: Seq<char>) -> Seq<char> {
    let suffix = "_poll"@;
    if name.len() >= suffix.len() && name.skip(name.len() - suffix.len()) == suffix {
        name.take(name.len() - suffix.len())
    } else {
        name
    }
}

/// Returns the name stem that the name of a poll function is made from.
pub fn symbol_stem(name: &str) -> (r: String)
    ensures
        r@ == poll_stem(name@),
{
    let chars = chars_of(name);
    let suffix = chars_of("_poll");
    let width: usize = suffix.len();
    if chars.len() >= width {
        let at: usize = chars.len() - width;
        assert(name@.subrange(at as int, at + width) =~= name@.skip(at as int));
        if match_at(&chars, &suffix, at) {
            let stem = string_of(&chars, 0, at);
            assert(stem@ =~= name@.take(at as int));
            return stem;
        }
    }
    copied(name)
}

/// The last lifted declaration with an identity among the first `n`.
pub open spec fn lifted_last(fields: Seq<LiftedField>, id: DeclarationId, n: int) -> Option<int>
    decreases n,
{
    if n <= 0 {
        None
    } else if fields[n - 1].declaration == id {
        Some(n - 1)
    } else {
        lifted_last(fields, id, n - 1)
    }
}

/// The lifted declaration with an identity.
pub open spec fn symbol_field(fields: Seq<LiftedField>, id: DeclarationId) -> Option<LiftedField> {
    match lifted_last(fields, id, fields.len() as int) {
        Some(i) => Some(fields[i]),
        None => None,
    }
}

/// Finds the lifted declaration with an identity.
pub fn find_field(fields: &Vec<LiftedField>, id: DeclarationId) -> (r: Option<&LiftedField>)
    ensures
        match r {
            Some(field) => symbol_field(fields@, id) == Some(*field) && field.declaration == id
                && exists|i: int| 0 <= i < fields@.len() && #[trigger] fields@[i] == *field,
            None => symbol_field(fields@, id) is None,
        },
{
    let mut n: usize = fields.len();
    while n > 0
        invariant
            n <= fields@.len(),
            lifted_last(fields@, id, fields@.len() as int) == lifted_last(fields@, id, n as int),
        decreases n,
    {
        if fields[n - 1].declaration == id {
            return Some(&fields[n - 1]);
        }
        n -= 1;
    }
    None
}

/// The source name of a declaration.
pub open spec fn symbol_name(function: LivenessFunction, id: DeclarationId) -> Seq<char> {
    match order::lookup(context_types::declared_types(function), id) {
        Some(declaration) => declaration.name@,
        None => "cr_missing_value"@,
    }
}

/// The types of the first `n` arguments of a deferred call that are known.
pub open spec fn argument_types(
    function: LivenessFunction,
    scopes: Seq<ScopeId>,
    arguments: Seq<HirExpr>,
    n: int,
) -> Seq<Seq<char>>
    decreases n,
{
    if n <= 0 {
        Seq::empty()
    } else {
        let before = argument_types(function, scopes, arguments, n - 1);
        match context_types::inferred_type(
            arguments[n - 1],
            scopes,
            context_types::declared_types(function),
        ) {
            Some(ty) => before.push(ty),
            None => before,
        }
    }
}

/// The errors for the first `n` arguments of a deferred call whose types
/// aren't known.
pub open spec fn argument_problems(
    problems: Seq<DiagnosticView>,
    function: LivenessFunction,
    scopes: Seq<ScopeId>,
    arguments: Seq<HirExpr>,
    n: int,
) -> Seq<DiagnosticView>
    decreases n,
{
    if n <= 0 {
        problems
    } else {
        let before = argument_problems(problems, function, scopes, arguments, n - 1);
        match context_types::inferred_type(
            arguments[n - 1],
            scopes,
            context_types::declared_types(function),
        ) {
            Some(ty) => before,
            None => before.push(
                syntax::error_view(
                    "CRC5004"@,
                    "unable to resolve portable defer argument type"@,
                    arguments[n - 1].span,
                ),
            ),
        }
    }
}

/// One deferred call and the types that its arguments are kept in.
pub struct CleanupHelper<'a> {
    pub registration: &'a CleanupRegistration,
    pub argument_types: Vec<String>,
}

/// The contents of a helper.
pub struct HelperView {
    pub callee: Seq<char>,
    pub types: Seq<Seq<char>>,
}

impl<'a> View for CleanupHelper<'a> {
    type V = HelperView;

    open spec fn view(&self) -> HelperView {
        HelperView {
            callee: self.registration.function.text@,
            types: syntax::views(self.argument_types@),
        }
    }
}

/// Helpers and errors that were collected so far.
pub struct Collected {
    pub helpers: Seq<(CleanupId, HelperView)>,
    pub problems: Seq<DiagnosticView>,
}

/// The helpers after the first `n` instructions of a block.
pub open spec fn instruction_helpers(
    start: Collected,
    function: LivenessFunction,
    block: BasicBlock,
    n: int,
) -> Collected
    decreases n,
{
    if n <= 0 {
        start
    } else {
        let before = instruction_helpers(start, function, block, n - 1);
        match block.instructions@[n - 1] {
            CfgInstruction::PushCleanup(registration) => {
                let arguments = registration.arguments@;
                Collected {
                    helpers: order::put(
                        before.helpers,
                        registration.id,
                        HelperView {
                            callee: registration.function.text@,
                            types: argument_types(
                                function,
                                block.scope_stack@,
                                arguments,
                                arguments.len() as int,
                            ),
                        },
                    ),
                    problems: argument_problems(
                        before.problems,
                        function,
                        block.scope_stack@,
                        arguments,
                        arguments.len() as int,
                    ),
                }
            },
            _ => before,
        }
    }
}

/// The helpers after the first `n` blocks.
pub open spec fn block_helpers(start: Collected, function: LivenessFunction, n: int) -> Collected
    decreases n,
{
    if n <= 0 {
        start
    } else {
        let block = function.coroutine.cfg.blocks@[n - 1];
        instruction_helpers(
            block_helpers(start, function, n - 1),
            function,
            block,
            block.instructions@.len() as int,
        )
    }
}

/// The helpers of the deferred calls of a function, by identity, and the errors
/// that follow `problems`.
pub open spec fn helpers_of(
    function: LivenessFunction,
    problems: Seq<DiagnosticView>,
) -> Collected {
    block_helpers(
        Collected { helpers: Seq::empty(), problems },
        function,
        function.coroutine.cfg.blocks@.len() as int,
    )
}

fn list_argument_types(
    declared: &Vec<(DeclarationId, DeclarationType<'_>)>,
    function: &LivenessFunction,
    scopes: &Vec<ScopeId>,
    arguments: &Vec<HirExpr>,
    problems: &mut Vec<Diagnostic>,
) -> (r: Vec<String>)
    requires
        declared@ == context_types::declared_types(*function),
    ensures
        syntax::views(r@) == argument_types(
            *function,
            scopes@,
            arguments@,
            arguments@.len() as int,
        ),
        syntax::views(final(problems)@) == argument_problems(
            syntax::views(old(problems)@),
            *function,
            scopes@,
            arguments@,
            arguments@.len() as int,
        ),
{
    let ghost start = syntax::views(problems@);
    let mut types: Vec<String> = Vec::new();
    assert(syntax::views(types@) =~= Seq::empty());
    let mut n: usize = 0;
    while n < arguments.len()
        invariant
            n <= arguments@.len(),
            declared@ == context_types::declared_types(*function),
            syntax::views(types@) == argument_types(*function, scopes@, arguments@, n as int),
            syntax::views(problems@) == argument_problems(
                start,
                *function,
                scopes@,
                arguments@,
                n as int,
            ),
        decreases arguments@.len() - n,
    {
        match infer_expression_type(&arguments[n], scopes, declared) {
            Some(ty) => {
                proof {
                    syntax::views_push(types@, ty);
                }
                types.push(ty);
            },
            None => {
                let problem = error_diagnostic(
                    "CRC5004",
                    "unable to resolve portable defer argument type",
                    &arguments[n].span,
                );
                proof {
                    syntax::views_push(problems@, problem);
                }
                problems.push(problem);
            },
        }
        n += 1;
    }
    types
}

/// Collects the helpers of the deferred calls of a function.
pub fn cleanup_helpers<'a>(
    declared: &Vec<(DeclarationId, DeclarationType<'_>)>,
    function: &'a LivenessFunction,
    problems: &mut Vec<Diagnostic>,
) -> (r: Vec<(CleanupId, CleanupHelper<'a>)>)
    requires
        declared@ == context_types::declared_types(*function),
    ensures
        order::entry_views(r@) == helpers_of(*function, syntax::views(old(problems)@)).helpers,
        syntax::views(final(problems)@) == helpers_of(
            *function,
            syntax::views(old(problems)@),
        ).problems,
{
    let ghost start = Collected { helpers: Seq::empty(), problems: syntax::views(problems@) };
    let mut helpers: Vec<(CleanupId, CleanupHelper<'a>)> = Vec::new();
    assert(order::entry_views(helpers@) =~= Seq::empty());
    let blocks = &function.coroutine.cfg.blocks;
    let mut b: usize = 0;
    while b < blocks.len()
        invariant
            b <= blocks@.len(),
            blocks == &function.coroutine.cfg.blocks,
            declared@ == context_types::declared_types(*function),
            (Collected {
                helpers: order::entry_views(helpers@),
                problems: syntax::views(problems@),
            }) == block_helpers(start, *function, b as int),
        decreases blocks@.len() - b,
    {
        let block = &blocks[b];
        let ghost before = block_helpers(start, *function, b as int);
        let mut n: usize = 0;
        while n < block.instructions.len()
            invariant
                n <= block.instructions@.len(),
                declared@ == context_types::declared_types(*function),
                (Collected {
                    helpers: order::entry_views(helpers@),
                    problems: syntax::views(problems@),
                }) == instruction_helpers(before, *function, *block, n as int),
            decreases block.instructions@.len() - n,
        {
            if let CfgInstruction::PushCleanup(registration) = &block.instructions[n] {
                let argument_types = list_argument_types(
                    declared,
                    function,
                    &block.scope_stack,
                    &registration.arguments,
                    problems,
                );
                let helper = CleanupHelper { registration, argument_types };
                proof {
                    order::put_views(helpers@, registration.id, helper);
                }
                put_value(&mut helpers, registration.id, helper);
            }
            n += 1;
        }
        b += 1;
    }
    helpers
}

/// The type that the arguments of a deferred call are kept in.
pub open spec fn payload_type(stem: Seq<char>, id: CleanupId) -> Seq<char> {
    stem + "_cleanup_"@ + text::dec(id.0 as nat) + "_payload"@
}

/// The function that makes a deferred call.
pub open spec fn run_function(stem: Seq<char>, id: CleanupId) -> Seq<char> {
    stem + "_cleanup_"@ + text::dec(id.0 as nat) + "_run"@
}

/// Returns the type that the arguments of a deferred call are kept in.
pub fn payload_name(stem: &str, id: CleanupId) -> (r: String)
    ensures
        r@ == payload_type(stem@, id),
{
    concat4(stem, "_cleanup_", number(id.0 as u64).as_str(), "_payload")
}

/// Returns the function that makes a deferred call.
pub fn run_name(stem: &str, id: CleanupId) -> (r: String)
    ensures
        r@ == run_function(stem@, id),
{
    concat4(stem, "_cleanup_", number(id.0 as u64).as_str(), "_run")
}

/// The members of a payload for the first `n` types.
pub open spec fn payload_members(out: Seq<char>, types: Seq<Seq<char>>, n: int) -> Seq<char>
    decreases n,
{
    if n <= 0 {
        out
    } else {
        payload_members(out, types, n - 1) + "    "@ + context_types::declarator(
            types[n - 1],
            "arg_"@ + text::dec((n - 1) as nat),
        ) + ";\n"@
    }
}

/// The first `n` arguments of a deferred call.
pub open spec fn payload_arguments(n: int) -> Seq<char>
    decreases n,
{
    if n <= 0 {
        Seq::empty()
    } else {
        let before = payload_arguments(n - 1);
        let separated = if n > 1 {
            before + ", "@
        } else {
            before
        };
        separated + "payload->arg_"@ + text::dec((n - 1) as nat)
    }
}

/// The C code of one deferred call.
pub open spec fn helper_text(
    out: Seq<char>,
    stem: Seq<char>,
    id: CleanupId,
    helper: HelperView,
) -> Seq<char> {
    let payload = payload_type(stem, id);
    let out = out + "typedef struct "@ + payload + " {\n"@;
    let out = if helper.types.len() == 0 {
        out + "    unsigned char unused;\n"@
    } else {
        payload_members(out, helper.types, helper.types.len() as int)
    };
    let out = out + "} "@ + payload + ";\nstatic void "@ + run_function(stem, id)
        + "(void *raw) {\n"@;
    let out = out + "    "@ + payload + " *payload = ("@ + payload + " *)raw;\n    "@
        + helper.callee;
    out + "("@ + payload_arguments(helper.types.len() as int) + ");\n}\n\n"@
}

/// The C code of the first `n` deferred calls.
pub open spec fn helpers_text(
    out: Seq<char>,
    stem: Seq<char>,
    helpers: Seq<(CleanupId, HelperView)>,
    n: int,
) -> Seq<char>
    decreases n,
{
    if n <= 0 {
        out
    } else {
        helper_text(
            helpers_text(out, stem, helpers, n - 1),
            stem,
            helpers[n - 1].0,
            helpers[n - 1].1,
        )
    }
}

fn write_helper(out: &mut String, stem: &str, id: CleanupId, helper: &CleanupHelper<'_>)
    ensures
        final(out)@ == helper_text(old(out)@, stem@, id, helper@),
{
    let payload = payload_name(stem, id);
    let run = run_name(stem, id);
    let ghost types = syntax::views(helper.argument_types@);
    put3(out, "typedef struct ", payload.as_str(), " {\n");
    if helper.argument_types.len() == 0 {
        put(out, "    unsigned char unused;\n");
    } else {
        let ghost start = out@;
        let mut n: usize = 0;
        while n < helper.argument_types.len()
            invariant
                n <= helper.argument_types@.len(),
                types == syntax::views(helper.argument_types@),
                out@ == payload_members(start, types, n as int),
            decreases helper.argument_types@.len() - n,
        {
            assert(types[n as int] == helper.argument_types@[n as int]@);
            let name = concat2("arg_", number(n as u64).as_str());
            let member = render_typed_name(helper.argument_types[n].as_str(), name.as_str());
            put3(out, "    ", member.as_str(), ";\n");
            n += 1;
        }
    }
    put5(out, "} ", payload.as_str(), ";\nstatic void ", run.as_str(), "(void *raw) {\n");
    put6(
        out,
        "    ",
        payload.as_str(),
        " *payload = (",
        payload.as_str(),
        " *)raw;\n    ",
        helper.registration.function.text.as_str(),
    );
    let mut arguments = String::new();
    assert(arguments@ =~= Seq::empty());
    let mut n: usize = 0;
    while n < helper.argument_types.len()
        invariant
            n <= helper.argument_types@.len(),
            arguments@ == payload_arguments(n as int),
        decreases helper.argument_types@.len() - n,
    {
        if n > 0 {
            put(&mut arguments, ", ");
        }
        put2(&mut arguments, "payload->arg_", number(n as u64).as_str());
        n += 1;
    }
    put3(out, "(", arguments.as_str(), ");\n}\n\n");
}

/// Appends the C code of deferred calls.
pub fn write_cleanup_helpers(
    out: &mut String,
    stem: &str,
    helpers: &Vec<(CleanupId, CleanupHelper<'_>)>,
)
    ensures
        final(out)@ == helpers_text(
            old(out)@,
            stem@,
            order::entry_views(helpers@),
            helpers@.len() as int,
        ),
{
    let ghost start = out@;
    let ghost views = order::entry_views(helpers@);
    let mut n: usize = 0;
    while n < helpers.len()
        invariant
            n <= helpers@.len(),
            views == order::entry_views(helpers@),
            out@ == helpers_text(start, stem@, views, n as int),
        decreases helpers@.len() - n,
    {
        assert(views[n as int] == (helpers@[n as int].0, helpers@[n as int].1@));
        write_helper(out, stem, helpers[n].0, &helpers[n].1);
        n += 1;
    }
}

/// The temporaries for the first `n` arguments of a call.
pub open spec fn argument_lines(
    out: Seq<char>,
    indent: Seq<char>,
    name: Seq<char>,
    arguments: Seq<HirExpr>,
    parameters: Seq<AsyncParameter>,
    scopes: Seq<ScopeId>,
    scene: SceneView,
    n: int,
) -> Seq<char>
    decreases n,
{
    if n <= 0 {
        out
    } else {
        let before = argument_lines(
            out,
            indent,
            name,
            arguments,
            parameters,
            scopes,
            scene,
            n - 1,
        );
        if n - 1 < parameters.len() {
            before + indent + context_types::declarator(
                text::trimmed(parameters[n - 1].adjusted_type@),
                name + text::dec((n - 1) as nat),
            ) + " = "@ + c_expression::expression_text(arguments[n - 1], scopes, scene) + ";\n"@
        } else {
            before
        }
    }
}

/// The first `n` arguments of a call: temporaries as far as there are
/// parameters.
pub open spec fn passed_arguments(
    name: Seq<char>,
    arguments: Seq<HirExpr>,
    parameters: Seq<AsyncParameter>,
    scopes: Seq<ScopeId>,
    scene: SceneView,
    n: int,
) -> Seq<char>
    decreases n,
{
    if n <= 0 {
        Seq::empty()
    } else {
        let before = passed_arguments(name, arguments, parameters, scopes, scene, n - 1);
        let separated = if n > 1 {
            before + ", "@
        } else {
            before
        };
        if n - 1 < parameters.len() {
            separated + (name + text::dec((n - 1) as nat))
        } else {
            separated + c_expression::expression_text(arguments[n - 1], scopes, scene)
        }
    }
}

/// Appends temporaries for arguments and returns what is passed.
pub fn write_arguments(
    out: &mut String,
    indent: &str,
    name: &str,
    arguments: &Vec<HirExpr>,
    parameters: &Vec<AsyncParameter>,
    scopes: &Vec<ScopeId>,
    scene: &Scene<'_>,
) -> (r: String)
    requires
        c_expression::scene_ready(scene@),
        c_expression::expressions_ready(arguments@, scene@),
    ensures
        final(out)@ == argument_lines(
            old(out)@,
            indent@,
            name@,
            arguments@,
            parameters@,
            scopes@,
            scene@,
            arguments@.len() as int,
        ),
        r@ == passed_arguments(
            name@,
            arguments@,
            parameters@,
            scopes@,
            scene@,
            arguments@.len() as int,
        ),
{
    let ghost start = out@;
    let mut passed = String::new();
    assert(passed@ =~= Seq::empty());
    let mut n: usize = 0;
    while n < arguments.len()
        invariant
            n <= arguments@.len(),
            c_expression::scene_ready(scene@),
            c_expression::expressions_ready(arguments@, scene@),
            out@ == argument_lines(
                start,
                indent@,
                name@,
                arguments@,
                parameters@,
                scopes@,
                scene@,
                n as int,
            ),
            passed@ == passed_arguments(
                name@,
                arguments@,
                parameters@,
                scopes@,
                scene@,
                n as int,
            ),
        decreases arguments@.len() - n,
    {
        let rendered = render_expression(&arguments[n], scopes, scene);
        if n > 0 {
            put(&mut passed, ", ");
        }
        if n < parameters.len() {
            let temporary = concat2(name, number(n as u64).as_str());
            let declared = render_typed_name(
                trim(parameters[n].adjusted_type.as_str()),
                temporary.as_str(),
            );
            put5(out, indent, declared.as_str(), " = ", rendered.as_str(), ";\n");
            put(&mut passed, temporary.as_str());
        } else {
            put(&mut passed, rendered.as_str());
        }
        n += 1;
    }
    passed
}

/// The blocks that the end of a block leads to.
pub open spec fn successors(terminator: CfgTerminator) -> Seq<BlockId> {
    match terminator {
        CfgTerminator::Goto(edge) => seq![edge.target],
        CfgTerminator::Branch { condition, consequence, alternative } => seq![
            consequence.target,
            alternative.target,
        ],
        CfgTerminator::Switch { expression, cases, default } => case_targets(
            cases@,
            cases@.len() as int,
        ).push(default.target),
        CfgTerminator::Suspend { edge, operand, slot, continuation, span } => seq![
            continuation.target,
        ],
        CfgTerminator::Yield { value, continuation, span } => seq![continuation.target],
        _ => Seq::empty(),
    }
}

/// The targets of the first `n` cases.
pub open spec fn case_targets(cases: Seq<CfgSwitchCase>, n: int) -> Seq<BlockId>
    decreases n,
{
    if n <= 0 {
        Seq::empty()
    } else {
        case_targets(cases, n - 1).push(cases[n - 1].edge.target)
    }
}

/// The edges from block `from` to the first `n` targets.
pub open spec fn edges_from(
    edges: Seq<(BlockId, BlockId)>,
    from: BlockId,
    targets: Seq<BlockId>,
    n: int,
) -> Seq<(BlockId, BlockId)>
    decreases n,
{
    if n <= 0 {
        edges
    } else {
        edges_from(edges, from, targets, n - 1).push((from, targets[n - 1]))
    }
}

/// The edges between the first `n` blocks and those they lead to.
pub open spec fn block_edges(blocks: Seq<BasicBlock>, n: int) -> Seq<(BlockId, BlockId)>
    decreases n,
{
    if n <= 0 {
        Seq::empty()
    } else {
        let targets = successors(blocks[n - 1].terminator);
        edges_from(
            block_edges(blocks, n - 1),
            BlockId((n - 1) as u32),
            targets,
            targets.len() as int,
        )
    }
}

/// Whether control can get from the entry of a function to a block.
pub open spec fn block_reached(cfg: CfgFunction, block: BlockId) -> bool {
    graph::reaches(block_edges(cfg.blocks@, cfg.blocks@.len() as int), cfg.entry, block)
}

fn list_successors(terminator: &CfgTerminator) -> (r: Vec<BlockId>)
    ensures
        r@ == successors(*terminator),
{
    let mut targets: Vec<BlockId> = Vec::new();
    match terminator {
        CfgTerminator::Goto(edge) => {
            targets.push(edge.target);
        },
        CfgTerminator::Branch { condition, consequence, alternative } => {
            targets.push(consequence.target);
            targets.push(alternative.target);
        },
        CfgTerminator::Switch { expression, cases, default } => {
            let mut n: usize = 0;
            while n < cases.len()
                invariant
                    n <= cases@.len(),
                    targets@ == case_targets(cases@, n as int),
                decreases cases@.len() - n,
            {
                targets.push(cases[n].edge.target);
                n += 1;
            }
            targets.push(default.target);
        },
        CfgTerminator::Suspend { edge, operand, slot, continuation, span } => {
            targets.push(continuation.target);
        },
        CfgTerminator::Yield { value, continuation, span } => {
            targets.push(continuation.target);
        },
        _ => {},
    }
    assert(targets@ =~= successors(*terminator));
    targets
}

/// Lists the blocks that control can get to from the entry of a function.
pub fn reachable_blocks(cfg: &CfgFunction) -> (r: Vec<BlockId>)
    ensures
        forall|b: BlockId| #[trigger] r@.contains(b) <==> block_reached(*cfg, b),
{
    let mut edges: Vec<(BlockId, BlockId)> = Vec::new();
    let mut n: usize = 0;
    while n < cfg.blocks.len()
        invariant
            n <= cfg.blocks@.len(),
            edges@ == block_edges(cfg.blocks@, n as int),
        decreases cfg.blocks@.len() - n,
    {
        let targets = list_successors(&cfg.blocks[n].terminator);
        let ghost before = edges@;
        let mut k: usize = 0;
        while k < targets.len()
            invariant
                k <= targets@.len(),
                edges@ == edges_from(before, BlockId(n as u32), targets@, k as int),
            decreases targets@.len() - k,
        {
            edges.push((BlockId(n as u32), targets[k]));
            k += 1;
        }
        n += 1;
    }
    reachable_from(&edges, cfg.entry)
}

/// Whether the first `n` instructions of a block bind a task.
pub open spec fn binds_task(instructions: Seq<CfgInstruction>, id: DeclarationId) -> bool {
    exists|i: int|
        0 <= i < instructions.len() && (#[trigger] instructions[i] matches CfgInstruction::Declaration(
            declaration,
        ) && declaration.is_task && declaration.id == id)
}

/// Whether control can get to a declaration that binds a task.
pub open spec fn task_bound(function: LivenessFunction, id: DeclarationId) -> bool {
    exists|b: int|
        0 <= b < function.coroutine.cfg.blocks@.len() && block_reached(
            function.coroutine.cfg,
            (#[trigger] function.coroutine.cfg.blocks@[b]).id,
        ) && binds_task(function.coroutine.cfg.blocks@[b].instructions@, id)
}

/// Tells whether control can get to a declaration that binds a task.
pub fn is_task_bound(function: &LivenessFunction, reachable: &Vec<BlockId>, id: DeclarationId) -> (r:
    bool)
    requires
        forall|b: BlockId|
            #[trigger] reachable@.contains(b) <==> block_reached(function.coroutine.cfg, b),
    ensures
        r == task_bound(*function, id),
{
    let blocks = &function.coroutine.cfg.blocks;
    let mut b: usize = 0;
    while b < blocks.len()
        invariant
            b <= blocks@.len(),
            blocks == &function.coroutine.cfg.blocks,
            forall|b: BlockId|
                #[trigger] reachable@.contains(b) <==> block_reached(function.coroutine.cfg, b),
            forall|k: int|
                0 <= k < b ==> !(block_reached(
                    function.coroutine.cfg,
                    (#[trigger] function.coroutine.cfg.blocks@[k]).id,
                ) && binds_task(function.coroutine.cfg.blocks@[k].instructions@, id)),
        decreases blocks@.len() - b,
    {
        let block = &blocks[b];
        if has_key(reachable, block.id) {
            let mut i: usize = 0;
            while i < block.instructions.len()
                invariant
                    b < blocks@.len(),
                    blocks == &function.coroutine.cfg.blocks,
                    *block == blocks@[b as int],
                    block_reached(function.coroutine.cfg, block.id),
                    i <= block.instructions@.len(),
                    forall|k: int|
                        0 <= k < i ==> !(#[trigger] block.instructions@[k] matches CfgInstruction::Declaration(
                            declaration,
                        ) && declaration.is_task && declaration.id == id),
                decreases block.instructions@.len() - i,
            {
                if let CfgInstruction::Declaration(declaration) = &block.instructions[i] {
                    if declaration.is_task && declaration.id == id {
                        assert(block.instructions@[i as int] matches CfgInstruction::Declaration(
                            declaration,
                        ) && declaration.is_task && declaration.id == id);
                        assert(binds_task(block.instructions@, id));
                        return true;
                    }
                }
                i += 1;
            }
        }
        b += 1;
    }
    false
}

} // verus!
