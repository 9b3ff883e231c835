//! What types declarations and results have.

use vstd::prelude::*;

use crate::context_types;
use crate::context_types::DeclarationType;
use crate::control_flow::{BasicBlock, CfgInstruction, CfgParameter, CfgTerminator, CfgValue};
use crate::liveness::LivenessFunction;
use crate::order;
use crate::semantic::{AwaitSlotId, DeclarationId, HirExpr, HirExprKind, ScopeId};
use crate::text;

verus! {

/// A scope is found where it first stands, and wherever it stands.
pub proof fn scopes_are_found_where_they_first_stand(
    scopes: Seq<ScopeId>,
    scope: ScopeId,
    from: int,
)
    requires
        0 <= from <= scopes.len(),
    ensures
        match context_types::scope_position(scopes, scope, from) {
            Some(p) => from <= p < scopes.len() && scopes[p] == scope && forall|q: int|
                from <= q < p ==> #[trigger] scopes[q] != scope,
            None => forall|q: int| from <= q < scopes.len() ==> #[trigger] scopes[q] != scope,
        },
    decreases scopes.len() - from,
{
    if from < scopes.len() && scopes[from] != scope {
        scopes_are_found_where_they_first_stand(scopes, scope, from + 1);
    }
}

/// Whether a declaration is in sight: it has the name, starts no later than the
/// place, and its scope is one of those around the place.
pub open spec fn in_sight(
    declaration: DeclarationType,
    name: Seq<char>,
    byte: usize,
    scopes: Seq<ScopeId>,
) -> bool {
    declaration.name@ == name && declaration.start_byte <= byte && scopes.contains(
        declaration.scope,
    )
}

/// Where the scope of a declaration stands among those around a place.
pub open spec fn depth_of(declaration: DeclarationType, scopes: Seq<ScopeId>) -> int {
    scopes.index_of_first(declaration.scope)->0
}

proof fn depths_are_positions(
    declaration: DeclarationType,
    name: Seq<char>,
    byte: usize,
    scopes: Seq<ScopeId>,
)
    ensures
        context_types::is_visible(declaration, name, byte, scopes) == in_sight(
            declaration,
            name,
            byte,
            scopes,
        ),
        in_sight(declaration, name, byte, scopes) ==> context_types::scope_position(
            scopes,
            declaration.scope,
            0,
        ) == Some(depth_of(declaration, scopes)),
{
    scopes_are_found_where_they_first_stand(scopes, declaration.scope, 0);
    scopes.index_of_first_ensures(declaration.scope);
    if let Some(p) = context_types::scope_position(scopes, declaration.scope, 0) {
        assert(scopes[p] == declaration.scope);
        assert(scopes.contains(declaration.scope));
        let d = depth_of(declaration, scopes);
        assert(scopes[d] == declaration.scope);
        if d < p {
            assert(scopes[d] != declaration.scope);
        }
        assert(d == p);
    }
}

/// A name means a declaration in sight if there is one. Of several it means one in
/// the innermost scope, and of those one that starts no earlier than the others.
pub proof fn names_mean_the_innermost_declaration(
    found: Seq<(DeclarationId, DeclarationType)>,
    name: Seq<char>,
    byte: usize,
    scopes: Seq<ScopeId>,
    n: int,
)
    requires
        0 <= n <= found.len(),
    ensures
        match context_types::meant_by(found, name, byte, scopes, n) {
            Some(m) => {
                &&& 0 <= m < n
                &&& in_sight(found[m].1, name, byte, scopes)
                &&& forall|i: int|
                    0 <= i < n && in_sight((#[trigger] found[i]).1, name, byte, scopes)
                        ==> depth_of(found[i].1, scopes) < depth_of(found[m].1, scopes) || (
                    depth_of(found[i].1, scopes) == depth_of(found[m].1, scopes)
                        && found[i].1.start_byte <= found[m].1.start_byte)
            },
            None => forall|i: int|
                0 <= i < n ==> !in_sight((#[trigger] found[i]).1, name, byte, scopes),
        },
    decreases n,
{
    if n > 0 {
        names_mean_the_innermost_declaration(found, name, byte, scopes, n - 1);
        depths_are_positions(found[n - 1].1, name, byte, scopes);
        if let Some(b) = context_types::meant_by(found, name, byte, scopes, n - 1) {
            depths_are_positions(found[b].1, name, byte, scopes);
        }
    }
}

/// Whether a declaration is that of a parameter of a function or of one of its
/// instructions.
pub open spec fn is_declared(
    function: LivenessFunction,
    id: DeclarationId,
    declaration: DeclarationType,
) -> bool {
    let cfg = function.coroutine.cfg;
    ||| exists|k: int|
        0 <= k < cfg.parameters@.len() && of_parameter(
            #[trigger] cfg.parameters@[k],
            id,
            declaration,
        )
    ||| exists|b: int, i: int|
        0 <= b < cfg.blocks@.len() && 0 <= i < cfg.blocks@[b].instructions@.len()
            && of_instruction(#[trigger] cfg.blocks@[b].instructions@[i], id, declaration)
}

/// Whether a declaration is that of a parameter.
pub open spec fn of_parameter(
    parameter: CfgParameter,
    id: DeclarationId,
    declaration: DeclarationType,
) -> bool {
    parameter.id == id && parameter.name == *declaration.name && parameter.ty.text
        == *declaration.ty && parameter.scope == declaration.scope && parameter.span.start_byte
        == declaration.start_byte
}

/// Whether a declaration is that of an instruction.
pub open spec fn of_instruction(
    instruction: CfgInstruction,
    id: DeclarationId,
    declaration: DeclarationType,
) -> bool {
    match instruction {
        CfgInstruction::Declaration(own) => own.id == id && own.name == *declaration.name
            && own.ty.text == *declaration.ty && own.scope == declaration.scope
            && own.span.start_byte == declaration.start_byte,
        _ => false,
    }
}

proof fn parameters_are_noted(parameters: Seq<CfgParameter>, n: int, id: DeclarationId)
    requires
        0 <= n <= parameters.len(),
    ensures
        order::ascending(context_types::parameter_types(parameters, n)),
        match order::lookup(context_types::parameter_types(parameters, n), id) {
            Some(d) => exists|k: int|
                0 <= k < n && of_parameter(#[trigger] parameters[k], id, d) && forall|l: int|
                    0 <= l < k ==> (#[trigger] parameters[l]).id != id,
            None => forall|k: int| 0 <= k < n ==> (#[trigger] parameters[k]).id != id,
        },
    decreases n,
{
    if n > 0 {
        parameters_are_noted(parameters, n - 1, id);
        parameters_are_noted(parameters, n - 1, parameters[n - 1].id);
        let before = context_types::parameter_types(parameters, n - 1);
        let p = parameters[n - 1];
        order::put_ascending(
            before,
            p.id,
            DeclarationType {
                name: &p.name,
                ty: &p.ty.text,
                scope: p.scope,
                start_byte: p.span.start_byte,
            },
            id,
        );
        let after = context_types::parameter_types(parameters, n);
        if let Some(d) = order::lookup(after, id) {
            if order::lookup(before, id) is Some {
                let k = choose|k: int|
                    0 <= k < n - 1 && of_parameter(#[trigger] parameters[k], id, d) && forall|
                        l: int,
                    |
                        0 <= l < k ==> (#[trigger] parameters[l]).id != id;
                assert(of_parameter(parameters[k], id, d));
            } else {
                assert(of_parameter(parameters[n - 1], id, d));
            }
        }
    }
}

proof fn instructions_are_noted(
    found: Seq<(DeclarationId, DeclarationType)>,
    instructions: Seq<CfgInstruction>,
    n: int,
    id: DeclarationId,
)
    requires
        0 <= n <= instructions.len(),
        order::ascending(found),
    ensures
        order::ascending(context_types::instruction_types(found, instructions, n)),
        match order::lookup(found, id) {
            Some(d) => order::lookup(
                context_types::instruction_types(found, instructions, n),
                id,
            ) == Some(d),
            None => match order::lookup(
                context_types::instruction_types(found, instructions, n),
                id,
            ) {
                Some(d) => exists|i: int|
                    0 <= i < n && of_instruction(#[trigger] instructions[i], id, d),
                None => forall|i: int|
                    0 <= i < n && (#[trigger] instructions[i]) is Declaration
                        ==> instructions[i]->Declaration_0.id != id,
            },
        },
    decreases n,
{
    if n > 0 {
        instructions_are_noted(found, instructions, n - 1, id);
        let before = context_types::instruction_types(found, instructions, n - 1);
        let after = context_types::instruction_types(found, instructions, n);
        if let CfgInstruction::Declaration(own) = instructions[n - 1] {
            let noted = DeclarationType {
                name: &own.name,
                ty: &own.ty.text,
                scope: own.scope,
                start_byte: own.span.start_byte,
            };
            order::put_ascending(before, own.id, noted, id);
            if own.id == id && order::lookup(before, id) is None {
                assert(of_instruction(instructions[n - 1], id, noted));
            }
        }
        if order::lookup(found, id) is None {
            if let Some(d) = order::lookup(before, id) {
                let i = choose|i: int|
                    0 <= i < n - 1 && of_instruction(#[trigger] instructions[i], id, d);
                assert(of_instruction(instructions[i], id, d));
            }
        }
    }
}

proof fn blocks_are_noted(
    found: Seq<(DeclarationId, DeclarationType)>,
    blocks: Seq<BasicBlock>,
    n: int,
    id: DeclarationId,
)
    requires
        0 <= n <= blocks.len(),
        order::ascending(found),
    ensures
        order::ascending(context_types::block_types(found, blocks, n)),
        match order::lookup(found, id) {
            Some(d) => order::lookup(context_types::block_types(found, blocks, n), id) == Some(d),
            None => match order::lookup(context_types::block_types(found, blocks, n), id) {
                Some(d) => exists|b: int, i: int|
                    0 <= b < n && 0 <= i < blocks[b].instructions@.len() && of_instruction(
                        #[trigger] blocks[b].instructions@[i],
                        id,
                        d,
                    ),
                None => forall|b: int, i: int|
                    0 <= b < n && 0 <= i < blocks[b].instructions@.len() && (
                    #[trigger] blocks[b].instructions@[i]) is Declaration
                        ==> blocks[b].instructions@[i]->Declaration_0.id != id,
            },
        },
    decreases n,
{
    if n > 0 {
        blocks_are_noted(found, blocks, n - 1, id);
        let before = context_types::block_types(found, blocks, n - 1);
        let own = blocks[n - 1].instructions@;
        instructions_are_noted(before, own, own.len() as int, id);
        let after = context_types::block_types(found, blocks, n);
        if order::lookup(found, id) is None {
            if let Some(d) = order::lookup(before, id) {
                let (b, i) = choose|b: int, i: int|
                    0 <= b < n - 1 && 0 <= i < blocks[b].instructions@.len() && of_instruction(
                        #[trigger] blocks[b].instructions@[i],
                        id,
                        d,
                    );
                assert(of_instruction(blocks[b].instructions@[i], id, d));
            } else if let Some(d) = order::lookup(after, id) {
                let i = choose|i: int|
                    0 <= i < own.len() && of_instruction(#[trigger] own[i], id, d);
                assert(of_instruction(blocks[n - 1].instructions@[i], id, d));
            }
        }
    }
}

/// Every parameter and every declaration of a function is known, by its identity,
/// with its name, type, scope and place. What is known is one of them. A parameter
/// comes before a declaration of the same identity.
pub proof fn declarations_are_known(function: LivenessFunction, id: DeclarationId)
    ensures
        ({
            let cfg = function.coroutine.cfg;
            let known = order::lookup(context_types::declared_types(function), id);
            &&& known is Some ==> is_declared(function, id, known->0)
            &&& forall|k: int|
                0 <= k < cfg.parameters@.len() && (#[trigger] cfg.parameters@[k]).id == id
                    ==> known is Some && exists|l: int|
                    0 <= l <= k && of_parameter(#[trigger] cfg.parameters@[l], id, known->0)
            &&& forall|b: int, i: int|
                0 <= b < cfg.blocks@.len() && 0 <= i < cfg.blocks@[b].instructions@.len() && (
                #[trigger] cfg.blocks@[b].instructions@[i]) is Declaration
                    && cfg.blocks@[b].instructions@[i]->Declaration_0.id == id ==> known is Some
        }),
        order::ascending(context_types::declared_types(function)),
{
    let cfg = function.coroutine.cfg;
    let own = cfg.parameters@;
    let found = context_types::parameter_types(own, own.len() as int);
    parameters_are_noted(own, own.len() as int, id);
    blocks_are_noted(found, cfg.blocks@, cfg.blocks@.len() as int, id);
    let known = order::lookup(context_types::declared_types(function), id);
    if let Some(d) = order::lookup(found, id) {
        let l = choose|l: int|
            0 <= l < own.len() && of_parameter(#[trigger] own[l], id, d) && forall|m: int|
                0 <= m < l ==> (#[trigger] own[m]).id != id;
        assert(of_parameter(own[l], id, d));
        assert forall|k: int|
            0 <= k < own.len() && (#[trigger] own[k]).id == id implies known is Some && exists|
            l: int,
        |
            0 <= l <= k && of_parameter(#[trigger] own[l], id, known->0) by {
            if k < l {
                assert(own[k].id != id);
            }
            assert(of_parameter(own[l], id, d));
        }
    } else if let Some(d) = known {
        let (b, i) = choose|b: int, i: int|
            0 <= b < cfg.blocks@.len() && 0 <= i < cfg.blocks@[b].instructions@.len()
                && of_instruction(#[trigger] cfg.blocks@[b].instructions@[i], id, d);
        assert(of_instruction(cfg.blocks@[b].instructions@[i], id, d));
    }
}

/// A name that stands alone has the type of the declaration that it means: of one
/// in sight that no other one in sight hides.
pub proof fn names_have_the_type_of_their_declaration(
    expression: HirExpr,
    scopes: Seq<ScopeId>,
    found: Seq<(DeclarationId, DeclarationType)>,
    m: int,
)
    requires
        expression.kind is Source,
        text::identifier(text::trimmed(expression.kind->Source_0@)),
        0 <= m < found.len(),
        in_sight(
            found[m].1,
            text::trimmed(expression.kind->Source_0@),
            expression.span.start_byte,
            scopes,
        ),
        forall|i: int|
            0 <= i < found.len() && i != m && in_sight(
                (#[trigger] found[i]).1,
                text::trimmed(expression.kind->Source_0@),
                expression.span.start_byte,
                scopes,
            ) ==> depth_of(found[i].1, scopes) < depth_of(found[m].1, scopes) || (depth_of(
                found[i].1,
                scopes,
            ) == depth_of(found[m].1, scopes) && found[i].1.start_byte < found[m].1.start_byte),
    ensures
        context_types::inferred_type(expression, scopes, found) == Some(
            text::trimmed(found[m].1.ty@),
        ),
{
    let s = text::trimmed(expression.kind->Source_0@);
    names_mean_the_innermost_declaration(
        found,
        s,
        expression.span.start_byte,
        scopes,
        found.len() as int,
    );
    if let Some(b) = context_types::meant_by(
        found,
        s,
        expression.span.start_byte,
        scopes,
        found.len() as int,
    ) {
        if b != m {
            assert(in_sight(found[b].1, s, expression.span.start_byte, scopes));
            assert(in_sight(found[m].1, s, expression.span.start_byte, scopes));
            assert(false);
        }
    }
}

/// Whether an instruction says that the result of a suspension has a type: the
/// type of the declaration that it is assigned to, or of the place it is kept in.
pub open spec fn instruction_says(
    instruction: CfgInstruction,
    found: Seq<(DeclarationId, DeclarationType)>,
    slot: AwaitSlotId,
    ty: Seq<char>,
) -> bool {
    match instruction {
        CfgInstruction::AssignAwaitResult { destination, slot: own, span } => own == slot
            && order::lookup(found, destination) is Some && ty == text::trimmed(
            (order::lookup(found, destination)->0).ty@,
        ),
        CfgInstruction::AssignExpressionSlot { slot: own, ty: given, expression, span } => own
            == slot && ty == text::trimmed(given.text@),
        _ => false,
    }
}

/// Whether the end of a block says that the result of a suspension has a type: that
/// of the function that returns it.
pub open spec fn end_says(
    block: BasicBlock,
    returned: Seq<char>,
    slot: AwaitSlotId,
    ty: Seq<char>,
) -> bool {
    match block.terminator {
        CfgTerminator::Return { value: Some(CfgValue::AwaitResult(own)), span } => own == slot
            && ty == text::trimmed(returned),
        _ => false,
    }
}

/// Whether a block says that the result of a suspension has a type.
pub open spec fn block_says(
    block: BasicBlock,
    found: Seq<(DeclarationId, DeclarationType)>,
    returned: Seq<char>,
    slot: AwaitSlotId,
    ty: Seq<char>,
) -> bool {
    end_says(block, returned, slot, ty) || exists|i: int|
        0 <= i < block.instructions@.len() && instruction_says(
            #[trigger] block.instructions@[i],
            found,
            slot,
            ty,
        )
}

/// Whether a block awaits an expression whose form tells the type.
pub open spec fn block_tells(
    block: BasicBlock,
    found: Seq<(DeclarationId, DeclarationType)>,
    slot: AwaitSlotId,
    ty: Seq<char>,
) -> bool {
    match block.terminator {
        CfgTerminator::Suspend { edge, operand, slot: own, continuation, span } => own == slot
            && context_types::inferred_type(operand, block.scope_stack@, found) == Some(ty),
        _ => false,
    }
}

proof fn instruction_results(
    types: Seq<(AwaitSlotId, Seq<char>)>,
    instructions: Seq<CfgInstruction>,
    found: Seq<(DeclarationId, DeclarationType)>,
    n: int,
    slot: AwaitSlotId,
)
    requires
        0 <= n <= instructions.len(),
        order::ascending(types),
    ensures
        order::ascending(context_types::note_results(types, instructions, found, n)),
        ({
            let after = order::lookup(
                context_types::note_results(types, instructions, found, n),
                slot,
            );
            ||| after is Some && exists|i: int|
                0 <= i < n && instruction_says(
                    #[trigger] instructions[i],
                    found,
                    slot,
                    after->0,
                )
            ||| after == order::lookup(types, slot) && forall|i: int, ty: Seq<char>|
                0 <= i < n ==> !#[trigger] instruction_says(instructions[i], found, slot, ty)
        }),
    decreases n,
{
    if n > 0 {
        instruction_results(types, instructions, found, n - 1, slot);
        let before = context_types::note_results(types, instructions, found, n - 1);
        let after = context_types::note_results(types, instructions, found, n);
        let last = instructions[n - 1];
        match last {
            CfgInstruction::AssignAwaitResult { destination, slot: own, span } => {
                if let Some(d) = order::lookup(found, destination) {
                    order::put_ascending(before, own, text::trimmed(d.ty@), slot);
                    if own == slot {
                        assert(instruction_says(last, found, slot, text::trimmed(d.ty@)));
                    }
                }
            },
            CfgInstruction::AssignExpressionSlot { slot: own, ty, expression, span } => {
                order::put_ascending(before, own, text::trimmed(ty.text@), slot);
                if own == slot {
                    assert(instruction_says(last, found, slot, text::trimmed(ty.text@)));
                }
            },
            _ => {},
        }
        let was = order::lookup(before, slot);
        let is = order::lookup(after, slot);
        if forall|ty: Seq<char>| !#[trigger] instruction_says(last, found, slot, ty) {
            assert(was == is);
            if was is Some && exists|i: int|
                0 <= i < n - 1 && instruction_says(
                    #[trigger] instructions[i],
                    found,
                    slot,
                    was->0,
                ) {
                let i = choose|i: int|
                    0 <= i < n - 1 && instruction_says(
                        #[trigger] instructions[i],
                        found,
                        slot,
                        was->0,
                    );
                assert(instruction_says(instructions[i], found, slot, is->0));
            }
        } else {
            assert(is is Some);
            assert(instruction_says(instructions[n - 1], found, slot, is->0));
        }
    }
}

/// Whether one of the first blocks says a type.
pub open spec fn blocks_say(
    blocks: Seq<BasicBlock>,
    found: Seq<(DeclarationId, DeclarationType)>,
    returned: Seq<char>,
    slot: AwaitSlotId,
    ty: Seq<char>,
    n: int,
) -> bool {
    exists|b: int| 0 <= b < n && block_says(#[trigger] blocks[b], found, returned, slot, ty)
}

/// Whether one of the first blocks tells a type.
pub open spec fn blocks_tell(
    blocks: Seq<BasicBlock>,
    found: Seq<(DeclarationId, DeclarationType)>,
    slot: AwaitSlotId,
    ty: Seq<char>,
    n: int,
) -> bool {
    exists|b: int| 0 <= b < n && block_tells(#[trigger] blocks[b], found, slot, ty)
}

proof fn block_results(
    function: LivenessFunction,
    found: Seq<(DeclarationId, DeclarationType)>,
    n: int,
    slot: AwaitSlotId,
)
    requires
        0 <= n <= function.coroutine.cfg.blocks@.len(),
    ensures
        order::ascending(context_types::result_types_upto(function, found, n)),
        ({
            let blocks = function.coroutine.cfg.blocks@;
            let returned = function.coroutine.cfg.return_type.text@;
            let known = order::lookup(context_types::result_types_upto(function, found, n), slot);
            ||| known is Some && blocks_say(blocks, found, returned, slot, known->0, n)
            ||| (forall|ty: Seq<char>| !#[trigger] blocks_say(blocks, found, returned, slot, ty, n))
                && (known is Some ==> blocks_tell(blocks, found, slot, known->0, n))
                && (known is None ==> forall|ty: Seq<char>|
                !#[trigger] blocks_tell(blocks, found, slot, ty, n))
        }),
    decreases n,
{
    let blocks = function.coroutine.cfg.blocks@;
    let returned = function.coroutine.cfg.return_type.text@;
    if n > 0 {
        block_results(function, found, n - 1, slot);
        let block = blocks[n - 1];
        let own = block.instructions@;
        let first = context_types::result_types_upto(function, found, n - 1);
        let noted = context_types::note_results(first, own, found, own.len() as int);
        instruction_results(first, own, found, own.len() as int, slot);
        let last = context_types::result_types_upto(function, found, n);
        match block.terminator {
            CfgTerminator::Return { value: Some(CfgValue::AwaitResult(at)), span } => {
                order::put_ascending(noted, at, text::trimmed(returned), slot);
            },
            CfgTerminator::Suspend { edge, operand, slot: at, continuation, span } => {
                if let Some(ty) = context_types::inferred_type(
                    operand,
                    block.scope_stack@,
                    found,
                ) {
                    order::put_ascending(noted, at, ty, slot);
                }
            },
            _ => {},
        }
        let was = order::lookup(first, slot);
        let mid = order::lookup(noted, slot);
        let is = order::lookup(last, slot);
        if exists|ty: Seq<char>| #[trigger] end_says(block, returned, slot, ty) {
            assert(is == Some(text::trimmed(returned)));
            assert(end_says(block, returned, slot, is->0));
            assert(block_says(blocks[n - 1], found, returned, slot, is->0));
            assert(blocks_say(blocks, found, returned, slot, is->0, n));
        } else if exists|i: int, ty: Seq<char>|
            0 <= i < own.len() && #[trigger] instruction_says(own[i], found, slot, ty) {
            let i = choose|i: int|
                0 <= i < own.len() && instruction_says(#[trigger] own[i], found, slot, mid->0);
            assert(!end_says(block, returned, slot, text::trimmed(returned)));
            assert(mid is Some);
            assert(is == mid);
            assert(instruction_says(block.instructions@[i], found, slot, is->0));
            assert(block_says(blocks[n - 1], found, returned, slot, is->0));
            assert(blocks_say(blocks, found, returned, slot, is->0, n));
        } else {
            assert(!end_says(block, returned, slot, text::trimmed(returned)));
            assert(mid == was);
            assert forall|ty: Seq<char>| !#[trigger] block_says(
                blocks[n - 1],
                found,
                returned,
                slot,
                ty,
            ) by {
                assert(!end_says(block, returned, slot, ty));
                assert forall|i: int| 0 <= i < own.len() implies !instruction_says(
                    #[trigger] own[i],
                    found,
                    slot,
                    ty,
                ) by {
                    assert(!instruction_says(own[i], found, slot, ty));
                }
            }
            if was is Some && blocks_say(blocks, found, returned, slot, was->0, n - 1) {
                let b = choose|b: int|
                    0 <= b < n - 1 && block_says(
                        #[trigger] blocks[b],
                        found,
                        returned,
                        slot,
                        was->0,
                    );
                assert(is == was);
                assert(block_says(blocks[b], found, returned, slot, is->0));
                assert(blocks_say(blocks, found, returned, slot, is->0, n));
            } else {
                assert forall|ty: Seq<char>| !#[trigger] blocks_say(
                    blocks,
                    found,
                    returned,
                    slot,
                    ty,
                    n,
                ) by {
                    assert(!blocks_say(blocks, found, returned, slot, ty, n - 1));
                    assert forall|b: int| 0 <= b < n implies !block_says(
                        #[trigger] blocks[b],
                        found,
                        returned,
                        slot,
                        ty,
                    ) by {
                        assert(!block_says(blocks[n - 1], found, returned, slot, ty));
                    }
                }
                if was is Some {
                    assert(is == was);
                    let b = choose|b: int|
                        0 <= b < n - 1 && block_tells(#[trigger] blocks[b], found, slot, was->0);
                    assert(block_tells(blocks[b], found, slot, is->0));
                    assert(blocks_tell(blocks, found, slot, is->0, n));
                } else if is is Some {
                    assert(block_tells(blocks[n - 1], found, slot, is->0));
                    assert(blocks_tell(blocks, found, slot, is->0, n));
                } else {
                    assert forall|ty: Seq<char>| !#[trigger] blocks_tell(
                        blocks,
                        found,
                        slot,
                        ty,
                        n,
                    ) by {
                        assert(!blocks_tell(blocks, found, slot, ty, n - 1));
                        assert forall|b: int| 0 <= b < n implies !block_tells(
                            #[trigger] blocks[b],
                            found,
                            slot,
                            ty,
                        ) by {
                        }
                    }
                }
            }
        }
    }
}

/// The result of a suspension has a type that an assignment or a return of it says.
/// Where none does, it has one that the form of an awaited expression tells, and
/// where none tells any, it has none.
pub proof fn results_have_the_type_of_their_use(function: LivenessFunction, slot: AwaitSlotId)
    ensures
        ({
            let blocks = function.coroutine.cfg.blocks@;
            let found = context_types::declared_types(function);
            let returned = function.coroutine.cfg.return_type.text@;
            let n = blocks.len() as int;
            let known = order::lookup(context_types::result_types_of(function), slot);
            ||| known is Some && blocks_say(blocks, found, returned, slot, known->0, n)
            ||| (forall|ty: Seq<char>| !#[trigger] blocks_say(blocks, found, returned, slot, ty, n))
                && (known is Some ==> blocks_tell(blocks, found, slot, known->0, n))
                && (known is None ==> forall|ty: Seq<char>|
                !#[trigger] blocks_tell(blocks, found, slot, ty, n))
        }),
{
    block_results(
        function,
        context_types::declared_types(function),
        function.coroutine.cfg.blocks@.len() as int,
        slot,
    );
}

/// The form of an awaited expression tells its type: a call has that of what it
/// calls, a task that of its declaration, and a literal that of its kind.
pub proof fn forms_tell_types(
    expression: HirExpr,
    scopes: Seq<ScopeId>,
    found: Seq<(DeclarationId, DeclarationType)>,
)
    ensures
        ({
            let told = context_types::inferred_type(expression, scopes, found);
            match expression.kind {
                HirExprKind::AsyncCall { target, callee, arguments, result_type } => told == Some(
                    text::trimmed(result_type.text@),
                ),
                HirExprKind::TaskRef { declaration, name } => match order::lookup(
                    found,
                    declaration,
                ) {
                    Some(own) => told == Some(text::trimmed(own.ty@)),
                    None => told is None,
                },
                HirExprKind::Source(source) => {
                    let s = text::trimmed(source@);
                    &&& s.len() > 0 && s.first() == '"' && !text::identifier(s) ==> told == Some(
                        "const char *"@,
                    )
                    &&& s.len() > 0 && s.first() == '\'' && !text::identifier(s) ==> told == Some(
                        "int"@,
                    )
                    &&& s.len() > 0 && !text::identifier(s) && (forall|i: int|
                        0 <= i < s.len() ==> '0' <= #[trigger] s[i] && s[i] <= '9')
                        ==> told == Some("long long"@)
                },
                _ => told is None,
            }
        }),
{
}

} // verus!
