//! Types of await results and declarators of context fields.

use vstd::prelude::*;

use crate::control_flow::{BasicBlock, CfgInstruction, CfgParameter, CfgTerminator, CfgValue};
use crate::liveness::LivenessFunction;
use crate::order;
use crate::order::{find_value, put_value};
use crate::semantic::{AwaitSlotId, DeclarationId, HirExpr, HirExprKind, ScopeId};
use crate::text;
use crate::text::{chars_of, find, is_identifier, put, put3, put4, str_eq, string_of, trim, trim_end};

verus! {

/// A name, as C declares it with the given type.
pub open spec fn declarator(ty: Seq<char>, name: Seq<char>) -> Seq<char> {
    let pointer = text::first_occurrence(ty, "(*)"@, 0);
    let bracket = text::first_occurrence(ty, "["@, 0);
    if pointer >= 0 {
        Seq::<char>::empty() + ty.take(pointer) + "(*"@ + name + ")"@ + ty.skip(
            pointer + "(*)"@.len(),
        )
    } else if bracket >= 0 {
        Seq::<char>::empty() + text::trim_back(ty.take(bracket)) + " "@ + name + ty.skip(bracket)
    } else {
        Seq::<char>::empty() + ty + " "@ + name
    }
}

/// Declares a name with a type, inside the declarator of function pointers and
/// before the bounds of arrays.
pub fn render_typed_name(ty: &str, name: &str) -> (r: String)
    ensures
        r@ == declarator(ty@, name@),
{
    let chars = chars_of(ty);
    let mut out = String::new();
    assert(out@ =~= Seq::empty());
    let pointer = chars_of("(*)");
    if let Some(index) = find(&chars, &pointer) {
        assert(index + pointer@.len() <= chars.len());
        let end: usize = index + pointer.len();
        let before = string_of(&chars, 0, index);
        let after = string_of(&chars, end, chars.len());
        assert(before@ =~= ty@.take(index as int));
        assert(after@ =~= ty@.skip(end as int));
        put4(&mut out, before.as_str(), "(*", name, ")");
        put(&mut out, after.as_str());
        return out;
    }
    if let Some(index) = find(&chars, &chars_of("[")) {
        let before = string_of(&chars, 0, index);
        let after = string_of(&chars, index, chars.len());
        assert(before@ =~= ty@.take(index as int));
        assert(after@ =~= ty@.skip(index as int));
        put4(&mut out, trim_end(before.as_str()), " ", name, after.as_str());
        return out;
    }
    put3(&mut out, ty, " ", name);
    out
}

/// One declaration that expressions can name.
pub struct DeclarationType<'a> {
    pub name: &'a String,
    pub ty: &'a String,
    pub scope: ScopeId,
    pub start_byte: usize,
}

/// The declarations after one more, which gives way to one of the same
/// identity.
pub open spec fn note_type<'a>(
    found: Seq<(DeclarationId, DeclarationType<'a>)>,
    id: DeclarationId,
    declaration: DeclarationType<'a>,
) -> Seq<(DeclarationId, DeclarationType<'a>)> {
    if order::lookup(found, id) is Some {
        found
    } else {
        order::put(found, id, declaration)
    }
}

/// The first `n` parameters as declarations.
pub open spec fn parameter_types<'a>(parameters: Seq<CfgParameter>, n: int) -> Seq<
    (DeclarationId, DeclarationType<'a>),
>
    decreases n,
{
    if n <= 0 {
        Seq::empty()
    } else {
        let parameter = parameters[n - 1];
        note_type(
            parameter_types(parameters, n - 1),
            parameter.id,
            DeclarationType {
                name: &parameter.name,
                ty: &parameter.ty.text,
                scope: parameter.scope,
                start_byte: parameter.span.start_byte,
            },
        )
    }
}

/// The declarations after the first `n` instructions of a block.
pub open spec fn instruction_types<'a>(
    found: Seq<(DeclarationId, DeclarationType<'a>)>,
    instructions: Seq<CfgInstruction>,
    n: int,
) -> Seq<(DeclarationId, DeclarationType<'a>)>
    decreases n,
{
    if n <= 0 {
        found
    } else {
        let before = instruction_types(found, instructions, n - 1);
        match instructions[n - 1] {
            CfgInstruction::Declaration(declaration) => note_type(
                before,
                declaration.id,
                DeclarationType {
                    name: &declaration.name,
                    ty: &declaration.ty.text,
                    scope: declaration.scope,
                    start_byte: declaration.span.start_byte,
                },
            ),
            _ => before,
        }
    }
}

/// The declarations after the first `n` blocks.
pub open spec fn block_types<'a>(
    found: Seq<(DeclarationId, DeclarationType<'a>)>,
    blocks: Seq<BasicBlock>,
    n: int,
) -> Seq<(DeclarationId, DeclarationType<'a>)>
    decreases n,
{
    if n <= 0 {
        found
    } else {
        instruction_types(
            block_types(found, blocks, n - 1),
            blocks[n - 1].instructions@,
            blocks[n - 1].instructions@.len() as int,
        )
    }
}

/// The declarations of a function by identity; of several with one identity
/// the first, parameters before others.
pub open spec fn declared_types<'a>(function: LivenessFunction) -> Seq<
    (DeclarationId, DeclarationType<'a>),
> {
    let cfg = function.coroutine.cfg;
    block_types(
        parameter_types(cfg.parameters@, cfg.parameters@.len() as int),
        cfg.blocks@,
        cfg.blocks@.len() as int,
    )
}

fn add_type<'a>(
    found: &mut Vec<(DeclarationId, DeclarationType<'a>)>,
    id: DeclarationId,
    declaration: DeclarationType<'a>,
)
    ensures
        final(found)@ == note_type(old(found)@, id, declaration),
{
    if find_value(found, id).is_none() {
        put_value(found, id, declaration);
    }
}

/// Collects the declarations of a function.
pub fn collect_types<'a>(function: &'a LivenessFunction) -> (r: Vec<
    (DeclarationId, DeclarationType<'a>),
>)
    ensures
        r@ == declared_types(*function),
{
    let cfg = &function.coroutine.cfg;
    let mut found: Vec<(DeclarationId, DeclarationType<'a>)> = Vec::new();
    let mut p: usize = 0;
    while p < cfg.parameters.len()
        invariant
            p <= cfg.parameters@.len(),
            found@ == parameter_types(cfg.parameters@, p as int),
        decreases cfg.parameters@.len() - p,
    {
        let parameter = &cfg.parameters[p];
        add_type(
            &mut found,
            parameter.id,
            DeclarationType {
                name: &parameter.name,
                ty: &parameter.ty.text,
                scope: parameter.scope,
                start_byte: parameter.span.start_byte,
            },
        );
        p += 1;
    }
    let ghost start = found@;
    let mut b: usize = 0;
    while b < cfg.blocks.len()
        invariant
            b <= cfg.blocks@.len(),
            found@ == block_types(start, cfg.blocks@, b as int),
        decreases cfg.blocks@.len() - b,
    {
        let instructions = &cfg.blocks[b].instructions;
        let ghost before = found@;
        let mut i: usize = 0;
        while i < instructions.len()
            invariant
                i <= instructions@.len(),
                found@ == instruction_types(before, instructions@, i as int),
            decreases instructions@.len() - i,
        {
            if let CfgInstruction::Declaration(declaration) = &instructions[i] {
                add_type(
                    &mut found,
                    declaration.id,
                    DeclarationType {
                        name: &declaration.name,
                        ty: &declaration.ty.text,
                        scope: declaration.scope,
                        start_byte: declaration.span.start_byte,
                    },
                );
            }
            i += 1;
        }
        b += 1;
    }
    found
}

/// The first position of a scope, from `i` on.
pub open spec fn scope_position(scopes: Seq<ScopeId>, scope: ScopeId, i: int) -> Option<int>
    decreases scopes.len() - i,
{
    if i < 0 || i >= scopes.len() {
        None
    } else if scopes[i] == scope {
        Some(i)
    } else {
        scope_position(scopes, scope, i + 1)
    }
}

/// Finds the first position of a scope.
pub fn find_scope(scopes: &Vec<ScopeId>, scope: ScopeId) -> (r: Option<usize>)
    ensures
        match r {
            Some(i) => scope_position(scopes@, scope, 0) == Some(i as int),
            None => scope_position(scopes@, scope, 0) is None,
        },
{
    let mut i: usize = 0;
    while i < scopes.len()
        invariant
            i <= scopes@.len(),
            scope_position(scopes@, scope, 0) == scope_position(scopes@, scope, i as int),
        decreases scopes@.len() - i,
    {
        if scopes[i] == scope {
            return Some(i);
        }
        i += 1;
    }
    None
}

/// Whether a declaration can be meant by `name` at `byte` inside `scopes`.
pub open spec fn is_visible(
    declaration: DeclarationType,
    name: Seq<char>,
    byte: usize,
    scopes: Seq<ScopeId>,
) -> bool {
    declaration.name@ == name && declaration.start_byte <= byte && scope_position(
        scopes,
        declaration.scope,
        0,
    ) is Some
}

/// The declaration that `name` means among the first `n`: of the visible ones
/// that in the innermost scope, and of several there the one that starts last.
pub open spec fn meant_by(
    found: Seq<(DeclarationId, DeclarationType)>,
    name: Seq<char>,
    byte: usize,
    scopes: Seq<ScopeId>,
    n: int,
) -> Option<int>
    decreases n,
{
    if n <= 0 {
        None
    } else {
        let best = meant_by(found, name, byte, scopes, n - 1);
        let declaration = found[n - 1].1;
        if !is_visible(declaration, name, byte, scopes) {
            best
        } else {
            match best {
                None => Some(n - 1),
                Some(b) => {
                    let depth = scope_position(scopes, declaration.scope, 0)->0;
                    let other = scope_position(scopes, found[b].1.scope, 0)->0;
                    if depth > other || (depth == other && declaration.start_byte
                        >= found[b].1.start_byte) {
                        Some(n - 1)
                    } else {
                        Some(b)
                    }
                },
            }
        }
    }
}

fn resolve(
    found: &Vec<(DeclarationId, DeclarationType<'_>)>,
    name: &str,
    byte: usize,
    scopes: &Vec<ScopeId>,
) -> (r: Option<usize>)
    ensures
        match r {
            Some(i) => meant_by(found@, name@, byte, scopes@, found@.len() as int) == Some(i as int)
                && i < found@.len(),
            None => meant_by(found@, name@, byte, scopes@, found@.len() as int) is None,
        },
{
    let mut best: Option<(usize, usize)> = None;
    let mut n: usize = 0;
    while n < found.len()
        invariant
            n <= found@.len(),
            match best {
                Some((i, depth)) => i < n && meant_by(found@, name@, byte, scopes@, n as int)
                    == Some(i as int) && scope_position(scopes@, found@[i as int].1.scope, 0)
                    == Some(depth as int),
                None => meant_by(found@, name@, byte, scopes@, n as int) is None,
            },
        decreases found@.len() - n,
    {
        let declaration = &found[n].1;
        let place = find_scope(scopes, declaration.scope);
        if let Some(depth) = place {
            if declaration.start_byte <= byte && str_eq(declaration.name.as_str(), name) {
                let better = match best {
                    None => true,
                    Some((b, other)) => depth > other || (depth == other && declaration.start_byte
                        >= found[b].1.start_byte),
                };
                if better {
                    best = Some((n, depth));
                }
            }
        }
        n += 1;
    }
    match best {
        Some((i, depth)) => Some(i),
        None => None,
    }
}

/// Whether a character can stand in an integer literal.
pub open spec fn literal_char(c: char) -> bool {
    text::is_digit(c) || c == 'x' || c == 'X' || ('a' <= c && c <= 'f') || ('A' <= c && c <= 'F')
        || c == 'u' || c == 'U' || c == 'l' || c == 'L'
}

/// Whether a text consists of characters of integer literals.
pub open spec fn literal_text(s: Seq<char>) -> bool {
    forall|i: int| 0 <= i < s.len() ==> literal_char(#[trigger] s[i])
}

fn is_literal_text(chars: &Vec<char>) -> (r: bool)
    ensures
        r == literal_text(chars@),
{
    let mut i: usize = 0;
    while i < chars.len()
        invariant
            i <= chars@.len(),
            forall|k: int| 0 <= k < i ==> literal_char(#[trigger] chars@[k]),
        decreases chars@.len() - i,
    {
        let c = chars[i];
        if !(('0' <= c && c <= '9') || c == 'x' || c == 'X' || ('a' <= c && c <= 'f') || ('A' <= c
            && c <= 'F') || c == 'u' || c == 'U' || c == 'l' || c == 'L') {
            assert(!literal_char(chars@[i as int]));
            return false;
        }
        i += 1;
    }
    true
}

/// The type of an awaited expression, as far as its form tells.
pub open spec fn inferred_type(
    expression: HirExpr,
    scopes: Seq<ScopeId>,
    found: Seq<(DeclarationId, DeclarationType)>,
) -> Option<Seq<char>> {
    match expression.kind {
        HirExprKind::AsyncCall { target, callee, arguments, result_type } => Some(
            text::trimmed(result_type.text@),
        ),
        HirExprKind::TaskRef { declaration, name } => match order::lookup(found, declaration) {
            Some(symbol) => Some(text::trimmed(symbol.ty@)),
            None => None,
        },
        HirExprKind::Source(source) => {
            let s = text::trimmed(source@);
            if text::identifier(s) {
                match meant_by(
                    found,
                    s,
                    expression.span.start_byte,
                    scopes,
                    found.len() as int,
                ) {
                    Some(i) => Some(text::trimmed(found[i].1.ty@)),
                    None => None,
                }
            } else if s.len() > 0 && s[0] == '"' {
                Some("const char *"@)
            } else if s.len() > 0 && s[0] == '\'' {
                Some("int"@)
            } else if literal_text(s) {
                Some("long long"@)
            } else {
                None
            }
        },
        _ => None,
    }
}

/// Infers the type of an awaited expression, as far as its form tells.
pub fn infer_expression_type(
    expression: &HirExpr,
    scopes: &Vec<ScopeId>,
    found: &Vec<(DeclarationId, DeclarationType<'_>)>,
) -> (r: Option<String>)
    ensures
        match r {
            Some(ty) => inferred_type(*expression, scopes@, found@) == Some(ty@),
            None => inferred_type(*expression, scopes@, found@) is None,
        },
{
    match &expression.kind {
        HirExprKind::AsyncCall { target, callee, arguments, result_type } => Some(
            trim(result_type.text.as_str()).to_owned(),
        ),
        HirExprKind::TaskRef { declaration, name } => match find_value(found, *declaration) {
            Some(symbol) => Some(trim(symbol.ty.as_str()).to_owned()),
            None => None,
        },
        HirExprKind::Source(source) => {
            let s = trim(source.as_str());
            let chars = chars_of(s);
            if is_identifier(s) {
                match resolve(found, s, expression.span.start_byte, scopes) {
                    Some(i) => Some(trim(found[i].1.ty.as_str()).to_owned()),
                    None => None,
                }
            } else if chars.len() > 0 && chars[0] == '"' {
                Some("const char *".to_owned())
            } else if chars.len() > 0 && chars[0] == '\'' {
                Some("int".to_owned())
            } else if is_literal_text(&chars) {
                Some("long long".to_owned())
            } else {
                None
            }
        },
        _ => None,
    }
}

/// The result types after one more instruction.
pub open spec fn note_result(
    types: Seq<(AwaitSlotId, Seq<char>)>,
    instruction: CfgInstruction,
    found: Seq<(DeclarationId, DeclarationType)>,
) -> Seq<(AwaitSlotId, Seq<char>)> {
    match instruction {
        CfgInstruction::AssignAwaitResult { destination, slot, span } => match order::lookup(
            found,
            destination,
        ) {
            Some(declaration) => order::put(types, slot, text::trimmed(declaration.ty@)),
            None => types,
        },
        CfgInstruction::AssignExpressionSlot { slot, ty, expression, span } => order::put(
            types,
            slot,
            text::trimmed(ty.text@),
        ),
        _ => types,
    }
}

/// The result types after the first `n` instructions of a block.
pub open spec fn note_results(
    types: Seq<(AwaitSlotId, Seq<char>)>,
    instructions: Seq<CfgInstruction>,
    found: Seq<(DeclarationId, DeclarationType)>,
    n: int,
) -> Seq<(AwaitSlotId, Seq<char>)>
    decreases n,
{
    if n <= 0 {
        types
    } else {
        note_result(
            note_results(types, instructions, found, n - 1),
            instructions[n - 1],
            found,
        )
    }
}

/// The result types after the end of a block. What an assignment says of a
/// slot is kept over what the form of the awaited expression tells.
pub open spec fn note_terminator(
    types: Seq<(AwaitSlotId, Seq<char>)>,
    block: BasicBlock,
    return_type: Seq<char>,
    found: Seq<(DeclarationId, DeclarationType)>,
) -> Seq<(AwaitSlotId, Seq<char>)> {
    match block.terminator {
        CfgTerminator::Return { value: Some(CfgValue::AwaitResult(slot)), span } => order::put(
            types,
            slot,
            text::trimmed(return_type),
        ),
        CfgTerminator::Suspend { edge, operand, slot, continuation, span } => if order::lookup(
            types,
            slot,
        ) is Some {
            types
        } else {
            match inferred_type(operand, block.scope_stack@, found) {
                Some(ty) => order::put(types, slot, ty),
                None => types,
            }
        },
        _ => types,
    }
}

/// The result types of the first `n` blocks.
pub open spec fn result_types_upto(
    function: LivenessFunction,
    found: Seq<(DeclarationId, DeclarationType)>,
    n: int,
) -> Seq<(AwaitSlotId, Seq<char>)>
    decreases n,
{
    if n <= 0 {
        Seq::empty()
    } else {
        let block = function.coroutine.cfg.blocks@[n - 1];
        note_terminator(
            note_results(
                result_types_upto(function, found, n - 1),
                block.instructions@,
                found,
                block.instructions@.len() as int,
            ),
            block,
            function.coroutine.cfg.return_type.text@,
            found,
        )
    }
}

/// The types of the await results of a function, by slot.
pub open spec fn result_types_of(function: LivenessFunction) -> Seq<(AwaitSlotId, Seq<char>)> {
    result_types_upto(
        function,
        declared_types(function),
        function.coroutine.cfg.blocks@.len() as int,
    )
}

fn put_type(types: &mut Vec<(AwaitSlotId, String)>, slot: AwaitSlotId, ty: String)
    ensures
        order::entry_views(final(types)@) == order::put(
            order::entry_views(old(types)@),
            slot,
            ty@,
        ),
{
    proof {
        order::put_views(types@, slot, ty);
    }
    put_value(types, slot, ty);
}

/// Finds the types of the await results of a function.
pub fn await_result_types(function: &LivenessFunction) -> (r: Vec<(AwaitSlotId, String)>)
    ensures
        order::entry_views(r@) == result_types_of(*function),
{
    let found = collect_types(function);
    let cfg = &function.coroutine.cfg;
    let mut types: Vec<(AwaitSlotId, String)> = Vec::new();
    assert(order::entry_views(types@) =~= Seq::empty());
    let mut b: usize = 0;
    while b < cfg.blocks.len()
        invariant
            b <= cfg.blocks@.len(),
            *cfg == function.coroutine.cfg,
            order::entry_views(types@) == result_types_upto(*function, found@, b as int),
        decreases cfg.blocks@.len() - b,
    {
        let block = &cfg.blocks[b];
        let ghost before = order::entry_views(types@);
        let mut i: usize = 0;
        while i < block.instructions.len()
            invariant
                i <= block.instructions@.len(),
                order::entry_views(types@) == note_results(
                    before,
                    block.instructions@,
                    found@,
                    i as int,
                ),
            decreases block.instructions@.len() - i,
        {
            match &block.instructions[i] {
                CfgInstruction::AssignAwaitResult { destination, slot, span } => {
                    if let Some(declaration) = find_value(&found, *destination) {
                        put_type(
                            &mut types,
                            *slot,
                            trim(declaration.ty.as_str()).to_owned(),
                        );
                    }
                },
                CfgInstruction::AssignExpressionSlot { slot, ty, expression, span } => {
                    put_type(&mut types, *slot, trim(ty.text.as_str()).to_owned());
                },
                _ => {},
            }
            i += 1;
        }
        match &block.terminator {
            CfgTerminator::Return { value: Some(CfgValue::AwaitResult(slot)), span } => {
                put_type(&mut types, *slot, trim(cfg.return_type.text.as_str()).to_owned());
            },
            CfgTerminator::Suspend { edge, operand, slot, continuation, span } => {
                proof {
                    order::lookup_views(types@, *slot);
                }
                if find_value(&types, *slot).is_none() {
                    if let Some(ty) = infer_expression_type(operand, &block.scope_stack, &found) {
                        put_type(&mut types, *slot, ty);
                    }
                }
            },
            _ => {},
        }
        b += 1;
    }
    types
}

} // verus!
