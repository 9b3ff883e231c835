//! Typed expressions and declarations of one function body.

use vstd::prelude::*;

use crate::symbol_index::FunctionId;
use crate::syntax::SourceSpan;

verus! {

/// Identity of one declaration of a function.
#[derive(Debug, Clone, Copy, PartialEq, Eq, PartialOrd, Ord, Hash, Structural)]
pub struct DeclarationId(pub u32);

/// Identity of one lexical scope of a function.
#[derive(Debug, Clone, Copy, PartialEq, Eq, PartialOrd, Ord, Hash, Structural)]
pub struct ScopeId(pub u32);

/// Identity of one suspension slot of a function.
#[derive(Debug, Clone, Copy, PartialEq, Eq, PartialOrd, Ord, Hash, Structural)]
pub struct AwaitSlotId(pub u32);

/// A piece of source text and where it stands.
#[derive(Debug, PartialEq, Eq)]
pub struct SourceFragment {
    pub text: String,
    pub span: SourceSpan,
}

impl Clone for SourceFragment {
    fn clone(&self) -> (r: Self)
        ensures
            r == *self,
    {
        SourceFragment { text: self.text.clone(), span: self.span.clone() }
    }
}

/// One expression.
#[derive(Debug, PartialEq, Eq)]
pub struct HirExpr {
    pub kind: HirExprKind,
    pub span: SourceSpan,
}

/// The forms of expressions.
#[derive(Debug, PartialEq, Eq)]
pub enum HirExprKind {
    Source(String),
    AwaitResultRef(AwaitSlotId),
    Composite { source: String, extensions: Vec<HirExpr> },
    TaskRef { declaration: DeclarationId, name: String },
    Call { function: Box<HirExpr>, arguments: Vec<HirExpr> },
    AsyncCall {
        target: Option<FunctionId>,
        callee: String,
        arguments: Vec<HirExpr>,
        result_type: SourceFragment,
    },
    Binary { left: Box<HirExpr>, operator: String, right: Box<HirExpr> },
    Conditional { condition: Box<HirExpr>, consequence: Box<HirExpr>, alternative: Box<HirExpr> },
    Comma { left: Box<HirExpr>, right: Box<HirExpr> },
    Assignment { left: Box<HirExpr>, operator: String, right: Box<HirExpr> },
    Unary { operator: String, operand: Box<HirExpr> },
    Await(Box<HirExpr>),
    Yield(Option<Box<HirExpr>>),
}

/// One local declaration.
#[derive(Debug, Clone, PartialEq, Eq)]
pub struct HirDeclaration {
    pub id: DeclarationId,
    pub name: String,
    pub ty: SourceFragment,
    pub scope: ScopeId,
    pub is_task: bool,
    pub initializer: Option<HirExpr>,
    pub span: SourceSpan,
}

/// One `__defer` statement before it is lowered.
#[derive(Debug, Clone, PartialEq, Eq)]
pub struct HirDefer {
    pub call: HirExpr,
    pub span: SourceSpan,
}

/// Whether two expressions have the same form and the same parts.
pub open spec fn same_expr(a: HirExpr, b: HirExpr) -> bool
    decreases a,
{
    a.span == b.span && same_kind(a.kind, b.kind)
}

/// Whether two lists hold the same expressions in the same order.
pub open spec fn same_exprs(a: Seq<HirExpr>, b: Seq<HirExpr>) -> bool
    decreases a,
{
    a.len() == b.len() && forall|i: int| 0 <= i < a.len() ==> same_expr(#[trigger] a[i], b[i])
}

/// Whether two forms are the same and hold the same parts.
pub open spec fn same_kind(a: HirExprKind, b: HirExprKind) -> bool
    decreases a,
{
    match (a, b) {
        (HirExprKind::Source(x), HirExprKind::Source(y)) => x == y,
        (HirExprKind::AwaitResultRef(x), HirExprKind::AwaitResultRef(y)) => x == y,
        (
            HirExprKind::Composite { source: x, extensions: xs },
            HirExprKind::Composite { source: y, extensions: ys },
        ) => x == y && same_exprs(xs@, ys@),
        (
            HirExprKind::TaskRef { declaration: d, name: x },
            HirExprKind::TaskRef { declaration: e, name: y },
        ) => d == e && x == y,
        (
            HirExprKind::Call { function: f, arguments: xs },
            HirExprKind::Call { function: g, arguments: ys },
        ) => same_expr(*f, *g) && same_exprs(xs@, ys@),
        (
            HirExprKind::AsyncCall { target: t, callee: c, arguments: xs, result_type: r },
            HirExprKind::AsyncCall { target: u, callee: d, arguments: ys, result_type: s },
        ) => t == u && c == d && r == s && same_exprs(xs@, ys@),
        (
            HirExprKind::Binary { left: l, operator: o, right: r },
            HirExprKind::Binary { left: m, operator: p, right: s },
        ) => same_expr(*l, *m) && o == p && same_expr(*r, *s),
        (
            HirExprKind::Conditional { condition: c, consequence: l, alternative: r },
            HirExprKind::Conditional { condition: d, consequence: m, alternative: s },
        ) => same_expr(*c, *d) && same_expr(*l, *m) && same_expr(*r, *s),
        (
            HirExprKind::Comma { left: l, right: r },
            HirExprKind::Comma { left: m, right: s },
        ) => same_expr(*l, *m) && same_expr(*r, *s),
        (
            HirExprKind::Assignment { left: l, operator: o, right: r },
            HirExprKind::Assignment { left: m, operator: p, right: s },
        ) => same_expr(*l, *m) && o == p && same_expr(*r, *s),
        (
            HirExprKind::Unary { operator: o, operand: x },
            HirExprKind::Unary { operator: p, operand: y },
        ) => o == p && same_expr(*x, *y),
        (HirExprKind::Await(x), HirExprKind::Await(y)) => same_expr(*x, *y),
        (HirExprKind::Yield(None), HirExprKind::Yield(None)) => true,
        (HirExprKind::Yield(Some(x)), HirExprKind::Yield(Some(y))) => same_expr(*x, *y),
        _ => false,
    }
}

impl Clone for HirExpr {
    fn clone(&self) -> (r: Self)
        ensures
            same_expr(r, *self),
    {
        clone_expr(self)
    }
}

impl Clone for HirExprKind {
    fn clone(&self) -> (r: Self)
        ensures
            same_kind(r, *self),
    {
        clone_kind(self)
    }
}

/// Copies an expression.
pub fn clone_expr(e: &HirExpr) -> (r: HirExpr)
    ensures
        same_expr(r, *e),
    decreases e,
{
    let kind = clone_kind(&e.kind);
    HirExpr { kind, span: e.span.clone() }
}

fn clone_exprs(list: &Vec<HirExpr>) -> (r: Vec<HirExpr>)
    ensures
        same_exprs(r@, list@),
    decreases list,
{
    let mut r: Vec<HirExpr> = Vec::new();
    let mut i: usize = 0;
    while i < list.len()
        invariant
            i <= list@.len(),
            r@.len() == i,
            forall|k: int| 0 <= k < i ==> same_expr(#[trigger] r@[k], list@[k]),
        decreases list@.len() - i,
    {
        assert(decreases_to!(list => list@));
        assert(decreases_to!(list@ => list@[i as int]));
        r.push(clone_expr(&list[i]));
        i += 1;
    }
    r
}

fn clone_kind(kind: &HirExprKind) -> (r: HirExprKind)
    ensures
        same_kind(r, *kind),
    decreases kind,
{
    match kind {
        HirExprKind::Source(x) => HirExprKind::Source(x.clone()),
        HirExprKind::AwaitResultRef(x) => HirExprKind::AwaitResultRef(*x),
        HirExprKind::Composite { source, extensions } => HirExprKind::Composite {
            source: source.clone(),
            extensions: clone_exprs(extensions),
        },
        HirExprKind::TaskRef { declaration, name } => HirExprKind::TaskRef {
            declaration: *declaration,
            name: name.clone(),
        },
        HirExprKind::Call { function, arguments } => HirExprKind::Call {
            function: Box::new(clone_expr(function)),
            arguments: clone_exprs(arguments),
        },
        HirExprKind::AsyncCall { target, callee, arguments, result_type } => HirExprKind::AsyncCall {
            target: *target,
            callee: callee.clone(),
            arguments: clone_exprs(arguments),
            result_type: result_type.clone(),
        },
        HirExprKind::Binary { left, operator, right } => HirExprKind::Binary {
            left: Box::new(clone_expr(left)),
            operator: operator.clone(),
            right: Box::new(clone_expr(right)),
        },
        HirExprKind::Conditional { condition, consequence, alternative } => HirExprKind::Conditional {
            condition: Box::new(clone_expr(condition)),
            consequence: Box::new(clone_expr(consequence)),
            alternative: Box::new(clone_expr(alternative)),
        },
        HirExprKind::Comma { left, right } => HirExprKind::Comma {
            left: Box::new(clone_expr(left)),
            right: Box::new(clone_expr(right)),
        },
        HirExprKind::Assignment { left, operator, right } => HirExprKind::Assignment {
            left: Box::new(clone_expr(left)),
            operator: operator.clone(),
            right: Box::new(clone_expr(right)),
        },
        HirExprKind::Unary { operator, operand } => HirExprKind::Unary {
            operator: operator.clone(),
            operand: Box::new(clone_expr(operand)),
        },
        HirExprKind::Await(operand) => HirExprKind::Await(Box::new(clone_expr(operand))),
        HirExprKind::Yield(value) => HirExprKind::Yield(
            match value {
                Some(value) => Some(Box::new(clone_expr(value))),
                None => None,
            },
        ),
    }
}

} // verus!
