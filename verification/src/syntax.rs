//! Source positions, diagnostics and the named syntax tree of one unit.

use vstd::prelude::*;

verus! {

/// A zero-based line and column.
#[derive(Debug, Clone, Copy, PartialEq, Eq, Structural)]
pub struct SourcePoint {
    pub row: usize,
    pub column: usize,
}

/// A half-open byte range of one source file.
#[derive(Debug, PartialEq, Eq)]
pub struct SourceSpan {
    pub path: String,
    pub start_byte: usize,
    pub end_byte: usize,
    pub start: SourcePoint,
    pub end: SourcePoint,
}

impl Clone for SourceSpan {
    fn clone(&self) -> (r: Self)
        ensures
            r == *self,
    {
        SourceSpan {
            path: self.path.clone(),
            start_byte: self.start_byte,
            end_byte: self.end_byte,
            start: self.start,
            end: self.end,
        }
    }
}

/// How serious a diagnostic is.
#[derive(Debug, Clone, Copy, PartialEq, Eq, Structural)]
pub enum DiagnosticSeverity {
    Error,
    Warning,
    Note,
}

/// A second position that explains a diagnostic.
#[derive(Debug, PartialEq, Eq)]
pub struct RelatedSpan {
    pub message: String,
    pub span: SourceSpan,
}

impl Clone for RelatedSpan {
    fn clone(&self) -> (r: Self)
        ensures
            r == *self,
    {
        RelatedSpan { message: self.message.clone(), span: self.span.clone() }
    }
}

/// One problem found in a source file.
#[derive(Debug, PartialEq, Eq)]
pub struct Diagnostic {
    pub code: &'static str,
    pub severity: DiagnosticSeverity,
    pub message: String,
    pub primary_span: SourceSpan,
    pub related: Vec<RelatedSpan>,
}

/// The contents of a diagnostic.
pub struct DiagnosticView {
    pub code: Seq<char>,
    pub severity: DiagnosticSeverity,
    pub message: Seq<char>,
    pub primary_span: SourceSpan,
    pub related: Seq<RelatedSpan>,
}

impl View for Diagnostic {
    type V = DiagnosticView;

    open spec fn view(&self) -> DiagnosticView {
        DiagnosticView {
            code: self.code@,
            severity: self.severity,
            message: self.message@,
            primary_span: self.primary_span,
            related: self.related@,
        }
    }
}

impl Clone for Diagnostic {
    fn clone(&self) -> (r: Self)
        ensures
            r@ == self@,
    {
        let related = self.related.clone();
        assert(related@ =~= self.related@);
        Diagnostic {
            code: self.code,
            severity: self.severity,
            message: self.message.clone(),
            primary_span: self.primary_span.clone(),
            related,
        }
    }
}

/// An error without related positions.
pub open spec fn error_view(
    code: Seq<char>,
    message: Seq<char>,
    span: SourceSpan,
) -> DiagnosticView {
    DiagnosticView {
        code,
        severity: DiagnosticSeverity::Error,
        message,
        primary_span: span,
        related: Seq::empty(),
    }
}

/// Builds an error without related positions.
pub fn error_diagnostic(code: &'static str, message: &str, span: &SourceSpan) -> (r: Diagnostic)
    ensures
        r@ == error_view(code@, message@, *span),
{
    let r = Diagnostic {
        code,
        severity: DiagnosticSeverity::Error,
        message: message.to_owned(),
        primary_span: span.clone(),
        related: Vec::new(),
    };
    assert(r.related@ =~= Seq::<RelatedSpan>::empty());
    r
}

/// The contents of every element of a sequence.
pub open spec fn views<T: View>(s: Seq<T>) -> Seq<T::V> {
    Seq::new(s.len(), |i: int| s[i]@)
}

/// Appending an element appends its contents.
pub broadcast proof fn views_push<T: View>(s: Seq<T>, x: T)
    ensures
        #[trigger] views(s.push(x)) == views(s).push(x@),
{
    assert(views(s.push(x)) =~= views(s).push(x@));
}

/// The contents of two sequences, one after the other.
pub broadcast proof fn views_add<T: View>(s: Seq<T>, t: Seq<T>)
    ensures
        #[trigger] views(s + t) == views(s) + views(t),
{
    assert(views(s + t) =~= views(s) + views(t));
}

/// An empty sequence has empty contents.
pub broadcast proof fn views_empty<T: View>()
    ensures
        #[trigger] views(Seq::<T>::empty()) == Seq::<T::V>::empty(),
{
    assert(views(Seq::<T>::empty()) =~= Seq::<T::V>::empty());
}

/// Copies a list of diagnostics.
pub fn clone_diagnostics(list: &Vec<Diagnostic>) -> (r: Vec<Diagnostic>)
    ensures
        views(r@) == views(list@),
{
    broadcast use {views_push, views_empty};

    let mut r: Vec<Diagnostic> = Vec::new();
    let mut i: usize = 0;
    assert(views(list@.take(0)) =~= Seq::empty());
    while i < list.len()
        invariant
            i <= list@.len(),
            views(r@) == views(list@.take(i as int)),
        decreases list@.len() - i,
    {
        proof {
            assert(list@.take(i as int + 1) =~= list@.take(i as int).push(list@[i as int]));
            views_push(list@.take(i as int), list@[i as int]);
        }
        let d = list[i].clone();
        proof {
            views_push(r@, d);
        }
        r.push(d);
        i += 1;
    }
    assert(list@.take(i as int) =~= list@);
    r
}

/// One named node of a syntax tree with its source text.
#[derive(Debug, PartialEq, Eq)]
pub struct SyntaxNode {
    pub kind: String,
    pub text: String,
    pub start_byte: usize,
    pub end_byte: usize,
    pub children: Vec<SyntaxNode>,
}

/// One parsed translation unit: its source and its named syntax tree.
#[derive(Debug, PartialEq, Eq)]
pub struct SyntaxUnit {
    pub source: String,
    pub root: SyntaxNode,
}

} // verus!
