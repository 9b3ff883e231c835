//! Conservative file-scope declaration environments for movable C layouts.

use vstd::prelude::*;

use crate::syntax;
use crate::syntax::{SyntaxNode, SyntaxUnit};
use crate::text;
use crate::text::{
    char_is_ident_char, char_is_space, chars_of, contains, is_identifier, lower_chars, match_at,
    str_eq, string_of,
};

verus! {

/// Why a compiler-private declaration can't move to an earlier source anchor.
#[derive(Debug, Clone, Copy, PartialEq, Eq, Structural)]
pub enum DeclarationMoveBlock {
    TypeNotVisible,
    PreprocessorBoundary,
}

/// One file-scope declaration of a type name.
#[derive(Debug, Clone, PartialEq, Eq)]
struct TypeDeclaration {
    name: String,
    position: usize,
}

/// One type name declared inside a function.
#[derive(Debug, Clone, PartialEq, Eq)]
struct LocalTypeDeclaration {
    name: String,
    function_start: usize,
    function_end: usize,
}

/// File-scope facts that affect generated type and prototype placement.
#[derive(Debug, Clone, PartialEq, Eq)]
pub struct CDeclarationEnvironment {
    type_declarations: Vec<TypeDeclaration>,
    local_type_declarations: Vec<LocalTypeDeclaration>,
    preprocessing_boundaries: Vec<usize>,
    packing_barrier: bool,
}

/// The contents of a declaration environment.
#[verifier::ext_equal]
pub struct EnvironmentView {
    /// Names of types and where file scope declares them.
    pub types: Seq<(Seq<char>, usize)>,
    /// Names of types and the range of the function that declares them.
    pub locals: Seq<(Seq<char>, usize, usize)>,
    /// Positions of preprocessing directives.
    pub boundaries: Seq<usize>,
    /// Whether a directive changes the packing of types.
    pub packed: bool,
}

impl View for CDeclarationEnvironment {
    type V = EnvironmentView;

    closed spec fn view(&self) -> EnvironmentView {
        EnvironmentView {
            types: Seq::new(
                self.type_declarations@.len(),
                |i: int|
                    (self.type_declarations@[i].name@, self.type_declarations@[i].position),
            ),
            locals: Seq::new(
                self.local_type_declarations@.len(),
                |i: int|
                    (
                        self.local_type_declarations@[i].name@,
                        self.local_type_declarations@[i].function_start,
                        self.local_type_declarations@[i].function_end,
                    ),
            ),
            boundaries: self.preprocessing_boundaries@,
            packed: self.packing_barrier,
        }
    }
}

/// An environment without declarations.
pub open spec fn empty_environment(packed: bool) -> EnvironmentView {
    EnvironmentView {
        types: Seq::empty(),
        locals: Seq::empty(),
        boundaries: Seq::empty(),
        packed,
    }
}

impl Default for CDeclarationEnvironment {
    fn default() -> (r: Self)
        ensures
            r@ == empty_environment(false),
    {
        let r = CDeclarationEnvironment {
            type_declarations: Vec::new(),
            local_type_declarations: Vec::new(),
            preprocessing_boundaries: Vec::new(),
            packing_barrier: false,
        };
        assert(r@ =~= empty_environment(false));
        r
    }
}

/// Whether a word is a keyword of C types.
pub open spec fn type_keyword(word: Seq<char>) -> bool {
    ||| word == "void"@
    ||| word == "char"@
    ||| word == "short"@
    ||| word == "int"@
    ||| word == "long"@
    ||| word == "float"@
    ||| word == "double"@
    ||| word == "signed"@
    ||| word == "unsigned"@
    ||| word == "_Bool"@
    ||| word == "bool"@
    ||| word == "const"@
    ||| word == "volatile"@
    ||| word == "restrict"@
    ||| word == "_Atomic"@
    ||| word == "struct"@
    ||| word == "union"@
    ||| word == "enum"@
    ||| word == "static"@
    ||| word == "extern"@
    ||| word == "register"@
    ||| word == "auto"@
}

fn is_c_type_keyword(word: &str) -> (r: bool)
    ensures
        r == type_keyword(word@),
{
    str_eq(word, "void") || str_eq(word, "char") || str_eq(word, "short") || str_eq(word, "int")
        || str_eq(word, "long") || str_eq(word, "float") || str_eq(word, "double") || str_eq(
        word,
        "signed",
    ) || str_eq(word, "unsigned") || str_eq(word, "_Bool") || str_eq(word, "bool") || str_eq(
        word,
        "const",
    ) || str_eq(word, "volatile") || str_eq(word, "restrict") || str_eq(word, "_Atomic") || str_eq(
        word,
        "struct",
    ) || str_eq(word, "union") || str_eq(word, "enum") || str_eq(word, "static") || str_eq(
        word,
        "extern",
    ) || str_eq(word, "register") || str_eq(word, "auto")
}

/// Whether `name` stands at position `i` of a fragment as a whole word.
pub open spec fn word_at(fragment: Seq<char>, name: Seq<char>, i: int) -> bool {
    &&& text::occurs_at(fragment, name, i)
    &&& i == 0 || !text::is_ident_char(fragment[i - 1])
    &&& i + name.len() == fragment.len() || !text::is_ident_char(fragment[i + name.len()])
}

/// Whether a type fragment mentions the type `name`.
pub open spec fn mentions(fragment: Seq<char>, name: Seq<char>) -> bool {
    text::identifier(name) && !type_keyword(name) && exists|i: int| word_at(fragment, name, i)
}

/// Whether one of several type fragments mentions the type `name`.
pub open spec fn any_mentions(fragments: Seq<Seq<char>>, name: Seq<char>) -> bool {
    exists|t: int| 0 <= t < fragments.len() && mentions(#[trigger] fragments[t], name)
}

fn mentions_type(fragment: &str, name: &str) -> (r: bool)
    ensures
        r == mentions(fragment@, name@),
{
    if !is_identifier(name) || is_c_type_keyword(name) {
        return false;
    }
    let f = chars_of(fragment);
    let n = chars_of(name);
    let mut i: usize = 0;
    while i < f.len()
        invariant
            i <= f@.len(),
            f@ == fragment@,
            n@ == name@,
            name@.len() > 0,
            text::identifier(name@) && !type_keyword(name@),
            forall|k: int| 0 <= k < i ==> !word_at(fragment@, name@, k),
        decreases f@.len() - i,
    {
        if match_at(&f, &n, i) && (i == 0 || !char_is_ident_char(f[i - 1])) {
            if i + n.len() == f.len() || !char_is_ident_char(f[i + n.len()]) {
                assert(word_at(fragment@, name@, i as int));
                return true;
            }
        }
        i += 1;
    }
    false
}

fn any_mentions_type(fragments: &Vec<String>, name: &str) -> (r: bool)
    ensures
        r == any_mentions(syntax::views(fragments@), name@),
{
    let mut t: usize = 0;
    while t < fragments.len()
        invariant
            t <= fragments@.len(),
            forall|k: int|
                0 <= k < t ==> !mentions(#[trigger] syntax::views(fragments@)[k], name@),
        decreases fragments@.len() - t,
    {
        assert(syntax::views(fragments@)[t as int] == fragments@[t as int]@);
        if mentions_type(fragments[t].as_str(), name) {
            return true;
        }
        t += 1;
    }
    false
}

/// Whether file scope declares a type only after `anchor`.
pub open spec fn declared_after(
    types: Seq<(Seq<char>, usize)>,
    name: Seq<char>,
    anchor: usize,
) -> bool {
    &&& exists|i: int| 0 <= i < types.len() && (#[trigger] types[i]).0 == name
    &&& forall|i: int|
        0 <= i < types.len() && (#[trigger] types[i]).0 == name ==> types[i].1 > anchor
}

/// Whether file scope declares a type at `position` or before.
pub open spec fn declared_by(
    types: Seq<(Seq<char>, usize)>,
    name: Seq<char>,
    position: usize,
) -> bool {
    exists|i: int| 0 <= i < types.len() && (#[trigger] types[i]).0 == name && types[i].1 <= position
}

/// Whether a directive stands between `anchor` and `original`.
pub open spec fn boundary_between(boundaries: Seq<usize>, anchor: usize, original: usize) -> bool {
    exists|i: int|
        0 <= i < boundaries.len() && anchor < #[trigger] boundaries[i] && boundaries[i] < original
}

/// Whether one of the fragments mentions a type declared only after `anchor`.
pub open spec fn hidden_at(
    types: Seq<(Seq<char>, usize)>,
    fragments: Seq<Seq<char>>,
    anchor: usize,
) -> bool {
    exists|name: Seq<char>| #[trigger]
        any_mentions(fragments, name) && declared_after(types, name, anchor)
}

/// Whether one of the fragments mentions a type that is declared after
/// `anchor` and is declared at `original`.
pub open spec fn hidden_by_move(
    types: Seq<(Seq<char>, usize)>,
    fragments: Seq<Seq<char>>,
    original: usize,
    anchor: usize,
) -> bool {
    exists|name: Seq<char>| #[trigger]
        any_mentions(fragments, name) && declared_after(types, name, anchor) && declared_by(
            types,
            name,
            original,
        )
}

/// Whether one of the fragments mentions a type of the function's own.
pub open spec fn mentions_local(
    locals: Seq<(Seq<char>, usize, usize)>,
    fragments: Seq<Seq<char>>,
    function_start: usize,
    function_end: usize,
) -> bool {
    exists|i: int|
        0 <= i < locals.len() && any_mentions(fragments, (#[trigger] locals[i]).0) && locals[i].1
            == function_start && locals[i].2 == function_end
}

/// What keeps fragments from being understood at `anchor`.
pub open spec fn visibility_block(
    env: EnvironmentView,
    fragments: Seq<Seq<char>>,
    anchor: usize,
) -> Option<DeclarationMoveBlock> {
    if hidden_at(env.types, fragments, anchor) {
        Some(DeclarationMoveBlock::TypeNotVisible)
    } else {
        None
    }
}

/// What keeps fragments from being moved from `original` to `anchor`. A move
/// to a later place is never blocked.
pub open spec fn move_block(
    env: EnvironmentView,
    fragments: Seq<Seq<char>>,
    original: usize,
    anchor: usize,
) -> Option<DeclarationMoveBlock> {
    if anchor >= original {
        None
    } else if boundary_between(env.boundaries, anchor, original) {
        Some(DeclarationMoveBlock::PreprocessorBoundary)
    } else if hidden_by_move(env.types, fragments, original, anchor) {
        Some(DeclarationMoveBlock::TypeNotVisible)
    } else {
        None
    }
}

impl CDeclarationEnvironment {
    /// Returns whether a context type was declared only inside its function.
    #[must_use]
    pub fn contains_local_context_type(
        &self,
        types: &Vec<String>,
        function_start: usize,
        function_end: usize,
    ) -> (r: bool)
        ensures
            r == mentions_local(self@.locals, syntax::views(types@), function_start, function_end),
    {
        let mut i: usize = 0;
        while i < self.local_type_declarations.len()
            invariant
                i <= self.local_type_declarations@.len(),
                forall|k: int|
                    0 <= k < i ==> !(any_mentions(syntax::views(types@), (#[trigger] self@.locals[k]).0)
                        && self@.locals[k].1 == function_start && self@.locals[k].2
                        == function_end),
            decreases self.local_type_declarations@.len() - i,
        {
            let declaration = &self.local_type_declarations[i];
            assert(self@.locals[i as int] == (
                declaration.name@,
                declaration.function_start,
                declaration.function_end,
            ));
            if declaration.function_start == function_start && declaration.function_end
                == function_end && any_mentions_type(types, declaration.name.as_str()) {
                return true;
            }
            i += 1;
        }
        false
    }

    fn is_declared_after(&self, name: &str, anchor: usize) -> (r: bool)
        ensures
            r == declared_after(self@.types, name@, anchor),
    {
        let mut found = false;
        let mut i: usize = 0;
        while i < self.type_declarations.len()
            invariant
                i <= self.type_declarations@.len(),
                found == exists|k: int| 0 <= k < i && (#[trigger] self@.types[k]).0 == name@,
                forall|k: int|
                    0 <= k < i && (#[trigger] self@.types[k]).0 == name@ ==> self@.types[k].1
                        > anchor,
            decreases self.type_declarations@.len() - i,
        {
            let declaration = &self.type_declarations[i];
            assert(self@.types[i as int] == (declaration.name@, declaration.position));
            if str_eq(declaration.name.as_str(), name) {
                found = true;
                if declaration.position <= anchor {
                    return false;
                }
            }
            i += 1;
        }
        found
    }

    fn is_declared_by(&self, name: &str, position: usize) -> (r: bool)
        ensures
            r == declared_by(self@.types, name@, position),
    {
        let mut i: usize = 0;
        while i < self.type_declarations.len()
            invariant
                i <= self.type_declarations@.len(),
                forall|k: int|
                    0 <= k < i ==> !((#[trigger] self@.types[k]).0 == name@ && self@.types[k].1
                        <= position),
            decreases self.type_declarations@.len() - i,
        {
            let declaration = &self.type_declarations[i];
            assert(self@.types[i as int] == (declaration.name@, declaration.position));
            if declaration.position <= position && str_eq(declaration.name.as_str(), name) {
                return true;
            }
            i += 1;
        }
        false
    }

    /// Checks whether every locally declared type is visible at an anchor.
    #[must_use]
    pub fn classify_visibility_at(&self, types: &Vec<String>, anchor: usize) -> (r: Option<
        DeclarationMoveBlock,
    >)
        ensures
            r == visibility_block(self@, syntax::views(types@), anchor),
    {
        let mut i: usize = 0;
        while i < self.type_declarations.len()
            invariant
                i <= self.type_declarations@.len(),
                forall|k: int|
                    0 <= k < i ==> !(any_mentions(syntax::views(types@), (#[trigger] self@.types[k]).0)
                        && declared_after(self@.types, self@.types[k].0, anchor)),
            decreases self.type_declarations@.len() - i,
        {
            let name = self.type_declarations[i].name.as_str();
            assert(self@.types[i as int].0 == name@);
            if any_mentions_type(types, name) && self.is_declared_after(name, anchor) {
                return Some(DeclarationMoveBlock::TypeNotVisible);
            }
            i += 1;
        }
        assert forall|name: Seq<char>| #[trigger] any_mentions(syntax::views(types@), name) implies !declared_after(
            self@.types,
            name,
            anchor,
        ) by {
            if declared_after(self@.types, name, anchor) {
                let k = choose|k: int|
                    0 <= k < self@.types.len() && (#[trigger] self@.types[k]).0 == name;
                assert(self@.types[k].0 == name);
            }
        }
        None
    }

    /// Checks whether type fragments remain valid when moved to `anchor`.
    #[must_use]
    pub fn classify_move(&self, types: &Vec<String>, original: usize, anchor: usize) -> (r: Option<
        DeclarationMoveBlock,
    >)
        ensures
            r == move_block(self@, syntax::views(types@), original, anchor),
    {
        if anchor >= original {
            return None;
        }
        let mut b: usize = 0;
        while b < self.preprocessing_boundaries.len()
            invariant
                anchor < original,
                b <= self.preprocessing_boundaries@.len(),
                forall|k: int|
                    0 <= k < b ==> !(anchor < #[trigger] self@.boundaries[k] && self@.boundaries[k]
                        < original),
            decreases self.preprocessing_boundaries@.len() - b,
        {
            let position: usize = self.preprocessing_boundaries[b];
            assert(self@.boundaries[b as int] == position);
            if anchor < position && position < original {
                return Some(DeclarationMoveBlock::PreprocessorBoundary);
            }
            b += 1;
        }
        let mut i: usize = 0;
        while i < self.type_declarations.len()
            invariant
                anchor < original,
                !boundary_between(self@.boundaries, anchor, original),
                i <= self.type_declarations@.len(),
                forall|k: int|
                    0 <= k < i ==> !(any_mentions(syntax::views(types@), (#[trigger] self@.types[k]).0)
                        && declared_after(self@.types, self@.types[k].0, anchor) && declared_by(
                        self@.types,
                        self@.types[k].0,
                        original,
                    )),
            decreases self.type_declarations@.len() - i,
        {
            let name = self.type_declarations[i].name.as_str();
            assert(self@.types[i as int].0 == name@);
            if any_mentions_type(types, name) && self.is_declared_after(name, anchor)
                && self.is_declared_by(name, original) {
                return Some(DeclarationMoveBlock::TypeNotVisible);
            }
            i += 1;
        }
        assert forall|name: Seq<char>| #[trigger] any_mentions(syntax::views(types@), name) implies !(
        declared_after(self@.types, name, anchor) && declared_by(self@.types, name, original)) by {
            if declared_after(self@.types, name, anchor) {
                let k = choose|k: int|
                    0 <= k < self@.types.len() && (#[trigger] self@.types[k]).0 == name;
                assert(self@.types[k].0 == name);
            }
        }
        None
    }

    /// Returns whether the translation unit contains a packing directive.
    #[must_use]
    pub fn has_packing_barrier(&self) -> (r: bool)
        ensures
            r == self@.packed,
    {
        self.packing_barrier
    }

    /// Tells whether file scope declares a type.
    #[must_use]
    pub fn declares(&self, name: &str) -> (r: bool)
        ensures
            r == exists|i: int| 0 <= i < self@.types.len() && (#[trigger] self@.types[i]).0 == name@,
    {
        let mut i: usize = 0;
        while i < self.type_declarations.len()
            invariant
                i <= self.type_declarations@.len(),
                forall|k: int| 0 <= k < i ==> (#[trigger] self@.types[k]).0 != name@,
            decreases self.type_declarations@.len() - i,
        {
            assert(self@.types[i as int].0 == self.type_declarations@[i as int].name@);
            if str_eq(self.type_declarations[i].name.as_str(), name) {
                return true;
            }
            i += 1;
        }
        false
    }
}

/// A text without its white space.
pub open spec fn without_spaces(s: Seq<char>) -> Seq<char>
    decreases s.len(),
{
    if s.len() == 0 {
        Seq::empty()
    } else if text::is_space(s.last()) {
        without_spaces(s.drop_last())
    } else {
        without_spaces(s.drop_last()).push(s.last())
    }
}

/// Whether a line of `s` that starts at `i` or later holds a packing pragma.
pub open spec fn pragma_line_from(s: Seq<char>, i: int) -> bool
    decreases s.len() - i,
{
    if i < 0 || i >= s.len() {
        false
    } else {
        let end = text::line_end(s, i);
        text::occurs_at(without_spaces(s.subrange(i, end)), "#pragmapack"@, 0) || (i <= end
            < s.len() && pragma_line_from(s, end + 1))
    }
}

/// Whether a source text changes the packing or alignment of types.
pub open spec fn packing_directive(source: Seq<char>) -> bool {
    let s = text::lowered(source);
    ||| pragma_line_from(s, 0)
    ||| text::occurs(s, "_pragma(\"pack"@)
    ||| text::occurs(s, "__attribute__"@) && text::occurs(s, "packed"@)
    ||| text::occurs(s, "__declspec(align"@)
}

fn contains_packing_directive(source: &str) -> (r: bool)
    ensures
        r == packing_directive(source@),
{
    let lower = lower_chars(source);
    let whole = string_of(&lower, 0, lower.len());
    assert(whole@ =~= lower@);
    let pragma = chars_of("#pragmapack");
    let mut start: usize = 0;
    while start < lower.len()
        invariant
            lower@ == text::lowered(source@),
            pragma@ == "#pragmapack"@,
            pragma_line_from(lower@, 0) == pragma_line_from(lower@, start as int),
        decreases lower.len() - start,
    {
        let mut line: Vec<char> = Vec::new();
        let mut end: usize = start;
        assert(lower@.subrange(start as int, start as int) =~= Seq::empty());
        while end < lower.len() && lower[end] != '\n'
            invariant
                start <= end <= lower.len(),
                text::line_end(lower@, start as int) == text::line_end(lower@, end as int),
                line@ == without_spaces(lower@.subrange(start as int, end as int)),
            decreases lower.len() - end,
        {
            assert(lower@.subrange(start as int, end + 1).drop_last() =~= lower@.subrange(
                start as int,
                end as int,
            ));
            if !char_is_space(lower[end]) {
                line.push(lower[end]);
            }
            end += 1;
        }
        if match_at(&line, &pragma, 0) {
            return true;
        }
        if end >= lower.len() {
            start = lower.len();
        } else {
            start = end + 1;
        }
    }
    contains(whole.as_str(), "_pragma(\"pack") || (contains(whole.as_str(), "__attribute__")
        && contains(whole.as_str(), "packed")) || contains(whole.as_str(), "__declspec(align")
}

/// Whether a node specifies a structure, union, or enumeration with its body.
pub open spec fn tag_definition(node: SyntaxNode) -> bool {
    (node.kind@ == "struct_specifier"@ || node.kind@ == "union_specifier"@ || node.kind@
        == "enum_specifier"@) && exists|i: int|
        0 <= i < node.children@.len() && ((#[trigger] node.children@[i]).kind@
            == "field_declaration_list"@ || node.children@[i].kind@ == "enumerator_list"@)
}

fn defines_tag(node: &SyntaxNode) -> (r: bool)
    ensures
        r == tag_definition(*node),
{
    let kind = node.kind.as_str();
    if !(str_eq(kind, "struct_specifier") || str_eq(kind, "union_specifier") || str_eq(
        kind,
        "enum_specifier",
    )) {
        return false;
    }
    let mut i: usize = 0;
    while i < node.children.len()
        invariant
            node.kind@ == "struct_specifier"@ || node.kind@ == "union_specifier"@ || node.kind@
                == "enum_specifier"@,
            i <= node.children@.len(),
            forall|k: int|
                0 <= k < i ==> (#[trigger] node.children@[k]).kind@ != "field_declaration_list"@
                    && node.children@[k].kind@ != "enumerator_list"@,
        decreases node.children@.len() - i,
    {
        let child = node.children[i].kind.as_str();
        if str_eq(child, "field_declaration_list") || str_eq(child, "enumerator_list") {
            return true;
        }
        i += 1;
    }
    false
}

/// The type names of a node outside field lists, in source order, after those
/// found before.
pub open spec fn type_names(found: Seq<Seq<char>>, node: SyntaxNode) -> Seq<Seq<char>>
    decreases node, 0int,
{
    let own = if node.kind@ == "type_identifier"@ {
        found.push(node.text@)
    } else {
        found
    };
    type_names_of(own, node.children@, node.children@.len() as int)
}

/// The type names of the first `n` nodes of a list, field lists left out.
pub open spec fn type_names_of(
    found: Seq<Seq<char>>,
    nodes: Seq<SyntaxNode>,
    n: int,
) -> Seq<Seq<char>>
    decreases nodes, n,
{
    if n <= 0 || n > nodes.len() {
        found
    } else if nodes[n - 1].kind@ == "field_declaration_list"@ {
        type_names_of(found, nodes, n - 1)
    } else {
        type_names(type_names_of(found, nodes, n - 1), nodes[n - 1])
    }
}

fn collect_type_names(node: &SyntaxNode, output: &mut Vec<String>)
    ensures
        syntax::views(final(output)@) == type_names(
            syntax::views(old(output)@),
            *node,
        ),
    decreases node,
{
    broadcast use syntax::views_push;

    if str_eq(node.kind.as_str(), "type_identifier") {
        output.push(node.text.clone());
    }
    let ghost own = syntax::views(output@);
    let mut i: usize = 0;
    while i < node.children.len()
        invariant
            i <= node.children@.len(),
            syntax::views(output@) == type_names_of(own, node.children@, i as int),
        decreases node.children@.len() - i,
    {
        assert(decreases_to!(node.children@ => node.children@[i as int]));
        if !str_eq(node.children[i].kind.as_str(), "field_declaration_list") {
            collect_type_names(&node.children[i], output);
        }
        i += 1;
    }
}

/// The environment with one more file-scope declaration for every name.
pub open spec fn declare_all(
    env: EnvironmentView,
    names: Seq<Seq<char>>,
    position: usize,
) -> EnvironmentView {
    EnvironmentView {
        types: env.types + Seq::new(names.len(), |i: int| (names[i], position)),
        ..env
    }
}

/// The environment with one more local declaration for every name.
pub open spec fn declare_local(
    env: EnvironmentView,
    names: Seq<Seq<char>>,
    function_start: usize,
    function_end: usize,
) -> EnvironmentView {
    EnvironmentView {
        locals: env.locals + Seq::new(
            names.len(),
            |i: int| (names[i], function_start, function_end),
        ),
        ..env
    }
}

fn add_declarations(env: &mut CDeclarationEnvironment, names: &Vec<String>, position: usize)
    ensures
        final(env)@ == declare_all(old(env)@, syntax::views(names@), position),
{
    let ghost all = Seq::new(
        names@.len(),
        |i: int| (syntax::views(names@)[i], position),
    );
    let mut i: usize = 0;
    assert(env@.types =~= old(env)@.types + all.take(0));
    while i < names.len()
        invariant
            i <= names@.len(),
            all == Seq::new(names@.len(), |i: int| (syntax::views(names@)[i], position)),
            env@.types == old(env)@.types + all.take(i as int),
            env@.locals == old(env)@.locals,
            env@.boundaries == old(env)@.boundaries,
            env@.packed == old(env)@.packed,
        decreases names@.len() - i,
    {
        let ghost before = *env;
        env.type_declarations.push(TypeDeclaration { name: names[i].clone(), position });
        assert(env@.types =~= before@.types.push((names@[i as int]@, position)));
        assert(all.take(i + 1) =~= all.take(i as int).push((names@[i as int]@, position)));
        assert(env@.types =~= old(env)@.types + all.take(i + 1));
        assert(env@.locals =~= before@.locals);
        i += 1;
    }
    assert(all.take(i as int) =~= all);
}

fn add_local_declarations(
    env: &mut CDeclarationEnvironment,
    names: &Vec<String>,
    function_start: usize,
    function_end: usize,
)
    ensures
        final(env)@ == declare_local(
            old(env)@,
            syntax::views(names@),
            function_start,
            function_end,
        ),
{
    let ghost all = Seq::new(
        names@.len(),
        |i: int| (syntax::views(names@)[i], function_start, function_end),
    );
    let mut i: usize = 0;
    assert(env@.locals =~= old(env)@.locals + all.take(0));
    while i < names.len()
        invariant
            i <= names@.len(),
            all == Seq::new(
                names@.len(),
                |i: int| (syntax::views(names@)[i], function_start, function_end),
            ),
            env@.locals == old(env)@.locals + all.take(i as int),
            env@.types == old(env)@.types,
            env@.boundaries == old(env)@.boundaries,
            env@.packed == old(env)@.packed,
        decreases names@.len() - i,
    {
        let ghost before = *env;
        env.local_type_declarations.push(
            LocalTypeDeclaration { name: names[i].clone(), function_start, function_end },
        );
        assert(env@.locals =~= before@.locals.push(
            (names@[i as int]@, function_start, function_end),
        ));
        assert(all.take(i + 1) =~= all.take(i as int).push(
            (names@[i as int]@, function_start, function_end),
        ));
        assert(env@.locals =~= old(env)@.locals + all.take(i + 1));
        assert(env@.types =~= before@.types);
        i += 1;
    }
    assert(all.take(i as int) =~= all);
}

/// The direct type names of the first `n` nodes of a list.
pub open spec fn direct_names(nodes: Seq<SyntaxNode>, n: int) -> Seq<Seq<char>>
    decreases n,
{
    if n <= 0 {
        Seq::empty()
    } else if nodes[n - 1].kind@ == "type_identifier"@ {
        direct_names(nodes, n - 1).push(nodes[n - 1].text@)
    } else {
        direct_names(nodes, n - 1)
    }
}

/// The environment after the tags that a declaration defines.
pub open spec fn scan_tags(env: EnvironmentView, node: SyntaxNode, position: usize) -> EnvironmentView
    decreases node, 0int,
{
    if tag_definition(node) {
        declare_all(env, direct_names(node.children@, node.children@.len() as int), position)
    } else {
        scan_tags_of(env, node.children@, node.children@.len() as int, position)
    }
}

/// The environment after the tags that the first `n` nodes define.
pub open spec fn scan_tags_of(
    env: EnvironmentView,
    nodes: Seq<SyntaxNode>,
    n: int,
    position: usize,
) -> EnvironmentView
    decreases nodes, n,
{
    if n <= 0 || n > nodes.len() {
        env
    } else {
        scan_tags(scan_tags_of(env, nodes, n - 1, position), nodes[n - 1], position)
    }
}

fn collect_defined_tag_names(
    node: &SyntaxNode,
    position: usize,
    environment: &mut CDeclarationEnvironment,
)
    ensures
        final(environment)@ == scan_tags(old(environment)@, *node, position),
    decreases node,
{
    if defines_tag(node) {
        let mut names: Vec<String> = Vec::new();
        let mut i: usize = 0;
        assert(syntax::views(names@) =~= Seq::empty());
        while i < node.children.len()
            invariant
                i <= node.children@.len(),
                syntax::views(names@) == direct_names(node.children@, i as int),
            decreases node.children@.len() - i,
        {
            broadcast use syntax::views_push;

            if str_eq(node.children[i].kind.as_str(), "type_identifier") {
                names.push(node.children[i].text.clone());
            }
            i += 1;
        }
        add_declarations(environment, &names, position);
        return;
    }
    let mut i: usize = 0;
    while i < node.children.len()
        invariant
            i <= node.children@.len(),
            environment@ == scan_tags_of(old(environment)@, node.children@, i as int, position),
        decreases node.children@.len() - i,
    {
        assert(decreases_to!(node.children@ => node.children@[i as int]));
        collect_defined_tag_names(&node.children[i], position, environment);
        i += 1;
    }
}

/// The environment after the types declared inside a function at `node`.
pub open spec fn scan_locals(
    env: EnvironmentView,
    node: SyntaxNode,
    function_start: usize,
    function_end: usize,
) -> EnvironmentView
    decreases node, 0int,
{
    let own = if node.kind@ == "type_definition"@ || tag_definition(node) {
        declare_local(env, type_names(Seq::empty(), node), function_start, function_end)
    } else {
        env
    };
    if node.kind@ == "type_definition"@ {
        own
    } else {
        scan_locals_of(
            own,
            node.children@,
            node.children@.len() as int,
            function_start,
            function_end,
        )
    }
}

/// The environment after the types declared in the first `n` nodes.
pub open spec fn scan_locals_of(
    env: EnvironmentView,
    nodes: Seq<SyntaxNode>,
    n: int,
    function_start: usize,
    function_end: usize,
) -> EnvironmentView
    decreases nodes, n,
{
    if n <= 0 || n > nodes.len() {
        env
    } else {
        scan_locals(
            scan_locals_of(env, nodes, n - 1, function_start, function_end),
            nodes[n - 1],
            function_start,
            function_end,
        )
    }
}

fn visit_locals(
    node: &SyntaxNode,
    function_start: usize,
    function_end: usize,
    environment: &mut CDeclarationEnvironment,
)
    ensures
        final(environment)@ == scan_locals(
            old(environment)@,
            *node,
            function_start,
            function_end,
        ),
    decreases node,
{
    let is_type = str_eq(node.kind.as_str(), "type_definition");
    if is_type || defines_tag(node) {
        let mut names: Vec<String> = Vec::new();
        assert(syntax::views(names@) =~= Seq::empty());
        collect_type_names(node, &mut names);
        add_local_declarations(environment, &names, function_start, function_end);
        if is_type {
            return;
        }
    }
    let ghost own = environment@;
    let mut i: usize = 0;
    while i < node.children.len()
        invariant
            i <= node.children@.len(),
            environment@ == scan_locals_of(
                own,
                node.children@,
                i as int,
                function_start,
                function_end,
            ),
        decreases node.children@.len() - i,
    {
        assert(decreases_to!(node.children@ => node.children@[i as int]));
        visit_locals(&node.children[i], function_start, function_end, environment);
        i += 1;
    }
}

/// The environment after the bodies among the first `n` parts of a function.
pub open spec fn scan_function(
    env: EnvironmentView,
    function: SyntaxNode,
    n: int,
) -> EnvironmentView
    decreases n,
{
    if n <= 0 {
        env
    } else {
        let before = scan_function(env, function, n - 1);
        if function.children@[n - 1].kind@ == "compound_statement"@ {
            scan_locals(
                before,
                function.children@[n - 1],
                function.start_byte,
                function.end_byte,
            )
        } else {
            before
        }
    }
}

fn collect_local_types(function: &SyntaxNode, environment: &mut CDeclarationEnvironment)
    ensures
        final(environment)@ == scan_function(
            old(environment)@,
            *function,
            function.children@.len() as int,
        ),
{
    let mut i: usize = 0;
    while i < function.children.len()
        invariant
            i <= function.children@.len(),
            environment@ == scan_function(old(environment)@, *function, i as int),
        decreases function.children@.len() - i,
    {
        if str_eq(function.children[i].kind.as_str(), "compound_statement") {
            visit_locals(
                &function.children[i],
                function.start_byte,
                function.end_byte,
                environment,
            );
        }
        i += 1;
    }
}

/// The environment after one node of file scope.
pub open spec fn scan_item(env: EnvironmentView, node: SyntaxNode) -> EnvironmentView
    decreases node, 0int,
{
    if node.kind@ == "function_definition"@ {
        scan_function(env, node, node.children@.len() as int)
    } else if text::occurs_at(node.kind@, "preproc_"@, 0) {
        scan_scope(
            EnvironmentView { boundaries: env.boundaries.push(node.start_byte), ..env },
            node.children@,
            node.children@.len() as int,
        )
    } else if node.kind@ == "type_definition"@ {
        declare_all(env, type_names(Seq::empty(), node), node.start_byte)
    } else if node.kind@ == "declaration"@ {
        scan_tags(env, node, node.start_byte)
    } else {
        env
    }
}

/// The environment after the first `n` nodes of file scope.
pub open spec fn scan_scope(env: EnvironmentView, nodes: Seq<SyntaxNode>, n: int) -> EnvironmentView
    decreases nodes, n,
{
    if n <= 0 || n > nodes.len() {
        env
    } else {
        scan_item(scan_scope(env, nodes, n - 1), nodes[n - 1])
    }
}

fn collect_file_scope(node: &SyntaxNode, environment: &mut CDeclarationEnvironment)
    ensures
        final(environment)@ == scan_scope(
            old(environment)@,
            node.children@,
            node.children@.len() as int,
        ),
    decreases node,
{
    let mut i: usize = 0;
    while i < node.children.len()
        invariant
            i <= node.children@.len(),
            environment@ == scan_scope(old(environment)@, node.children@, i as int),
        decreases node.children@.len() - i,
    {
        assert(decreases_to!(node.children@ => node.children@[i as int]));
        let child = &node.children[i];
        let kind = chars_of(child.kind.as_str());
        let ghost before = environment@;
        if str_eq(child.kind.as_str(), "function_definition") {
            collect_local_types(child, environment);
        } else if match_at(&kind, &chars_of("preproc_"), 0) {
            environment.preprocessing_boundaries.push(child.start_byte);
            assert(environment@ =~= (EnvironmentView {
                boundaries: before.boundaries.push(child.start_byte),
                ..before
            }));
            collect_file_scope(child, environment);
        } else if str_eq(child.kind.as_str(), "type_definition") {
            let mut names: Vec<String> = Vec::new();
            assert(syntax::views(names@) =~= Seq::empty());
            collect_type_names(child, &mut names);
            add_declarations(environment, &names, child.start_byte);
        } else if str_eq(child.kind.as_str(), "declaration") {
            collect_defined_tag_names(child, child.start_byte, environment);
        }
        assert(environment@ == scan_item(before, *child));
        i += 1;
    }
}

/// The environment of a translation unit.
pub open spec fn environment_of(unit: SyntaxUnit) -> EnvironmentView {
    scan_scope(
        empty_environment(packing_directive(unit.source@)),
        unit.root.children@,
        unit.root.children@.len() as int,
    )
}

/// Builds a conservative environment from one parsed translation unit.
#[must_use]
pub fn build_c_declaration_environment(unit: &SyntaxUnit) -> (r: CDeclarationEnvironment)
    ensures
        r@ == environment_of(*unit),
{
    let mut environment = CDeclarationEnvironment::default();
    environment.packing_barrier = contains_packing_directive(unit.source.as_str());
    assert(environment@ =~= empty_environment(packing_directive(unit.source@)));
    collect_file_scope(&unit.root, &mut environment);
    environment
}

/// Fragments that can be understood at one place can be understood at every
/// later place, and moving them there is never blocked.
pub proof fn types_stay_visible(
    env: EnvironmentView,
    fragments: Seq<Seq<char>>,
    anchor: usize,
    later: usize,
)
    requires
        anchor <= later,
        visibility_block(env, fragments, anchor) is None,
    ensures
        visibility_block(env, fragments, later) is None,
        move_block(env, fragments, anchor, later) is None,
{
    if hidden_at(env.types, fragments, later) {
        let name = choose|name: Seq<char>| #[trigger]
            any_mentions(fragments, name) && declared_after(env.types, name, later);
        assert(any_mentions(fragments, name) && declared_after(env.types, name, anchor));
    }
}

/// Fragments that can be understood where they stand can be understood where
/// a move that isn't blocked takes them. The move crosses no directive.
pub proof fn allowed_moves_keep_types_visible(
    env: EnvironmentView,
    fragments: Seq<Seq<char>>,
    original: usize,
    anchor: usize,
)
    requires
        visibility_block(env, fragments, original) is None,
        move_block(env, fragments, original, anchor) is None,
    ensures
        visibility_block(env, fragments, anchor) is None,
        !boundary_between(env.boundaries, anchor, original),
{
    if anchor >= original {
        types_stay_visible(env, fragments, original, anchor);
    } else if hidden_at(env.types, fragments, anchor) {
        let name = choose|name: Seq<char>| #[trigger]
            any_mentions(fragments, name) && declared_after(env.types, name, anchor);
        assert(!declared_after(env.types, name, original));
        assert(declared_by(env.types, name, original));
        assert(hidden_by_move(env.types, fragments, original, anchor));
    }
}

/// A move is blocked for a type only if that type can't be understood at the
/// new place.
pub proof fn blocked_types_are_hidden(
    env: EnvironmentView,
    fragments: Seq<Seq<char>>,
    original: usize,
    anchor: usize,
)
    requires
        move_block(env, fragments, original, anchor) == Some(DeclarationMoveBlock::TypeNotVisible),
    ensures
        visibility_block(env, fragments, anchor) == Some(DeclarationMoveBlock::TypeNotVisible),
{
    let name = choose|name: Seq<char>| #[trigger]
        any_mentions(fragments, name) && declared_after(env.types, name, anchor) && declared_by(
            env.types,
            name,
            original,
        );
    assert(any_mentions(fragments, name) && declared_after(env.types, name, anchor));
}

} // verus!
