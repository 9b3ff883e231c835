//! What becomes of source text: the names of lifted declarations turn into
//! accesses of the context, and everything else stays.

use vstd::prelude::*;

use crate::c_source;
use crate::c_source::TaskView;
use crate::context_layout::LogicalFieldId;
use crate::context_types;
use crate::liveness::LiftedField;
use crate::semantic::ScopeId;
use crate::text;

verus! {

/// A part of source text.
pub enum Part {
    /// A name or a keyword.
    Word(Seq<char>),
    /// A string or a character, with its quotes.
    Literal(Seq<char>),
    /// A comment between `/*` and `*/`.
    Comment(Seq<char>),
    /// A comment behind `//`, and all text behind it.
    Rest(Seq<char>),
    /// Any other character.
    Other(char),
}

/// How a part is spelled.
pub open spec fn spelling(part: Part) -> Seq<char> {
    match part {
        Part::Word(s) => s,
        Part::Literal(s) => s,
        Part::Comment(s) => s,
        Part::Rest(s) => s,
        Part::Other(c) => seq![c],
    }
}

/// Whether text can stand between two quotes: every quote and backslash in it
/// stands behind a backslash.
pub open spec fn quotable(s: Seq<char>, quote: char) -> bool
    decreases s.len(),
{
    if s.len() == 0 {
        true
    } else if s[0] == '\\' {
        s.len() >= 2 && quotable(s.skip(2), quote)
    } else {
        s[0] != quote && quotable(s.skip(1), quote)
    }
}

/// Whether a part is spelled as its kind demands.
pub open spec fn well_spelled(part: Part) -> bool {
    match part {
        Part::Word(s) => s.len() > 0 && text::is_ident_start(s[0]) && forall|i: int|
            0 <= i < s.len() ==> text::is_ident_char(#[trigger] s[i]),
        Part::Literal(s) => s.len() >= 2 && (s[0] == '"' || s[0] == '\'') && s.last() == s[0]
            && quotable(s.subrange(1, s.len() - 1), s[0]),
        Part::Comment(s) => s.len() >= 4 && s[0] == '/' && s[1] == '*' && s[s.len() - 2] == '*'
            && s[s.len() - 1] == '/' && forall|i: int|
            2 <= i < s.len() - 2 ==> !(#[trigger] s[i] == '*' && s[i + 1] == '/'),
        Part::Rest(s) => s.len() >= 2 && s[0] == '/' && s[1] == '/',
        Part::Other(c) => c != '"' && c != '\'' && !text::is_ident_start(c),
    }
}

/// Whether a part ends where a text with a first character goes on.
pub open spec fn ends_before(part: Part, next: char) -> bool {
    match part {
        Part::Word(s) => !text::is_ident_char(next),
        Part::Other(c) => c == '/' ==> next != '/' && next != '*',
        Part::Rest(s) => false,
        _ => true,
    }
}

/// The text of the first `n` parts.
pub open spec fn spelled(parts: Seq<Part>, n: int) -> Seq<char>
    decreases n,
{
    if n <= 0 {
        Seq::empty()
    } else {
        spelled(parts, n - 1) + spelling(parts[n - 1])
    }
}

/// Whether parts are the parts of their text: each is spelled as its kind
/// demands and ends before the next.
pub open spec fn parted(parts: Seq<Part>) -> bool {
    &&& forall|i: int| 0 <= i < parts.len() ==> well_spelled(#[trigger] parts[i])
    &&& forall|i: int|
        #![trigger parts[i]]
        0 <= i < parts.len() - 1 ==> ends_before(parts[i], spelling(parts[i + 1])[0])
}

/// Whether a scope is at a depth of the scopes that enclose a text.
pub open spec fn at_depth(scopes: Seq<ScopeId>, scope: ScopeId, depth: int) -> bool {
    &&& 0 <= depth < scopes.len()
    &&& scopes[depth] == scope
    &&& forall|i: int| 0 <= i < depth ==> #[trigger] scopes[i] != scope
}

/// Whether a lifted declaration can be meant by a name at a byte: it has the
/// name, it starts before, and its scope encloses the text.
pub open spec fn candidate(
    field: LiftedField,
    name: Seq<char>,
    at: nat,
    scopes: Seq<ScopeId>,
    depth: int,
) -> bool {
    &&& field.source_name@ == name
    &&& field.declaration_start <= at
    &&& at_depth(scopes, field.scope, depth)
}

/// Whether a name means the lifted declaration with number `k`: of those that
/// can be meant it is in the innermost scope, and of several there it starts
/// last.
pub open spec fn means(
    fields: Seq<LiftedField>,
    name: Seq<char>,
    at: nat,
    scopes: Seq<ScopeId>,
    k: int,
) -> bool {
    &&& 0 <= k < fields.len()
    &&& exists|d: int|
        #![trigger at_depth(scopes, fields[k].scope, d)]
        candidate(fields[k], name, at, scopes, d) && forall|j: int, e: int|
            #![trigger at_depth(scopes, fields[j].scope, e)]
            0 <= j < fields.len() && candidate(fields[j], name, at, scopes, e) ==> {
                ||| e < d
                ||| e == d && fields[j].declaration_start < fields[k].declaration_start
                ||| e == d && fields[j].declaration_start == fields[k].declaration_start && j <= k
            }
}

/// Whether a name means no lifted declaration.
pub open spec fn means_none(
    fields: Seq<LiftedField>,
    name: Seq<char>,
    at: nat,
    scopes: Seq<ScopeId>,
) -> bool {
    forall|j: int, e: int|
        #![trigger at_depth(scopes, fields[j].scope, e)]
        0 <= j < fields.len() ==> !candidate(fields[j], name, at, scopes, e)
}

proof fn depth_is_position(scopes: Seq<ScopeId>, scope: ScopeId, i: int)
    requires
        0 <= i <= scopes.len(),
        forall|h: int| 0 <= h < i ==> scopes[h] != scope,
    ensures
        match context_types::scope_position(scopes, scope, i) {
            Some(d) => at_depth(scopes, scope, d as int) && forall|e: int|
                at_depth(scopes, scope, e) ==> e == d,
            None => forall|e: int| !at_depth(scopes, scope, e),
        },
    decreases scopes.len() - i,
{
    if i < scopes.len() && scopes[i] != scope {
        depth_is_position(scopes, scope, i + 1);
    }
}

/// What a name means is found.
proof fn meaning_is_found(
    fields: Seq<LiftedField>,
    name: Seq<char>,
    at: nat,
    scopes: Seq<ScopeId>,
    n: int,
)
    requires
        0 <= n <= fields.len(),
    ensures
        match c_source::lifted_meant(fields, name, at, scopes, n) {
            Some(k) => 0 <= k < n && means(fields.take(n), name, at, scopes, k),
            None => means_none(fields.take(n), name, at, scopes),
        },
    decreases n,
{
    if n > 0 {
        meaning_is_found(fields, name, at, scopes, n - 1);
        let before = fields.take(n - 1);
        let all = fields.take(n);
        assert forall|j: int| 0 <= j < n - 1 implies before[j] == all[j] by {
        }
        let field = fields[n - 1];
        depth_is_position(scopes, field.scope, 0);
        let found = c_source::lifted_meant(fields, name, at, scopes, n);
        match c_source::lifted_meant(fields, name, at, scopes, n - 1) {
            Some(b) => {
                depth_is_position(scopes, fields[b].scope, 0);
                let d = choose|d: int|
                    #![trigger at_depth(scopes, before[b].scope, d)]
                    candidate(before[b], name, at, scopes, d) && forall|j: int, e: int|
                        #![trigger at_depth(scopes, before[j].scope, e)]
                        0 <= j < before.len() && candidate(before[j], name, at, scopes, e) ==> {
                            ||| e < d
                            ||| e == d && before[j].declaration_start < before[b].declaration_start
                            ||| e == d && before[j].declaration_start
                                == before[b].declaration_start && j <= b
                        };
                if found == Some(n - 1) {
                    let own = context_types::scope_position(scopes, field.scope, 0)->0 as int;
                    assert(candidate(all[n - 1], name, at, scopes, own));
                    assert forall|j: int, e: int|
                        #![trigger at_depth(scopes, all[j].scope, e)]
                        0 <= j < all.len() && candidate(all[j], name, at, scopes, e) implies {
                        ||| e < own
                        ||| e == own && all[j].declaration_start < all[n - 1].declaration_start
                        ||| e == own && all[j].declaration_start == all[n - 1].declaration_start
                            && j <= n - 1
                    } by {
                        if j < n - 1 {
                            assert(at_depth(scopes, before[j].scope, e));
                        } else {
                            assert(at_depth(scopes, field.scope, e));
                        }
                    }
                    assert(at_depth(scopes, all[n - 1].scope, own));
                } else {
                    assert(candidate(all[b], name, at, scopes, d));
                    assert forall|j: int, e: int|
                        #![trigger at_depth(scopes, all[j].scope, e)]
                        0 <= j < all.len() && candidate(all[j], name, at, scopes, e) implies {
                        ||| e < d
                        ||| e == d && all[j].declaration_start < all[b].declaration_start
                        ||| e == d && all[j].declaration_start == all[b].declaration_start && j
                            <= b
                    } by {
                        if j < n - 1 {
                            assert(at_depth(scopes, before[j].scope, e));
                        } else {
                            assert(at_depth(scopes, field.scope, e));
                        }
                    }
                    assert(at_depth(scopes, all[b].scope, d));
                }
            },
            None => {
                if found == Some(n - 1) {
                    let own = context_types::scope_position(scopes, field.scope, 0)->0 as int;
                    assert(candidate(all[n - 1], name, at, scopes, own));
                    assert forall|j: int, e: int|
                        #![trigger at_depth(scopes, all[j].scope, e)]
                        0 <= j < all.len() && candidate(all[j], name, at, scopes, e) implies {
                        ||| e < own
                        ||| e == own && all[j].declaration_start < all[n - 1].declaration_start
                        ||| e == own && all[j].declaration_start == all[n - 1].declaration_start
                            && j <= n - 1
                    } by {
                        if j < n - 1 {
                            assert(at_depth(scopes, before[j].scope, e));
                        } else {
                            assert(at_depth(scopes, field.scope, e));
                        }
                    }
                    assert(at_depth(scopes, all[n - 1].scope, own));
                } else {
                    assert forall|j: int, e: int|
                        #![trigger at_depth(scopes, all[j].scope, e)]
                        0 <= j < all.len() implies !candidate(all[j], name, at, scopes, e) by {
                        if j < n - 1 {
                            assert(!candidate(before[j], name, at, scopes, e)) by {
                                if candidate(before[j], name, at, scopes, e) {
                                    assert(at_depth(scopes, before[j].scope, e));
                                }
                            }
                        } else if candidate(all[j], name, at, scopes, e) {
                            assert(at_depth(scopes, field.scope, e));
                        }
                    }
                }
            },
        }
    }
}

/// A name means one lifted declaration at most, and where it means none, it
/// means none.
pub proof fn names_mean_one_declaration(
    fields: Seq<LiftedField>,
    name: Seq<char>,
    at: nat,
    scopes: Seq<ScopeId>,
    j: int,
    k: int,
)
    requires
        means(fields, name, at, scopes, k),
    ensures
        means(fields, name, at, scopes, j) ==> j == k,
        !means_none(fields, name, at, scopes),
{
    let d = choose|d: int|
        #![trigger at_depth(scopes, fields[k].scope, d)]
        candidate(fields[k], name, at, scopes, d) && forall|i: int, e: int|
            #![trigger at_depth(scopes, fields[i].scope, e)]
            0 <= i < fields.len() && candidate(fields[i], name, at, scopes, e) ==> {
                ||| e < d
                ||| e == d && fields[i].declaration_start < fields[k].declaration_start
                ||| e == d && fields[i].declaration_start == fields[k].declaration_start && i <= k
            };
    assert(at_depth(scopes, fields[k].scope, d));
    if means(fields, name, at, scopes, j) {
        let c = choose|c: int|
            #![trigger at_depth(scopes, fields[j].scope, c)]
            candidate(fields[j], name, at, scopes, c) && forall|i: int, e: int|
                #![trigger at_depth(scopes, fields[i].scope, e)]
                0 <= i < fields.len() && candidate(fields[i], name, at, scopes, e) ==> {
                    ||| e < c
                    ||| e == c && fields[i].declaration_start < fields[j].declaration_start
                    ||| e == c && fields[i].declaration_start == fields[j].declaration_start && i
                        <= j
                };
        assert(at_depth(scopes, fields[j].scope, c));
    }
}

/// What becomes of a name: the access of the field placed for the lifted
/// declaration that it means, and the name itself if it means none.
pub open spec fn becomes(
    name: Seq<char>,
    at: nat,
    scopes: Seq<ScopeId>,
    fields: Seq<LiftedField>,
    task: TaskView,
    shown: Seq<char>,
) -> bool {
    &&& forall|k: int| #[trigger]
        means(fields, name, at, scopes, k) ==> shown == c_source::path(
            task,
            LogicalFieldId::Lifted(fields[k].declaration),
        )
    &&& means_none(fields, name, at, scopes) ==> shown == name
}

/// What becomes of a part of source text.
pub open spec fn part_becomes(
    part: Part,
    at: nat,
    scopes: Seq<ScopeId>,
    fields: Seq<LiftedField>,
    task: TaskView,
    shown: Seq<char>,
) -> bool {
    match part {
        Part::Word(name) => becomes(name, at, scopes, fields, task, shown),
        Part::Other(c) => shown == c_source::byte_chars(c),
        _ => shown == spelling(part),
    }
}

/// The first `n` texts, one behind another.
pub open spec fn strung(texts: Seq<Seq<char>>, n: int) -> Seq<char>
    decreases n,
{
    if n <= 0 {
        Seq::empty()
    } else {
        strung(texts, n - 1) + texts[n - 1]
    }
}

proof fn word_ends(s: Seq<char>, i: int, end: int)
    requires
        0 <= i <= end <= s.len(),
        forall|j: int| i <= j < end ==> text::is_ident_char(#[trigger] s[j]),
        end < s.len() ==> !text::is_ident_char(s[end]),
    ensures
        c_source::word_end(s, i) == end,
    decreases end - i,
{
    if i < end {
        word_ends(s, i + 1, end);
    }
}

proof fn literal_ends(s: Seq<char>, quote: char, i: int, end: int)
    requires
        0 <= i <= end < s.len(),
        quote != '\\',
        quotable(s.subrange(i, end), quote),
        s[end] == quote,
    ensures
        c_source::quoted_end(s, quote, i) == end + 1,
    decreases end - i,
{
    let inner = s.subrange(i, end);
    if i < end {
        assert(inner[0] == s[i]);
        if s[i] == '\\' {
            assert(inner.skip(2) =~= s.subrange(i + 2, end));
            literal_ends(s, quote, i + 2, end);
        } else {
            assert(inner.skip(1) =~= s.subrange(i + 1, end));
            literal_ends(s, quote, i + 1, end);
        }
    }
}

proof fn comment_ends(s: Seq<char>, i: int, end: int)
    requires
        0 <= i <= end - 2,
        end <= s.len(),
        s[end - 2] == '*',
        s[end - 1] == '/',
        forall|j: int| i <= j < end - 2 ==> !(#[trigger] s[j] == '*' && s[j + 1] == '/'),
    ensures
        c_source::comment_end(s, i) == end,
    decreases end - i,
{
    if i < end - 2 {
        comment_ends(s, i + 1, end);
    }
}

proof fn spelled_is_prefix(parts: Seq<Part>, n: int, m: int)
    requires
        0 <= n <= m <= parts.len(),
    ensures
        spelled(parts, n).len() <= spelled(parts, m).len(),
        forall|i: int|
            0 <= i < spelled(parts, n).len() ==> #[trigger] spelled(parts, n)[i] == spelled(
                parts,
                m,
            )[i],
    decreases m - n,
{
    if n < m {
        spelled_is_prefix(parts, n, m - 1);
    }
}

proof fn part_is_rewritten(
    out: Seq<char>,
    parts: Seq<Part>,
    n: int,
    start: nat,
    scopes: Seq<ScopeId>,
    fields: Seq<LiftedField>,
    task: TaskView,
) -> (shown: Seq<char>)
    requires
        0 <= n < parts.len(),
        parted(parts),
    ensures
        ({
            let s = spelled(parts, parts.len() as int);
            let i = spelled(parts, n).len();
            &&& part_becomes(
                parts[n],
                start + text::byte_len(spelled(parts, n)),
                scopes,
                fields,
                task,
                shown,
            )
            &&& c_source::rewritten_from(out, s, i as int, start, scopes, fields, task)
                == c_source::rewritten_from(
                out + shown,
                s,
                spelled(parts, n + 1).len() as int,
                start,
                scopes,
                fields,
                task,
            )
        }),
{
    let s = spelled(parts, parts.len() as int);
    let i = spelled(parts, n).len() as int;
    let end = spelled(parts, n + 1).len() as int;
    let own = spelling(parts[n]);
    spelled_is_prefix(parts, n, parts.len() as int);
    spelled_is_prefix(parts, n + 1, parts.len() as int);
    assert(well_spelled(parts[n]));
    assert(end == i + own.len());
    assert forall|j: int| 0 <= j < own.len() implies #[trigger] own[j] == s[i + j] by {
        assert(spelled(parts, n + 1)[i + j] == own[j]);
    }
    assert(s.subrange(i, end) =~= own);
    assert(s.take(i) =~= spelled(parts, n));
    assert(own[0] == s[i]);
    if n + 1 < parts.len() {
        spelled_is_prefix(parts, n + 2, parts.len() as int);
        assert(well_spelled(parts[n + 1]));
        assert(spelling(parts[n + 1]).len() > 0);
        assert(spelled(parts, n + 2)[end] == spelling(parts[n + 1])[0]);
        assert(s[end] == spelling(parts[n + 1])[0]);
        assert(ends_before(parts[n], s[end]));
    } else {
        assert(end == s.len());
    }
    let at = start + text::byte_len(spelled(parts, n));
    match parts[n] {
        Part::Word(name) => {
            assert(text::is_ident_start(s[i]));
            assert forall|j: int| i + 1 <= j < end implies text::is_ident_char(#[trigger] s[j]) by {
                assert(own[j - i] == s[i + (j - i)]);
            }
            word_ends(s, i + 1, end);
            starts_are_plain(s[i]);
            meaning_is_found(fields, name, at, scopes, fields.len() as int);
            assert(fields.take(fields.len() as int) =~= fields);
            let shown = c_source::word_text(name, at, scopes, fields, task);
            if let Some(k) = c_source::lifted_meant(fields, name, at, scopes, fields.len() as int) {
                assert forall|j: int| means(fields, name, at, scopes, j) implies j == k by {
                    names_mean_one_declaration(fields, name, at, scopes, j, k);
                }
                names_mean_one_declaration(fields, name, at, scopes, k, k);
            } else {
                assert forall|j: int| !(#[trigger] means(fields, name, at, scopes, j)) by {
                    if means(fields, name, at, scopes, j) {
                        names_mean_one_declaration(fields, name, at, scopes, j, j);
                    }
                }
            }
            shown
        },
        Part::Literal(q) => {
            assert(s.subrange(i + 1, end - 1) =~= q.subrange(1, q.len() - 1));
            assert(s[end - 1] == q[q.len() - 1]) by {
                assert(own[q.len() - 1] == s[i + (q.len() - 1)]);
            }
            literal_ends(s, s[i], i + 1, end - 1);
            q
        },
        Part::Comment(c) => {
            assert(s[i + 1] == c[1]) by {
                assert(own[1] == s[i + 1]);
            }
            assert(s[end - 2] == '*' && s[end - 1] == '/') by {
                assert(own[c.len() - 2] == s[i + (c.len() - 2)]);
                assert(own[c.len() - 1] == s[i + (c.len() - 1)]);
            }
            assert forall|j: int| i + 2 <= j < end - 2 implies !(#[trigger] s[j] == '*' && s[j + 1]
                == '/') by {
                assert(own[j - i] == s[i + (j - i)]);
                assert(own[j - i + 1] == s[i + (j - i + 1)]);
            }
            comment_ends(s, i + 2, end);
            c
        },
        Part::Rest(r) => {
            assert(s[i + 1] == r[1]) by {
                assert(own[1] == s[i + 1]);
            }
            assert(end == s.len());
            assert(s.skip(i) =~= own);
            r
        },
        Part::Other(c) => {
            assert(own.len() == 1);
            c_source::byte_chars(c)
        },
    }
}

proof fn starts_are_plain(c: char)
    requires
        text::is_ident_start(c),
    ensures
        c != '"' && c != '\'' && c != '/',
{
}

proof fn parts_are_rewritten(
    parts: Seq<Part>,
    n: int,
    start: nat,
    scopes: Seq<ScopeId>,
    fields: Seq<LiftedField>,
    task: TaskView,
) -> (shown: Seq<Seq<char>>)
    requires
        0 <= n <= parts.len(),
        parted(parts),
    ensures
        shown.len() == n,
        forall|k: int|
            0 <= k < n ==> part_becomes(
                parts[k],
                start + text::byte_len(spelled(parts, k)),
                scopes,
                fields,
                task,
                #[trigger] shown[k],
            ),
        c_source::rewritten_from(
            Seq::empty(),
            spelled(parts, parts.len() as int),
            0,
            start,
            scopes,
            fields,
            task,
        ) == c_source::rewritten_from(
            strung(shown, n),
            spelled(parts, parts.len() as int),
            spelled(parts, n).len() as int,
            start,
            scopes,
            fields,
            task,
        ),
    decreases n,
{
    if n <= 0 {
        Seq::empty()
    } else {
        let before = parts_are_rewritten(parts, n - 1, start, scopes, fields, task);
        let last = part_is_rewritten(
            strung(before, n - 1),
            parts,
            n - 1,
            start,
            scopes,
            fields,
            task,
        );
        let shown = before.push(last);
        strung_of_prefix(before, shown, n - 1);
        shown
    }
}

proof fn strung_of_prefix(a: Seq<Seq<char>>, b: Seq<Seq<char>>, n: int)
    requires
        0 <= n <= a.len() <= b.len(),
        forall|i: int| 0 <= i < n ==> a[i] == b[i],
    ensures
        strung(a, n) == strung(b, n),
    decreases n,
{
    if n > 0 {
        strung_of_prefix(a, b, n - 1);
    }
}

/// Source text is rewritten part by part. A word that means a lifted
/// declaration becomes the access of the field placed for it; a word that means
/// none, a literal and a comment stay as they are, and so does everything behind
/// `//`. Without a context the text stays as it is.
pub proof fn words_become_accesses(
    parts: Seq<Part>,
    start: nat,
    scopes: Seq<ScopeId>,
    fields: Seq<LiftedField>,
    task: TaskView,
) -> (shown: Seq<Seq<char>>)
    requires
        parted(parts),
    ensures
        shown.len() == parts.len(),
        forall|k: int|
            0 <= k < parts.len() ==> part_becomes(
                parts[k],
                start + text::byte_len(spelled(parts, k)),
                scopes,
                fields,
                task,
                #[trigger] shown[k],
            ),
        c_source::rewritten(
            spelled(parts, parts.len() as int),
            start,
            scopes,
            fields,
            Some(task),
        ) == strung(shown, parts.len() as int),
        c_source::rewritten(spelled(parts, parts.len() as int), start, scopes, fields, None)
            == spelled(parts, parts.len() as int),
{
    parts_are_rewritten(parts, parts.len() as int, start, scopes, fields, task)
}

/// Source text that is the name of a lifted declaration becomes the access of
/// the field placed for it.
pub proof fn names_become_accesses(
    name: Seq<char>,
    start: nat,
    scopes: Seq<ScopeId>,
    fields: Seq<LiftedField>,
    task: TaskView,
    k: int,
)
    requires
        well_spelled(Part::Word(name)),
        means(fields, name, start, scopes, k),
    ensures
        c_source::rewritten(name, start, scopes, fields, Some(task)) == c_source::path(
            task,
            LogicalFieldId::Lifted(fields[k].declaration),
        ),
{
    let parts = seq![Part::Word(name)];
    let shown = words_become_accesses(parts, start, scopes, fields, task);
    reveal_with_fuel(spelled, 2);
    reveal_with_fuel(strung, 2);
    assert(spelled(parts, 1) =~= name);
    assert(strung(shown, 1) =~= shown[0]);
    assert(spelled(parts, 0) =~= Seq::<char>::empty());
    assert(text::byte_len(Seq::<char>::empty()) == 0);
    assert(part_becomes(parts[0], start, scopes, fields, task, shown[0]));
}

/// A character outside literals, comments and words that is ASCII stays as it
/// is.
pub proof fn plain_characters_stay(c: char)
    requires
        (c as u32) < 0x80,
    ensures
        c_source::byte_chars(c) == seq![c],
{
}

} // verus!
