//! Source text whose names of lifted declarations are context fields.

use vstd::prelude::*;

use crate::context_layout;
use crate::context_layout::{FunctionContextLayout, LayoutView, LogicalFieldId};
use crate::context_types;
use crate::context_types::find_scope;
use crate::liveness::LiftedField;
use crate::order;
use crate::semantic::ScopeId;
use crate::text;
use crate::text::{char_is_ident_char, char_is_ident_start, char_width, chars_of, str_eq, string_of};

verus! {

/// A task context that C code reaches through a pointer.
#[derive(Clone, Copy)]
pub struct TaskContext<'a> {
    pub layout: &'a FunctionContextLayout,
    pub context: &'a str,
}

/// The contents of a task context.
pub struct TaskView {
    pub layout: LayoutView,
    pub context: Seq<char>,
}

impl<'a> View for TaskContext<'a> {
    type V = TaskView;

    open spec fn view(&self) -> TaskView {
        TaskView { layout: self.layout@, context: self.context@ }
    }
}

/// Whether a field has a place in the context.
pub open spec fn placed(task: TaskView, field: LogicalFieldId) -> bool {
    order::lookup(task.layout.fields, field) is Some
}

/// How C code reaches a field of the context.
#[verifier::opaque]
pub open spec fn path(task: TaskView, field: LogicalFieldId) -> Seq<char> {
    context_layout::access_text(task.layout, field, task.context)->0
}

/// Returns how C code reaches a field of the context.
pub fn required_access(task: &TaskContext<'_>, field: LogicalFieldId) -> (r: String)
    requires
        placed(task@, field),
    ensures
        r@ == path(task@, field),
{
    proof {
        reveal(path);
    }
    match task.layout.access(field, task.context) {
        Some(access) => access,
        None => String::new(),
    }
}

/// Whether all lifted declarations have a place in the context.
pub open spec fn lifted_placed(task: TaskView, fields: Seq<LiftedField>) -> bool {
    forall|i: int|
        0 <= i < fields.len() ==> placed(
            task,
            LogicalFieldId::Lifted((#[trigger] fields[i]).declaration),
        )
}

/// Whether a lifted declaration can be meant by `name` at byte `at`.
pub open spec fn lifted_visible(
    field: LiftedField,
    name: Seq<char>,
    at: nat,
    scopes: Seq<ScopeId>,
) -> bool {
    field.source_name@ == name && field.declaration_start <= at && context_types::scope_position(
        scopes,
        field.scope,
        0,
    ) is Some
}

/// The lifted declaration that `name` means among the first `n`: of the
/// visible ones that in the innermost scope, and of several there the one that
/// starts last.
pub open spec fn lifted_meant(
    fields: Seq<LiftedField>,
    name: Seq<char>,
    at: nat,
    scopes: Seq<ScopeId>,
    n: int,
) -> Option<int>
    decreases n,
{
    if n <= 0 {
        None
    } else {
        let best = lifted_meant(fields, name, at, scopes, n - 1);
        let field = fields[n - 1];
        if !lifted_visible(field, name, at, scopes) {
            best
        } else {
            match best {
                None => Some(n - 1),
                Some(b) => {
                    let depth = context_types::scope_position(scopes, field.scope, 0)->0;
                    let other = context_types::scope_position(scopes, fields[b].scope, 0)->0;
                    if depth > other || (depth == other && field.declaration_start
                        >= fields[b].declaration_start) {
                        Some(n - 1)
                    } else {
                        Some(b)
                    }
                },
            }
        }
    }
}

/// A name, or the context field that it means.
pub open spec fn word_text(
    word: Seq<char>,
    at: nat,
    scopes: Seq<ScopeId>,
    fields: Seq<LiftedField>,
    task: TaskView,
) -> Seq<char> {
    match lifted_meant(fields, word, at, scopes, fields.len() as int) {
        Some(k) => path(task, LogicalFieldId::Lifted(fields[k].declaration)),
        None => word,
    }
}

/// Where the literal ends that `quote` opened before `i`.
pub open spec fn quoted_end(s: Seq<char>, quote: char, i: int) -> int
    decreases s.len() - i,
{
    if i < 0 || i >= s.len() {
        s.len() as int
    } else if s[i] == '\\' {
        if i + 1 < s.len() {
            quoted_end(s, quote, i + 2)
        } else {
            s.len() as int
        }
    } else if s[i] == quote {
        i + 1
    } else {
        quoted_end(s, quote, i + 1)
    }
}

/// Where the comment ends whose text starts at `i`.
pub open spec fn comment_end(s: Seq<char>, i: int) -> int
    decreases s.len() - i,
{
    if 0 <= i && i + 1 < s.len() && !(s[i] == '*' && s[i + 1] == '/') {
        comment_end(s, i + 1)
    } else if i + 2 < s.len() {
        i + 2
    } else {
        s.len() as int
    }
}

/// Where the word ends that goes on at `i`.
pub open spec fn word_end(s: Seq<char>, i: int) -> int
    decreases s.len() - i,
{
    if 0 <= i < s.len() && text::is_ident_char(s[i]) {
        word_end(s, i + 1)
    } else {
        i
    }
}

/// The bytes of the UTF-8 encoding of a character, each as a character.
pub open spec fn byte_chars(c: char) -> Seq<char> {
    let n = c as u32;
    let last = (0x80 + n % 64) as char;
    if n < 0x80 {
        seq![c]
    } else if n < 0x800 {
        seq![(0xc0 + n / 64) as char, last]
    } else if n < 0x10000 {
        seq![(0xe0 + n / 4096) as char, (0x80 + (n / 64) % 64) as char, last]
    } else {
        seq![
            (0xf0 + n / 262144) as char,
            (0x80 + (n / 4096) % 64) as char,
            (0x80 + (n / 64) % 64) as char,
            last,
        ]
    }
}

/// The text from `i` on, with the names of lifted declarations replaced
/// outside literals and comments. From the first line comment on, all text is left
/// alone, the lines after it too. A character outside literals, comments and words
/// that isn't ASCII becomes the bytes of its UTF-8 encoding, each as a character.
pub open spec fn rewritten_from(
    out: Seq<char>,
    s: Seq<char>,
    i: int,
    start: nat,
    scopes: Seq<ScopeId>,
    fields: Seq<LiftedField>,
    task: TaskView,
) -> Seq<char>
    decreases s.len() - i,
{
    if i < 0 || i >= s.len() {
        out
    } else if s[i] == '"' || s[i] == '\'' {
        let end = quoted_end(s, s[i], i + 1);
        if i < end <= s.len() {
            rewritten_from(out + s.subrange(i, end), s, end, start, scopes, fields, task)
        } else {
            out
        }
    } else if s[i] == '/' && i + 1 < s.len() && s[i + 1] == '/' {
        out + s.skip(i)
    } else if s[i] == '/' && i + 1 < s.len() && s[i + 1] == '*' {
        let end = comment_end(s, i + 2);
        if i < end <= s.len() {
            rewritten_from(out + s.subrange(i, end), s, end, start, scopes, fields, task)
        } else {
            out
        }
    } else if text::is_ident_start(s[i]) {
        let end = word_end(s, i + 1);
        if i < end <= s.len() {
            rewritten_from(
                out + word_text(
                    s.subrange(i, end),
                    start + text::byte_len(s.take(i)),
                    scopes,
                    fields,
                    task,
                ),
                s,
                end,
                start,
                scopes,
                fields,
                task,
            )
        } else {
            out
        }
    } else {
        rewritten_from(out + byte_chars(s[i]), s, i + 1, start, scopes, fields, task)
    }
}

/// Source text in which the names of lifted declarations are context fields,
/// if there is a context.
pub open spec fn rewritten(
    s: Seq<char>,
    start: nat,
    scopes: Seq<ScopeId>,
    fields: Seq<LiftedField>,
    task: Option<TaskView>,
) -> Seq<char> {
    match task {
        None => s,
        Some(own) => rewritten_from(Seq::empty(), s, 0, start, scopes, fields, own),
    }
}

/// The contents of a context, if there is one.
pub open spec fn task_view(task: Option<TaskContext<'_>>) -> Option<TaskView> {
    match task {
        Some(own) => Some(own@),
        None => None,
    }
}

/// Whether all lifted declarations have a place in the context, if there is
/// one.
pub open spec fn fields_ready(task: Option<TaskView>, fields: Seq<LiftedField>) -> bool {
    match task {
        Some(own) => lifted_placed(own, fields),
        None => true,
    }
}

fn find_lifted(
    fields: &Vec<LiftedField>,
    name: &str,
    at: u128,
    scopes: &Vec<ScopeId>,
) -> (r: Option<usize>)
    ensures
        match r {
            Some(k) => lifted_meant(fields@, name@, at as nat, scopes@, fields@.len() as int)
                == Some(k as int) && k < fields@.len(),
            None => lifted_meant(
                fields@,
                name@,
                at as nat,
                scopes@,
                fields@.len() as int,
            ) is None,
        },
{
    let mut best: Option<(usize, usize)> = None;
    let mut n: usize = 0;
    while n < fields.len()
        invariant
            n <= fields@.len(),
            match best {
                Some((i, depth)) => i < n && lifted_meant(
                    fields@,
                    name@,
                    at as nat,
                    scopes@,
                    n as int,
                ) == Some(i as int) && context_types::scope_position(
                    scopes@,
                    fields@[i as int].scope,
                    0,
                ) == Some(depth as int),
                None => lifted_meant(fields@, name@, at as nat, scopes@, n as int) is None,
            },
        decreases fields@.len() - n,
    {
        let field = &fields[n];
        if let Some(depth) = find_scope(scopes, field.scope) {
            if field.declaration_start as u128 <= at && str_eq(field.source_name.as_str(), name) {
                let better = match best {
                    None => true,
                    Some((b, other)) => depth > other || (depth == other
                        && field.declaration_start >= fields[b].declaration_start),
                };
                if better {
                    best = Some((n, depth));
                }
            }
        }
        n += 1;
    }
    match best {
        Some((i, depth)) => Some(i),
        None => None,
    }
}

proof fn quoted_end_bounds(s: Seq<char>, quote: char, i: int)
    requires
        0 <= i,
    ensures
        quoted_end(s, quote, i) <= s.len(),
        i <= s.len() ==> i <= quoted_end(s, quote, i),
    decreases s.len() - i,
{
    if i < s.len() {
        if s[i] == '\\' {
            if i + 1 < s.len() {
                quoted_end_bounds(s, quote, i + 2);
            }
        } else if s[i] != quote {
            quoted_end_bounds(s, quote, i + 1);
        }
    }
}

fn find_quoted_end(v: &Vec<char>, quote: char, from: usize) -> (r: usize)
    requires
        from <= v@.len(),
    ensures
        r == quoted_end(v@, quote, from as int),
        from <= r <= v@.len(),
{
    proof {
        quoted_end_bounds(v@, quote, from as int);
    }
    let mut i: usize = from;
    while i < v.len()
        invariant
            from <= i <= v@.len(),
            quoted_end(v@, quote, from as int) == quoted_end(v@, quote, i as int),
            quoted_end(v@, quote, from as int) <= v@.len(),
        decreases v@.len() - i,
    {
        if v[i] == '\\' {
            if v.len() - i <= 1 {
                return v.len();
            }
            i += 2;
        } else if v[i] == quote {
            return i + 1;
        } else {
            i += 1;
        }
    }
    v.len()
}

fn find_comment_end(v: &Vec<char>, from: usize) -> (r: usize)
    requires
        from <= v@.len(),
    ensures
        r == comment_end(v@, from as int),
        from <= r <= v@.len(),
{
    let mut i: usize = from;
    while v.len() - i > 1 && !(v[i] == '*' && v[i + 1] == '/')
        invariant
            from <= i <= v@.len(),
            comment_end(v@, from as int) == comment_end(v@, i as int),
        decreases v@.len() - i,
    {
        i += 1;
    }
    if v.len() - i > 2 {
        i + 2
    } else {
        v.len()
    }
}

fn find_word_end(v: &Vec<char>, from: usize) -> (r: usize)
    requires
        from <= v@.len(),
    ensures
        r == word_end(v@, from as int),
        from <= r <= v@.len(),
{
    let mut i: usize = from;
    while i < v.len() && char_is_ident_char(v[i])
        invariant
            from <= i <= v@.len(),
            word_end(v@, from as int) == word_end(v@, i as int),
        decreases v@.len() - i,
    {
        i += 1;
    }
    i
}

fn put_byte_chars(out: &mut String, c: char)
    ensures
        final(out)@ == old(out)@ + byte_chars(c),
{
    let n: u32 = c as u32;
    let ghost before = out@;
    if n < 0x80 {
        out.push(c);
    } else if n < 0x800 {
        out.push(((0xc0 + n / 64) as u8) as char);
        out.push(((0x80 + n % 64) as u8) as char);
    } else if n < 0x10000 {
        out.push(((0xe0 + n / 4096) as u8) as char);
        out.push(((0x80 + (n / 64) % 64) as u8) as char);
        out.push(((0x80 + n % 64) as u8) as char);
    } else {
        out.push(((0xf0 + n / 262144) as u8) as char);
        out.push(((0x80 + (n / 4096) % 64) as u8) as char);
        out.push(((0x80 + (n / 64) % 64) as u8) as char);
        out.push(((0x80 + n % 64) as u8) as char);
    }
    assert(out@ =~= before + byte_chars(c));
}

fn count_bytes(v: &Vec<char>, from: usize, to: usize, before: u128) -> (r: u128)
    requires
        from <= to <= v@.len(),
        before == text::byte_len(v@.take(from as int)),
        before <= 4 * from,
    ensures
        r == text::byte_len(v@.take(to as int)),
        r <= 4 * to,
{
    let mut total: u128 = before;
    let mut i: usize = from;
    while i < to
        invariant
            from <= i <= to <= v@.len(),
            total == text::byte_len(v@.take(i as int)),
            total <= 4 * i,
        decreases to - i,
    {
        assert(v@.take(i as int + 1).drop_last() =~= v@.take(i as int));
        total = total + char_width(v[i]);
        i += 1;
    }
    total
}

/// Replaces the names of lifted declarations outside literals and comments, up to
/// the first line comment, by context fields, if there is a context.
pub fn rewrite_source(
    source: &str,
    absolute_start: usize,
    scopes: &Vec<ScopeId>,
    fields: &Vec<LiftedField>,
    task: Option<TaskContext<'_>>,
) -> (r: String)
    requires
        fields_ready(task_view(task), fields@),
    ensures
        r@ == rewritten(source@, absolute_start as nat, scopes@, fields@, task_view(task)),
{
    let own = match task {
        None => {
            let mut out = String::new();
            text::put(&mut out, source);
            assert(out@ =~= source@);
            return out;
        },
        Some(own) => own,
    };
    let v = chars_of(source);
    let mut out = String::new();
    assert(out@ =~= Seq::empty());
    let ghost goal = rewritten_from(
        Seq::empty(),
        v@,
        0,
        absolute_start as nat,
        scopes@,
        fields@,
        own@,
    );
    let mut bytes: u128 = 0;
    assert(v@.take(0) =~= Seq::<char>::empty());
    let mut i: usize = 0;
    while i < v.len()
        invariant
            i <= v@.len(),
            v@ == source@,
            lifted_placed(own@, fields@),
            task == Some(own),
            goal == rewritten(
                source@,
                absolute_start as nat,
                scopes@,
                fields@,
                task_view(task),
            ),
            bytes == text::byte_len(v@.take(i as int)),
            bytes <= 4 * i,
            goal == rewritten_from(
                out@,
                v@,
                i as int,
                absolute_start as nat,
                scopes@,
                fields@,
                own@,
            ),
        decreases v@.len() - i,
    {
        let c = v[i];
        if c == '"' || c == '\'' {
            let end = find_quoted_end(&v, c, i + 1);
            let piece = string_of(&v, i, end);
            text::put(&mut out, piece.as_str());
            bytes = count_bytes(&v, i, end, bytes);
            i = end;
        } else if c == '/' && v.len() - i > 1 && v[i + 1] == '/' {
            let piece = string_of(&v, i, v.len());
            assert(piece@ =~= v@.skip(i as int));
            text::put(&mut out, piece.as_str());
            return out;
        } else if c == '/' && v.len() - i > 1 && v[i + 1] == '*' {
            let end = find_comment_end(&v, i + 2);
            let piece = string_of(&v, i, end);
            text::put(&mut out, piece.as_str());
            bytes = count_bytes(&v, i, end, bytes);
            i = end;
        } else if char_is_ident_start(c) {
            let end = find_word_end(&v, i + 1);
            let word = string_of(&v, i, end);
            let at: u128 = absolute_start as u128 + bytes;
            match find_lifted(fields, word.as_str(), at, scopes) {
                Some(k) => {
                    assert(placed(own@, LogicalFieldId::Lifted(fields@[k as int].declaration)));
                    let access = required_access(
                        &own,
                        LogicalFieldId::Lifted(fields[k].declaration),
                    );
                    text::put(&mut out, access.as_str());
                },
                None => {
                    text::put(&mut out, word.as_str());
                },
            }
            bytes = count_bytes(&v, i, end, bytes);
            i = end;
        } else {
            put_byte_chars(&mut out, c);
            bytes = count_bytes(&v, i, i + 1, bytes);
            i += 1;
        }
    }
    out
}

} // verus!
