//! What emission keeps of a source and what it leaves out.

use vstd::prelude::*;

use crate::c_emitter;
use crate::c_emitter::{ReplacementView, Source};
use crate::c_function_text;
use crate::c_instruction;
use crate::c_instruction::{Emitted, FunctionView};
use crate::c_runtime_text;
use crate::c_symbols;
use crate::c_symbols::Collected;
use crate::c_task;
use crate::c_terminator;
use crate::control_flow::{BasicBlock, CfgInstruction};
use crate::liveness::{LivenessFunction, LivenessUnit};
use crate::order;
use crate::semantic::{HirExpr, ScopeId};
use crate::syntax;
use crate::syntax::{DiagnosticSeverity, DiagnosticView};
use crate::text;

verus! {

/// The replacements of a list, each with the text that it stands for.
pub open spec fn left_as_they_were(
    original: Seq<char>,
    list: Seq<ReplacementView>,
) -> Seq<ReplacementView> {
    Seq::new(
        list.len(),
        |i: int|
            ReplacementView {
                body: text::byte_slice(original, list[i].start as int, list[i].end as int),
                ..list[i]
            },
    )
}

/// Splicing changes nothing but the functions that it replaces: it takes the
/// same parts of the original whatever the functions become, and if they were
/// left as they were, it would give back the original.
pub proof fn splicing_keeps_everything_else(
    head: Seq<char>,
    original: Seq<char>,
    list: Seq<ReplacementView>,
    n: int,
)
    requires
        0 <= n <= list.len(),
        forall|i: int| 0 <= i < list.len() ==> (#[trigger] list[i]).start <= list[i].end,
    ensures
        ({
            let kept = c_emitter::spliced(head, original, left_as_they_were(original, list), n);
            &&& kept.cursor == c_emitter::spliced(head, original, list, n).cursor
            &&& kept.cursor >= 0
            &&& kept.out == head + text::byte_slice(original, 0, kept.cursor)
            &&& kept.out + original.skip(text::chars_before(original, kept.cursor)) == head
                + original
        }),
    decreases n,
{
    let same = left_as_they_were(original, list);
    let kept = c_emitter::spliced(head, original, same, n);
    if n > 0 {
        splicing_keeps_everything_else(head, original, list, n - 1);
        let before = c_emitter::spliced(head, original, same, n - 1);
        assert(list[n - 1].start <= list[n - 1].end);
        if !c_emitter::left_out(original, before, same[n - 1]) {
            let (a, b, c) = (before.cursor, list[n - 1].start as int, list[n - 1].end as int);
            text::lemma_chars_before_bounds(original, 0, a);
            text::lemma_chars_before_bounds(original, a, b);
            text::lemma_chars_before_bounds(original, b, c);
            assert(kept.out =~= head + text::byte_slice(original, 0, c));
        }
    } else {
        text::lemma_chars_before_bounds(original, 0, 0);
        assert(kept.out =~= head + text::byte_slice(original, 0, 0));
    }
    text::lemma_chars_before_bounds(original, 0, kept.cursor);
    text::lemma_chars_before_zero(original);
    assert(kept.out + original.skip(text::chars_before(original, kept.cursor)) =~= head
        + original);
}

/// A unit whose layouts can't be used gives no source, and at least one error.
pub proof fn unusable_layouts_emit_nothing(
    source: Source<'_>,
    unit: LivenessUnit,
    layout_diagnostics: Seq<DiagnosticView>,
)
    requires
        c_emitter::holds_error(layout_diagnostics),
    ensures
        c_emitter::emission_of(source, unit, layout_diagnostics).source.len() == 0,
        c_emitter::holds_error(
            c_emitter::emission_of(source, unit, layout_diagnostics).diagnostics,
        ),
{
    let first = syntax::views(unit.diagnostics@);
    let all = first + layout_diagnostics;
    let i = choose|i: int|
        0 <= i < layout_diagnostics.len() && (#[trigger] layout_diagnostics[i]).severity
            == DiagnosticSeverity::Error;
    assert(all[first.len() + i] == layout_diagnostics[i]);
}

proof fn replaced_absent(out: Seq<char>, s: Seq<char>, p: Seq<char>, r: Seq<char>, i: int)
    requires
        0 <= i <= s.len(),
        !text::occurs(s, p),
    ensures
        text::replaced_from(out, s, p, r, i) == out + s.skip(i),
    decreases s.len() - i,
{
    if p.len() > 0 && i + p.len() <= s.len() {
        assert(!text::occurs_at(s, p, i));
        replaced_absent(out.push(s[i]), s, p, r, i + 1);
        assert(out.push(s[i]) + s.skip(i + 1) =~= out + s.skip(i));
    }
}

/// Whether a line includes a header that is still to be generated.
pub open spec fn includes_source_header(line: Seq<char>) -> bool {
    c_emitter::includes_header(line) && (text::occurs(line, ".hr\""@) || text::occurs(
        line,
        ".hr>"@,
    ))
}

/// A text none of whose lines includes a header to be generated is kept to the
/// letter.
proof fn other_text_kept(s: Seq<char>)
    requires
        forall|k: int|
            0 <= k < text::lines(s).len() ==> !includes_source_header(
                #[trigger] text::lines(s)[k],
            ),
    ensures
        c_emitter::with_headers(s) == s,
    decreases s.len(),
{
    let end = text::line_end(s, 0);
    text::line_end_bounds(s, 0);
    let first = text::lines(s)[0];
    assert(!includes_source_header(first));
    if c_emitter::includes_header(first) {
        replaced_absent(Seq::empty(), first, ".hr\""@, ".h\""@, 0);
        replaced_absent(Seq::empty(), first, ".hr>"@, ".h>"@, 0);
        assert(Seq::<char>::empty() + first.skip(0) =~= first);
    }
    if end < s.len() {
        let rest = s.skip(end + 1);
        assert forall|k: int| 0 <= k < text::lines(rest).len() implies !includes_source_header(
            #[trigger] text::lines(rest)[k],
        ) by {
            assert(text::lines(s)[k + 1] == text::lines(rest)[k]);
        }
        other_text_kept(rest);
        assert(s.take(end) + seq!['\n'] + rest =~= s);
    }
}

/// A unit without functions keeps its diagnostics, and its source but for the
/// headers that its directives include. If no directive includes a header to
/// be generated, it keeps its source to the letter.
pub proof fn units_without_functions_pass_through(
    source: Source<'_>,
    unit: LivenessUnit,
    layout_diagnostics: Seq<DiagnosticView>,
)
    requires
        source.unit.len() == 0,
        !c_emitter::holds_error(layout_diagnostics),
    ensures
        ({
            let emission = c_emitter::emission_of(source, unit, layout_diagnostics);
            let lines = text::lines(source.original);
            &&& emission.diagnostics == syntax::views(unit.diagnostics@)
            &&& emission.source == c_emitter::with_headers(source.original)
            &&& (forall|k: int|
                0 <= k < lines.len() ==> !includes_source_header(#[trigger] lines[k]))
                ==> emission.source == source.original
        }),
{
    let ordered = c_emitter::ordered_replacements(Seq::empty());
    assert(c_emitter::replacement_keys(Seq::empty()) =~= Seq::empty());
    assert(ordered =~= Seq::empty());
    text::lemma_chars_before_zero(source.original);
    assert(Seq::<char>::empty() + source.original.skip(0) =~= source.original);
    let lines = text::lines(source.original);
    if forall|k: int| 0 <= k < lines.len() ==> !includes_source_header(#[trigger] lines[k]) {
        other_text_kept(source.original);
    }
}

/// The name ending of a header and the character after it.
spec fn ending(mark: char) -> Seq<char> {
    seq!['.', 'h', 'r', mark]
}

/// The name ending of a generated header and the character after it.
spec fn generated_ending(mark: char) -> Seq<char> {
    seq!['.', 'h', mark]
}

spec fn is_mark(mark: char) -> bool {
    mark == '"' || mark == '>'
}

/// Whether the end of `out` that begins the word `w` was copied from `s`, from
/// a place where `w` doesn't occur.
spec fn copied_tail(out: Seq<char>, s: Seq<char>, w: Seq<char>, i: int, t: int) -> bool {
    out.len() >= t && out.skip(out.len() - t) == w.take(t) ==> t <= i && s.subrange(i - t, i)
        == w.take(t) && !text::occurs_at(s, w, i - t)
}

proof fn replaced_leaves_none(out: Seq<char>, s: Seq<char>, mark: char, other: char, i: int)
    requires
        0 <= i <= s.len(),
        is_mark(mark),
        is_mark(other),
        mark == other || !text::occurs(s, ending(other)),
        !text::occurs(out, ending(other)),
        forall|t: int| 1 <= t <= 3 ==> #[trigger] copied_tail(out, s, ending(other), i, t),
    ensures
        !text::occurs(
            text::replaced_from(out, s, ending(mark), generated_ending(mark), i),
            ending(other),
        ),
    decreases s.len() - i,
{
    let (p, r, w) = (ending(mark), generated_ending(mark), ending(other));
    if i + p.len() > s.len() {
        let end = out + s.skip(i);
        assert forall|k: int| !text::occurs_at(end, w, k) by {
            none_in_rest(out, s, w, i, k);
        }
    } else if text::occurs_at(s, p, i) {
        let next = out + r;
        assert forall|k: int| !text::occurs_at(next, w, k) by {
            if text::occurs_at(next, w, k) {
                let found = next.subrange(k, k + 4);
                assert(found[2] == 'r' && found[3] == other);
                assert(next[k + 2] == 'r' && next[k + 3] == other);
                if k + 4 <= out.len() {
                    assert(out.subrange(k, k + 4) =~= found);
                    assert(text::occurs_at(out, w, k));
                }
            }
        }
        assert forall|t: int| 1 <= t <= 3 implies #[trigger] copied_tail(next, s, w, i + 4, t) by {
            if next.len() >= t && next.skip(next.len() - t) == w.take(t) {
                assert(next.skip(next.len() - t)[t - 1] == mark);
                assert(w.take(t)[t - 1] == w[t - 1]);
            }
        }
        replaced_leaves_none(next, s, mark, other, i + 4);
    } else {
        let next = out.push(s[i]);
        assert(!text::occurs_at(s, w, i));
        assert forall|k: int| !text::occurs_at(next, w, k) by {
            if text::occurs_at(next, w, k) {
                let found = next.subrange(k, k + 4);
                if k + 4 <= out.len() {
                    assert(out.subrange(k, k + 4) =~= found);
                    assert(text::occurs_at(out, w, k));
                } else {
                    assert(out.skip(out.len() - 3) =~= w.take(3)) by {
                        assert forall|j: int| 0 <= j < 3 implies out.skip(out.len() - 3)[j]
                            == w.take(3)[j] by {
                            assert(found[j] == next[k + j]);
                        }
                    }
                    assert(copied_tail(out, s, w, i, 3));
                    assert(found[3] == s[i]);
                    assert(s.subrange(i - 3, i + 1) =~= w) by {
                        assert forall|j: int| 0 <= j < 4 implies s.subrange(i - 3, i + 1)[j]
                            == w[j] by {
                            if j < 3 {
                                assert(s.subrange(i - 3, i)[j] == w.take(3)[j]);
                            }
                        }
                    }
                    assert(text::occurs_at(s, w, i - 3));
                }
            }
        }
        assert forall|t: int| 1 <= t <= 3 implies #[trigger] copied_tail(next, s, w, i + 1, t) by {
            if next.len() >= t && next.skip(next.len() - t) == w.take(t) {
                let tail = next.skip(next.len() - t);
                assert(tail[t - 1] == s[i]);
                if t == 1 {
                    assert(s.subrange(i, i + 1) =~= w.take(1));
                } else {
                    assert(out.skip(out.len() - (t - 1)) =~= w.take(t - 1)) by {
                        let shorter = out.skip(out.len() - (t - 1));
                        let start = w.take(t - 1);
                        assert forall|j: int| 0 <= j < t - 1 implies #[trigger] shorter[j]
                            == start[j] by {
                            assert(tail[j] == w.take(t)[j]);
                        }
                    }
                    assert(copied_tail(out, s, w, i, t - 1));
                    assert(s.subrange(i + 1 - t, i + 1) =~= w.take(t)) by {
                        assert forall|j: int| 0 <= j < t implies s.subrange(i + 1 - t, i + 1)[j]
                            == w.take(t)[j] by {
                            if j < t - 1 {
                                assert(s.subrange(i - (t - 1), i)[j] == w.take(t - 1)[j]);
                            } else {
                                assert(tail[j] == w.take(t)[j]);
                            }
                        }
                    }
                }
            }
        }
        replaced_leaves_none(next, s, mark, other, i + 1);
    }
}

proof fn none_in_rest(out: Seq<char>, s: Seq<char>, w: Seq<char>, i: int, k: int)
    requires
        0 <= i <= s.len() < i + 4,
        w.len() == 4,
        !text::occurs(out, w),
        forall|t: int| 1 <= t <= 3 ==> #[trigger] copied_tail(out, s, w, i, t),
    ensures
        !text::occurs_at(out + s.skip(i), w, k),
{
    let end = out + s.skip(i);
    let found = end.subrange(k, k + 4);
    if !text::occurs_at(end, w, k) {
    } else if k + 4 <= out.len() {
        assert(out.subrange(k, k + 4) =~= found);
        assert(text::occurs_at(out, w, k));
    } else {
        let t = out.len() - k;
        assert(1 <= t <= 3);
        assert(out.skip(out.len() - t) =~= w.take(t)) by {
            assert forall|j: int| 0 <= j < t implies out.skip(out.len() - t)[j]
                == w.take(t)[j] by {
                assert(found[j] == end[k + j]);
            }
        }
        assert(copied_tail(out, s, w, i, t));
        assert(s.subrange(i - t, i - t + 4) =~= w) by {
            assert forall|j: int| 0 <= j < 4 implies s.subrange(i - t, i - t + 4)[j] == w[j] by {
                if j < t {
                    assert(s.subrange(i - t, i)[j] == w.take(t)[j]);
                } else {
                    assert(found[j] == end[k + j]);
                }
            }
        }
        assert(text::occurs_at(s, w, i - t));
    }
}

/// Whether a text has no line break.
spec fn one_line(s: Seq<char>) -> bool {
    forall|i: int| 0 <= i < s.len() ==> #[trigger] s[i] != '\n'
}

proof fn replaced_in_line(out: Seq<char>, s: Seq<char>, p: Seq<char>, r: Seq<char>, i: int)
    requires
        0 <= i <= s.len(),
        one_line(out),
        one_line(s),
        one_line(r),
    ensures
        one_line(text::replaced_from(out, s, p, r, i)),
    decreases s.len() - i,
{
    if p.len() == 0 || i + p.len() > s.len() {
    } else if text::occurs_at(s, p, i) {
        replaced_in_line(out + r, s, p, r, i + p.len());
    } else {
        replaced_in_line(out.push(s[i]), s, p, r, i + 1);
    }
}

proof fn renamed_in_line(line: Seq<char>)
    requires
        one_line(line),
    ensures
        one_line(c_emitter::with_header(line)),
{
    reveal_strlit(".h\"");
    reveal_strlit(".h>");
    if c_emitter::includes_header(line) {
        let quoted = text::replaced(line, ".hr\""@, ".h\""@);
        replaced_in_line(Seq::empty(), line, ".hr\""@, ".h\""@, 0);
        replaced_in_line(Seq::empty(), quoted, ".hr>"@, ".h>"@, 0);
    }
}

/// Naming generated headers changes the directives that include them and
/// nothing else: line by line, every other line is as it was.
pub proof fn other_lines_are_kept(out: Seq<char>)
    ensures
        ({
            let before = text::lines(out);
            let after = text::lines(c_emitter::with_headers(out));
            &&& after.len() == before.len()
            &&& forall|k: int|
                0 <= k < before.len() ==> #[trigger] after[k] == c_emitter::with_header(
                    before[k],
                )
            &&& forall|k: int|
                0 <= k < before.len() && !includes_source_header(before[k])
                    ==> #[trigger] after[k] == before[k]
        }),
    decreases out.len(),
{
    let end = text::line_end(out, 0);
    text::line_end_bounds(out, 0);
    let first = if end < out.len() {
        out.take(end)
    } else {
        out
    };
    let renamed = c_emitter::with_header(first);
    renamed_in_line(first);
    let after = c_emitter::with_headers(out);
    if !includes_source_header(first) && c_emitter::includes_header(first) {
        replaced_absent(Seq::empty(), first, ".hr\""@, ".h\""@, 0);
        replaced_absent(Seq::empty(), first, ".hr>"@, ".h>"@, 0);
        assert(Seq::<char>::empty() + first.skip(0) =~= first);
    }
    if end < out.len() {
        let rest = out.skip(end + 1);
        let tail = c_emitter::with_headers(rest);
        other_lines_are_kept(rest);
        let n = renamed.len() as int;
        assert(after == renamed + seq!['\n'] + tail);
        assert(after[n] == '\n');
        assert forall|k: int| 0 <= k < n implies #[trigger] after[k] != '\n' by {
            assert(after[k] == renamed[k]);
        }
        text::line_end_is(after, 0, n);
        assert(after.take(n) =~= renamed);
        assert(after.skip(n + 1) =~= tail);
        let (a, b) = (text::lines(out), text::lines(after));
        assert(a == seq![first] + text::lines(rest));
        assert(b == seq![renamed] + text::lines(tail));
        assert forall|k: int| 0 <= k < a.len() implies #[trigger] b[k] == c_emitter::with_header(
            a[k],
        ) && (!includes_source_header(a[k]) ==> b[k] == a[k]) by {
            if k > 0 {
                assert(b[k] == text::lines(tail)[k - 1]);
                assert(a[k] == text::lines(rest)[k - 1]);
            }
        }
    } else {
        text::line_end_is(after, 0, after.len() as int);
    }
}

/// No directive of emitted source includes a header that is still to be
/// generated: each names the generated header.
pub proof fn emitted_source_names_generated_headers(out: Seq<char>, k: int)
    requires
        0 <= k < text::lines(c_emitter::with_headers(out)).len(),
    ensures
        !includes_source_header(text::lines(c_emitter::with_headers(out))[k]),
{
    other_lines_are_kept(out);
    let line = text::lines(out)[k];
    let after = text::lines(c_emitter::with_headers(out))[k];
    assert(after == c_emitter::with_header(line));
    generated_names_alone(line);
}

/// Text with generated names names no header that is still to be generated.
proof fn generated_names_alone(s: Seq<char>)
    ensures
        !text::occurs(c_emitter::with_generated_names(s), ".hr\""@),
        !text::occurs(c_emitter::with_generated_names(s), ".hr>"@),
{
    reveal_strlit(".hr\"");
    reveal_strlit(".hr>");
    reveal_strlit(".h\"");
    reveal_strlit(".h>");
    assert(".hr\""@ =~= ending('"'));
    assert(".hr>"@ =~= ending('>'));
    assert(".h\""@ =~= generated_ending('"'));
    assert(".h>"@ =~= generated_ending('>'));
    let quoted = text::replaced(s, ending('"'), generated_ending('"'));
    replaced_leaves_none(Seq::empty(), s, '"', '"', 0);
    replaced_leaves_none(Seq::empty(), quoted, '>', '"', 0);
    replaced_leaves_none(Seq::empty(), quoted, '>', '>', 0);
}

/// Nothing that stands for a function names a header that is still to be
/// generated, in whatever place of the function the name stood.
pub proof fn replaced_functions_name_generated_headers(
    source: Source<'_>,
    problems: Seq<DiagnosticView>,
    n: int,
    i: int,
)
    requires
        0 <= i < n,
    ensures
        i < c_emitter::replacements_of(source, problems, n).list.len(),
        !text::occurs(c_emitter::replacements_of(source, problems, n).list[i].body, ".hr\""@),
        !text::occurs(c_emitter::replacements_of(source, problems, n).list[i].body, ".hr>"@),
    decreases n,
{
    let before = c_emitter::replacements_of(source, problems, n - 1);
    replacement_count(source, problems, n - 1);
    if i < n - 1 {
        replaced_functions_name_generated_headers(source, problems, n - 1, i);
    } else {
        let insertions = c_emitter::insertions_of(source.plan, source.unit, source.layouts);
        generated_names_alone(
            c_emitter::inserted_before(source.unit, insertions, n - 1)
                + c_emitter::function_text(source, before.problems, n - 1).out,
        );
    }
}

proof fn replacement_count(source: Source<'_>, problems: Seq<DiagnosticView>, n: int)
    requires
        0 <= n,
    ensures
        c_emitter::replacements_of(source, problems, n).list.len() == n,
    decreases n,
{
    if n > 0 {
        replacement_count(source, problems, n - 1);
    }
}

/// Whether a list of diagnostics continues another one with errors alone.
pub open spec fn more_errors(before: Seq<DiagnosticView>, after: Seq<DiagnosticView>) -> bool {
    &&& before.len() <= after.len()
    &&& after.take(before.len() as int) == before
    &&& forall|i: int|
        before.len() <= i < after.len() ==> (#[trigger] after[i]).severity
            == DiagnosticSeverity::Error
}

proof fn more_errors_twice(
    a: Seq<DiagnosticView>,
    b: Seq<DiagnosticView>,
    c: Seq<DiagnosticView>,
)
    requires
        more_errors(a, b),
        more_errors(b, c),
    ensures
        more_errors(a, c),
{
    let n = a.len() as int;
    assert(c.take(n) =~= b.take(n)) by {
        assert forall|i: int| 0 <= i < n implies c.take(n)[i] == b.take(n)[i] by {
            assert(c.take(b.len() as int)[i] == b[i]);
        }
    }
    assert forall|i: int| n <= i < c.len() implies (#[trigger] c[i]).severity
        == DiagnosticSeverity::Error by {
        if i < b.len() {
            assert(c.take(b.len() as int)[i] == b[i]);
        }
    }
}

proof fn no_more_errors(a: Seq<DiagnosticView>)
    ensures
        more_errors(a, a),
{
    assert(a.take(a.len() as int) =~= a);
}

proof fn argument_errors(
    problems: Seq<DiagnosticView>,
    function: LivenessFunction,
    scopes: Seq<ScopeId>,
    arguments: Seq<HirExpr>,
    n: int,
)
    ensures
        more_errors(
            problems,
            c_symbols::argument_problems(problems, function, scopes, arguments, n),
        ),
    decreases n,
{
    no_more_errors(problems);
    if n > 0 {
        argument_errors(problems, function, scopes, arguments, n - 1);
        let before = c_symbols::argument_problems(problems, function, scopes, arguments, n - 1);
        let after = c_symbols::argument_problems(problems, function, scopes, arguments, n);
        if after != before {
            assert(after.take(before.len() as int) =~= before);
            more_errors_twice(problems, before, after);
        }
    }
}

proof fn instruction_helper_errors(
    start: Collected,
    function: LivenessFunction,
    block: BasicBlock,
    n: int,
)
    ensures
        more_errors(
            start.problems,
            c_symbols::instruction_helpers(start, function, block, n).problems,
        ),
    decreases n,
{
    no_more_errors(start.problems);
    if n > 0 {
        instruction_helper_errors(start, function, block, n - 1);
        let before = c_symbols::instruction_helpers(start, function, block, n - 1);
        if let CfgInstruction::PushCleanup(registration) = block.instructions@[n - 1] {
            let arguments = registration.arguments@;
            argument_errors(
                before.problems,
                function,
                block.scope_stack@,
                arguments,
                arguments.len() as int,
            );
            more_errors_twice(
                start.problems,
                before.problems,
                c_symbols::instruction_helpers(start, function, block, n).problems,
            );
        }
    }
}

proof fn helper_errors(start: Collected, function: LivenessFunction, n: int)
    ensures
        more_errors(
            start.problems,
            c_symbols::block_helpers(start, function, n).problems,
        ),
    decreases n,
{
    no_more_errors(start.problems);
    if n > 0 {
        helper_errors(start, function, n - 1);
        let block = function.coroutine.cfg.blocks@[n - 1];
        let before = c_symbols::block_helpers(start, function, n - 1);
        instruction_helper_errors(before, function, block, block.instructions@.len() as int);
        more_errors_twice(
            start.problems,
            before.problems,
            c_symbols::block_helpers(start, function, n).problems,
        );
    }
}

proof fn instruction_errors(
    emitted: Emitted,
    view: FunctionView,
    scopes: Seq<ScopeId>,
    instruction: CfgInstruction,
)
    ensures
        more_errors(
            emitted.problems,
            c_instruction::instruction_text(emitted, view, scopes, instruction).problems,
        ),
{
    no_more_errors(emitted.problems);
    let after = c_instruction::instruction_text(emitted, view, scopes, instruction).problems;
    if after != emitted.problems {
        assert(after.take(emitted.problems.len() as int) =~= emitted.problems);
    }
}

proof fn terminator_errors(emitted: Emitted, view: FunctionView, block: BasicBlock)
    ensures
        more_errors(
            emitted.problems,
            c_terminator::terminator_text(emitted, view, block).problems,
        ),
{
    no_more_errors(emitted.problems);
    let after = c_terminator::terminator_text(emitted, view, block).problems;
    if after != emitted.problems {
        assert(after.take(emitted.problems.len() as int) =~= emitted.problems);
    }
}

proof fn instructions_errors(emitted: Emitted, view: FunctionView, block: BasicBlock, n: int)
    ensures
        more_errors(
            emitted.problems,
            c_terminator::instructions_text(emitted, view, block, n).problems,
        ),
    decreases n,
{
    no_more_errors(emitted.problems);
    if n > 0 {
        instructions_errors(emitted, view, block, n - 1);
        let before = c_terminator::instructions_text(emitted, view, block, n - 1);
        instruction_errors(before, view, block.scope_stack@, block.instructions@[n - 1]);
        more_errors_twice(
            emitted.problems,
            before.problems,
            c_terminator::instructions_text(emitted, view, block, n).problems,
        );
    }
}

proof fn blocks_errors(emitted: Emitted, view: FunctionView, n: int)
    ensures
        more_errors(
            emitted.problems,
            c_terminator::blocks_text(emitted, view, n).problems,
        ),
    decreases n,
{
    no_more_errors(emitted.problems);
    if n > 0 {
        blocks_errors(emitted, view, n - 1);
        let before = c_terminator::blocks_text(emitted, view, n - 1);
        let block = view.function.coroutine.cfg.blocks@[n - 1];
        let begun = c_instruction::with_code(
            before,
            before.out + "cr_b"@ + text::dec(block.id.0 as nat) + ": ;\n"@,
        );
        let size = block.instructions@.len() as int;
        instructions_errors(begun, view, block, size);
        let middle = c_terminator::instructions_text(begun, view, block, size);
        terminator_errors(middle, view, block);
        let after = c_terminator::terminator_text(middle, view, block);
        more_errors_twice(before.problems, middle.problems, after.problems);
        more_errors_twice(emitted.problems, before.problems, after.problems);
    }
}

proof fn function_errors(source: Source<'_>, problems: Seq<DiagnosticView>, n: int)
    ensures
        more_errors(problems, c_emitter::function_text(source, problems, n).problems),
{
    let function = source.unit[n];
    let start = function.coroutine.cfg.span.start_byte;
    let plan = c_emitter::plan_for(source.plan, start);
    let children = c_emitter::plan_children(source.plan);
    let size = function.coroutine.cfg.blocks@.len() as int;
    helper_errors(Collected { helpers: Seq::empty(), problems }, function, size);
    let collected = c_symbols::helpers_of(function, problems);
    if function.coroutine.cfg.is_async {
        let view = c_task::async_view(
            function,
            plan,
            order::lookup(source.layouts, start)->0,
            children,
            source.config,
        );
        let out = c_task::init_text(
            c_task::task_cleanups(
                c_symbols::helpers_text(
                    c_runtime_text::abi_guard_text(Seq::empty()),
                    view.stem,
                    view.helpers,
                    view.helpers.len() as int,
                ),
                view,
                function.lifted_fields@.len() as int,
            ),
            function,
            view.scene.task->0,
        );
        let task = view.scene.task->0;
        let head = c_function_text::poll_head_text(
            out,
            task,
            task.context,
            function.coroutine.poll_name@,
            function.coroutine.task_type@,
        );
        let begun = c_instruction::with_code(
            Emitted { out, problems: collected.problems },
            c_task::dispatch_text(
                head,
                function.coroutine.states@,
                task,
                source.config.backend,
            ),
        );
        blocks_errors(begun, view, size);
        more_errors_twice(
            problems,
            collected.problems,
            c_terminator::blocks_text(begun, view, size).problems,
        );
    } else {
        let view = c_task::sync_view(function, plan, children, source.config);
        let signature = text::byte_slice(
            source.original,
            function.coroutine.cfg.span.start_byte as int,
            function.coroutine.cfg.body_span.start_byte as int,
        );
        let out = c_symbols::helpers_text(
            c_runtime_text::abi_guard_text(Seq::empty()),
            view.stem,
            view.helpers,
            view.helpers.len() as int,
        );
        let out = out + text::trim_back(signature)
            + " {\n    cr_cleanup_stack cr_cleanups;\n    cr_cleanup_stack_init(&cr_cleanups);\n    goto cr_b"@
            + text::dec(function.coroutine.cfg.entry.0 as nat) + ";\n"@;
        let begun = Emitted { out, problems: collected.problems };
        blocks_errors(begun, view, size);
        more_errors_twice(
            problems,
            collected.problems,
            c_terminator::blocks_text(begun, view, size).problems,
        );
    }
}

proof fn replacement_errors(source: Source<'_>, problems: Seq<DiagnosticView>, n: int)
    ensures
        more_errors(problems, c_emitter::replacements_of(source, problems, n).problems),
        n >= 0 ==> c_emitter::replacements_of(source, problems, n).list.len() == n,
    decreases n,
{
    no_more_errors(problems);
    if n > 0 {
        replacement_errors(source, problems, n - 1);
        let before = c_emitter::replacements_of(source, problems, n - 1);
        function_errors(source, before.problems, n - 1);
        more_errors_twice(
            problems,
            before.problems,
            c_emitter::replacements_of(source, problems, n).problems,
        );
    }
}

/// An emission keeps the diagnostics of its unit, in order and before all
/// others. Where layouts can be used, the others are all errors.
pub proof fn emission_keeps_diagnostics(
    source: Source<'_>,
    unit: LivenessUnit,
    layout_diagnostics: Seq<DiagnosticView>,
)
    ensures
        ({
            let own = syntax::views(unit.diagnostics@);
            let emission = c_emitter::emission_of(source, unit, layout_diagnostics);
            &&& own.len() <= emission.diagnostics.len()
            &&& emission.diagnostics.take(own.len() as int) == own
            &&& !c_emitter::holds_error(layout_diagnostics) ==> more_errors(
                own,
                emission.diagnostics,
            )
        }),
{
    let own = syntax::views(unit.diagnostics@);
    if c_emitter::holds_error(layout_diagnostics) {
        assert((own + layout_diagnostics).take(own.len() as int) =~= own);
    } else {
        replacement_errors(source, own, source.unit.len() as int);
    }
}

} // verus!
