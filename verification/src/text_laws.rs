//! What holds of texts.

use vstd::prelude::*;

use crate::c_source;
use crate::context_types;
use crate::text;

verus! {

/// The number that decimal digits write.
pub open spec fn worth(s: Seq<char>) -> int
    decreases s.len(),
{
    if s.len() == 0 {
        0
    } else {
        10 * worth(s.drop_last()) + (s.last() as u32 - '0' as u32)
    }
}

/// The numeral of a number is made of digits, is worth the number, and doesn't
/// start with a zero unless it is the numeral of zero.
pub proof fn numerals_are_worth_their_number(n: nat)
    ensures
        worth(text::dec(n)) == n,
        text::dec(n).len() > 0,
        forall|i: int| 0 <= i < text::dec(n).len() ==> '0' <= #[trigger] text::dec(n)[i] <= '9',
        text::dec(n)[0] == '0' ==> n == 0,
    decreases n,
{
    if n < 10 {
        let s = text::dec(n);
        assert(s.drop_last().len() == 0);
        assert(s.last() == (48 + n) as char);
        assert(worth(s.drop_last()) == 0);
    } else {
        numerals_are_worth_their_number(n / 10);
        let s = text::dec(n);
        assert(s.drop_last() =~= text::dec(n / 10));
        assert(s.last() == (48 + n % 10) as char);
        assert(s[0] == text::dec(n / 10)[0]);
    }
}

proof fn front_is_cut(s: Seq<char>) -> (a: int)
    ensures
        0 <= a <= s.len(),
        text::trim_front(s) == s.skip(a),
        forall|i: int| 0 <= i < a ==> text::is_space(#[trigger] s[i]),
        a < s.len() ==> !text::is_space(s[a]),
    decreases s.len(),
{
    if s.len() > 0 && text::is_space(s[0]) {
        let b = front_is_cut(s.skip(1));
        assert(s.skip(1).skip(b) =~= s.skip(b + 1));
        assert forall|i: int| 0 <= i < b + 1 implies text::is_space(#[trigger] s[i]) by {
            if i > 0 {
                assert(s.skip(1)[i - 1] == s[i]);
            }
        }
        b + 1
    } else {
        assert(s.skip(0) =~= s);
        0
    }
}

proof fn back_is_cut(s: Seq<char>) -> (b: int)
    ensures
        0 <= b <= s.len(),
        text::trim_back(s) == s.take(b),
        forall|i: int| b <= i < s.len() ==> text::is_space(#[trigger] s[i]),
        b > 0 ==> !text::is_space(s[b - 1]),
    decreases s.len(),
{
    if s.len() > 0 && text::is_space(s.last()) {
        let b = back_is_cut(s.drop_last());
        assert(s.drop_last().take(b) =~= s.take(b));
        assert forall|i: int| b <= i < s.len() implies text::is_space(#[trigger] s[i]) by {
            if i < s.len() - 1 {
                assert(s.drop_last()[i] == s[i]);
            }
        }
        b
    } else {
        assert(s.take(s.len() as int) =~= s);
        s.len() as int
    }
}

/// A trimmed text is a part of the text. What was cut off at either end is white
/// space, and what is left has none at its ends.
pub proof fn trimming_cuts_white_space_off(s: Seq<char>) -> (r: (int, int))
    ensures
        0 <= r.0 <= r.1 <= s.len(),
        text::trimmed(s) == s.subrange(r.0, r.1),
        forall|i: int| 0 <= i < r.0 || r.1 <= i < s.len() ==> text::is_space(#[trigger] s[i]),
        r.0 < r.1 ==> !text::is_space(s[r.0]) && !text::is_space(s[r.1 - 1]),
{
    let a = front_is_cut(s);
    let t = s.skip(a);
    let b = back_is_cut(t);
    assert(t.take(b) =~= s.subrange(a, a + b));
    assert forall|i: int| 0 <= i < a || a + b <= i < s.len() implies text::is_space(
        #[trigger] s[i],
    ) by {
        if i >= a {
            assert(t[i - a] == s[i]);
        }
    }
    if b > 0 {
        assert(t[b - 1] == s[a + b - 1]);
        assert(t[0] == s[a]);
    }
    (a, a + b)
}

/// Whether a text has no white space.
pub open spec fn solid(s: Seq<char>) -> bool {
    forall|i: int| 0 <= i < s.len() ==> !text::is_space(#[trigger] s[i])
}

/// Whether a text is white space.
pub open spec fn blank(s: Seq<char>) -> bool {
    forall|i: int| 0 <= i < s.len() ==> text::is_space(#[trigger] s[i])
}

proof fn solid_is_kept(s: Seq<char>)
    requires
        solid(s),
    ensures
        text::squeezed(s) == s,
    decreases s.len(),
{
    if s.len() > 0 {
        let before = s.drop_last();
        assert forall|i: int| 0 <= i < before.len() implies !text::is_space(
            #[trigger] before[i],
        ) by {
            assert(before[i] == s[i]);
        }
        solid_is_kept(before);
        if s.len() >= 2 {
            assert(!text::is_space(s[s.len() - 2]));
        }
        assert(before.push(s.last()) =~= s);
    } else {
        assert(text::squeezed(s) =~= s);
    }
}

proof fn blank_adds_nothing(s: Seq<char>, t: Seq<char>)
    requires
        blank(t),
    ensures
        text::squeezed(s + t) == text::squeezed(s),
    decreases t.len(),
{
    if t.len() > 0 {
        let u = s + t;
        assert(u.drop_last() =~= s + t.drop_last());
        assert(u.last() == t.last());
        assert(text::is_space(t[t.len() - 1]));
        assert forall|i: int| 0 <= i < t.drop_last().len() implies text::is_space(
            #[trigger] t.drop_last()[i],
        ) by {
            assert(t.drop_last()[i] == t[i]);
        }
        blank_adds_nothing(s, t.drop_last());
    } else {
        assert(s + t =~= s);
    }
}

proof fn word_is_added(s: Seq<char>, gap: Seq<char>, word: Seq<char>)
    requires
        blank(gap),
        gap.len() > 0,
        solid(word),
        word.len() > 0,
    ensures
        text::squeezed(s + gap + word) == if text::squeezed(s).len() == 0 {
            word
        } else {
            text::squeezed(s) + seq![' '] + word
        },
    decreases word.len(),
{
    let u = s + gap + word;
    let before = u.drop_last();
    assert(u.last() == word.last());
    assert(!text::is_space(word[word.len() - 1]));
    blank_adds_nothing(s, gap);
    if word.len() == 1 {
        assert(before =~= s + gap);
        assert(u[u.len() - 2] == gap[gap.len() - 1]);
        assert(text::is_space(gap[gap.len() - 1]));
        if text::squeezed(s).len() == 0 {
            assert(text::squeezed(s).push(word.last()) =~= word);
        } else {
            assert(text::squeezed(s).push(' ').push(word.last()) =~= text::squeezed(s) + seq![' ']
                + word);
        }
    } else {
        let part = word.drop_last();
        assert(before =~= s + gap + part);
        assert forall|i: int| 0 <= i < part.len() implies !text::is_space(#[trigger] part[i]) by {
            assert(part[i] == word[i]);
        }
        word_is_added(s, gap, part);
        assert(u[u.len() - 2] == word[word.len() - 2]);
        assert(!text::is_space(word[word.len() - 2]));
        assert(part.push(word.last()) =~= word);
        if text::squeezed(s).len() > 0 {
            assert((text::squeezed(s) + seq![' '] + part).push(word.last()) =~= text::squeezed(s)
                + seq![' '] + word);
        }
    }
}

/// Squeezing keeps the words of a text and puts one space between two of them: a
/// text without white space stays, white space at the end is lost, and a word
/// behind white space comes behind one space, or first if no word was before.
pub proof fn squeezing_keeps_words(s: Seq<char>, gap: Seq<char>, word: Seq<char>)
    requires
        blank(gap),
        gap.len() > 0,
        solid(word),
        word.len() > 0,
    ensures
        text::squeezed(word) == word,
        text::squeezed(s + gap) == text::squeezed(s),
        text::squeezed(s + gap + word) == if text::squeezed(s).len() == 0 {
            word
        } else {
            text::squeezed(s) + seq![' '] + word
        },
{
    solid_is_kept(word);
    blank_adds_nothing(s, gap);
    word_is_added(s, gap, word);
}

/// A text becomes an identifier of the same length: a character that may stand
/// in an identifier where it stands is kept, and any other becomes `_`. So an
/// identifier stays as it is.
pub proof fn identifiers_are_made(s: Seq<char>)
    ensures
        ({
            let r = text::identifier_text(s);
            &&& r.len() == s.len()
            &&& s.len() > 0 ==> text::identifier(r)
            &&& text::identifier(s) ==> r == s
            &&& forall|i: int|
                0 <= i < s.len() ==> #[trigger] r[i] == s[i] || r[i] == '_'
            &&& forall|i: int|
                0 < i < s.len() && text::is_ident_char(s[i]) ==> #[trigger] r[i] == s[i]
        }),
{
    let r = text::identifier_text(s);
    if text::identifier(s) {
        assert(r =~= s);
    }
}

/// The first occurrence of a text is one, and there is none before it; where
/// none is found, there is none.
pub proof fn first_occurrences_are_first(s: Seq<char>, p: Seq<char>, i: int)
    requires
        0 <= i,
    ensures
        ({
            let r = text::first_occurrence(s, p, i);
            &&& r != -1 ==> i <= r && text::occurs_at(s, p, r) && forall|j: int|
                i <= j < r ==> !#[trigger] text::occurs_at(s, p, j)
            &&& r == -1 ==> forall|j: int| i <= j ==> !#[trigger] text::occurs_at(s, p, j)
        }),
    decreases s.len() + 1 - i,
{
    if i + p.len() <= s.len() && !text::occurs_at(s, p, i) {
        first_occurrences_are_first(s, p, i + 1);
    }
}

/// Lowering a text keeps its length, leaves no capital letter, and changes
/// capital letters only, each into the letter at its place in the alphabet.
pub proof fn lowering_leaves_no_capitals(s: Seq<char>)
    ensures
        text::lowered(s).len() == s.len(),
        forall|i: int|
            0 <= i < s.len() ==> {
                let c = #[trigger] text::lowered(s)[i];
                &&& !('A' <= c <= 'Z')
                &&& !('A' <= s[i] <= 'Z') ==> c == s[i]
                &&& 'A' <= s[i] <= 'Z' ==> 'a' <= c <= 'z' && c as u32 - 'a' as u32 == s[i] as u32
                    - 'A' as u32
            },
{
}

/// Texts one behind another are as long in bytes as they are together.
pub proof fn bytes_add_up(a: Seq<char>, b: Seq<char>)
    ensures
        text::byte_len(a + b) == text::byte_len(a) + text::byte_len(b),
    decreases b.len(),
{
    if b.len() > 0 {
        assert((a + b).drop_last() =~= a + b.drop_last());
        assert((a + b).last() == b.last());
        bytes_add_up(a, b.drop_last());
    } else {
        assert(a + b =~= a);
    }
}

proof fn chars_counted(a: Seq<char>, b: Seq<char>)
    ensures
        text::chars_before(a + b, text::byte_len(a) as int) == a.len(),
    decreases b.len(),
{
    if b.len() > 0 {
        assert((a + b).drop_last() =~= a + b.drop_last());
        bytes_add_up(a, b.drop_last());
        chars_counted(a, b.drop_last());
    } else {
        assert(a + b =~= a);
        if a.len() > 0 {
            assert(text::byte_len(a.drop_last()) < text::byte_len(a));
        }
    }
}

/// The text between two places that are counted in bytes is the text between
/// them.
pub proof fn slices_are_what_lies_between(a: Seq<char>, b: Seq<char>, c: Seq<char>)
    ensures
        text::byte_slice(
            a + b + c,
            text::byte_len(a) as int,
            (text::byte_len(a) + text::byte_len(b)) as int,
        ) == b,
        text::is_boundary(a + b + c, text::byte_len(a) as int),
{
    bytes_add_up(a, b);
    assert(a + b + c =~= a + (b + c));
    chars_counted(a, b + c);
    chars_counted(a + b, c);
    assert((a + b + c).subrange(a.len() as int, (a + b).len() as int) =~= b);
    assert((a + b + c).take(a.len() as int) =~= a);
}

/// The character that the bytes of a UTF-8 encoding stand for, each byte as a
/// character.
pub open spec fn decoded(s: Seq<char>) -> int {
    let at = |i: int| s[i] as u32 as int;
    if s.len() == 1 {
        at(0)
    } else if s.len() == 2 {
        (at(0) - 0xc0) * 64 + (at(1) - 0x80)
    } else if s.len() == 3 {
        (at(0) - 0xe0) * 4096 + (at(1) - 0x80) * 64 + (at(2) - 0x80)
    } else {
        (at(0) - 0xf0) * 262144 + (at(1) - 0x80) * 4096 + (at(2) - 0x80) * 64 + (at(3) - 0x80)
    }
}

/// A character outside words, literals and comments becomes its bytes: they
/// decode to it, there are as many as it is wide, and all but the first are
/// continuations.
pub proof fn characters_become_their_bytes(c: char)
    ensures
        decoded(c_source::byte_chars(c)) == c as u32,
        c_source::byte_chars(c).len() == text::width(c),
        forall|i: int|
            0 < i < c_source::byte_chars(c).len() ==> 0x80
                <= #[trigger] c_source::byte_chars(c)[i] as u32 <= 0xbf,
        forall|i: int|
            0 <= i < c_source::byte_chars(c).len() ==> #[trigger] c_source::byte_chars(c)[i] as u32
                <= 0xff,
{
    let n = c as u32;
    let s = c_source::byte_chars(c);
    if n < 0x80 {
    } else if n < 0x800 {
        assert(s[0] as u32 == 0xc0 + n / 64);
        assert(s[1] as u32 == 0x80 + n % 64);
    } else if n < 0x10000 {
        assert(s[0] as u32 == 0xe0 + n / 4096);
        assert(s[1] as u32 == 0x80 + (n / 64) % 64);
        assert(s[2] as u32 == 0x80 + n % 64);
    } else {
        assert(s[0] as u32 == 0xf0 + n / 262144);
        assert(s[1] as u32 == 0x80 + (n / 4096) % 64);
        assert(s[2] as u32 == 0x80 + (n / 64) % 64);
        assert(s[3] as u32 == 0x80 + n % 64);
    }
}

/// C declares a name where its type wants it: behind a plain type, before the
/// bounds of an array, and inside the parentheses of a pointer to a function.
pub proof fn names_stand_where_types_want_them(before: Seq<char>, behind: Seq<char>, name: Seq<char>)
    ensures
        !text::occurs(before, "["@) && !text::occurs(before, "(*)"@) ==> context_types::declarator(
            before,
            name,
        ) == before + " "@ + name,
        !text::occurs(before + "["@ + behind, "(*)"@) && !text::occurs(before, "["@)
            ==> context_types::declarator(before + "["@ + behind, name) == text::trim_back(before)
            + " "@ + name + "["@ + behind,
        text::first_occurrence(before + "(*)"@ + behind, "(*)"@, 0) == before.len()
            ==> context_types::declarator(before + "(*)"@ + behind, name) == before + "(*"@ + name
            + ")"@ + behind,
{
    reveal_strlit("[");
    reveal_strlit("(*)");
    let array = before + "["@ + behind;
    let pointer = before + "(*)"@ + behind;
    first_occurrences_are_first(before, "["@, 0);
    first_occurrences_are_first(before, "(*)"@, 0);
    first_occurrences_are_first(array, "["@, 0);
    first_occurrences_are_first(array, "(*)"@, 0);
    assert(Seq::<char>::empty() + before + " "@ + name =~= before + " "@ + name);
    if !text::occurs(array, "(*)"@) && !text::occurs(before, "["@) {
        let at = before.len() as int;
        assert(array.subrange(at, at + 1) =~= "["@);
        assert(text::occurs_at(array, "["@, at));
        let r = text::first_occurrence(array, "["@, 0);
        assert(r == at) by {
            if r < at {
                assert(array.subrange(r, r + 1) =~= before.subrange(r, r + 1));
                assert(text::occurs_at(before, "["@, r));
            }
        }
        assert(array.take(at) =~= before);
        assert(array.skip(at) =~= "["@ + behind);
        let head = text::trim_back(before);
        assert(Seq::<char>::empty() + head + " "@ + name + ("["@ + behind) =~= head + " "@ + name
            + "["@ + behind);
    }
    if text::first_occurrence(pointer, "(*)"@, 0) == before.len() {
        let at = before.len() as int;
        assert(pointer.take(at) =~= before);
        assert(pointer.skip(at + 3) =~= behind);
        assert(Seq::<char>::empty() + before + "(*"@ + name + ")"@ + behind =~= before + "(*"@
            + name + ")"@ + behind);
    }
}

} // verus!
