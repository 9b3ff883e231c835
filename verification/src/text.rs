//! Character-level text operations shared by the planners and the emitter.
//!
//! Strings are modelled by their sequence of characters.  Byte offsets, which
//! spans are written in, are related to it through `byte_len`.

use vstd::prelude::*;

verus! {

/// `String::push` appends one character to the end of the string.
pub assume_specification[ String::push ](s: &mut String, c: char)
    ensures
        final(s)@ == old(s)@.push(c),
;

/// Appends one piece of text.
pub fn put(out: &mut String, a: &str)
    ensures
        final(out)@ == old(out)@ + a@,
{
    out.append(a);
}

/// Appends two pieces of text.
pub fn put2(out: &mut String, a: &str, b: &str)
    ensures
        final(out)@ == old(out)@ + a@ + b@,
{
    out.append(a);
    out.append(b);
}

/// Appends three pieces of text.
pub fn put3(out: &mut String, a: &str, b: &str, c: &str)
    ensures
        final(out)@ == old(out)@ + a@ + b@ + c@,
{
    put2(out, a, b);
    out.append(c);
}

/// Appends four pieces of text.
pub fn put4(out: &mut String, a: &str, b: &str, c: &str, d: &str)
    ensures
        final(out)@ == old(out)@ + a@ + b@ + c@ + d@,
{
    put3(out, a, b, c);
    out.append(d);
}

/// Appends five pieces of text.
pub fn put5(out: &mut String, a: &str, b: &str, c: &str, d: &str, e: &str)
    ensures
        final(out)@ == old(out)@ + a@ + b@ + c@ + d@ + e@,
{
    put4(out, a, b, c, d);
    out.append(e);
}

/// Appends six pieces of text.
pub fn put6(
    out: &mut String,
    a: &str,
    b: &str,
    c: &str,
    d: &str,
    e: &str,
    f: &str,
)
    ensures
        final(out)@ == old(out)@ + a@ + b@ + c@ + d@ + e@ + f@,
{
    put5(out, a, b, c, d, e);
    out.append(f);
}

/// Appends seven pieces of text.
pub fn put7(
    out: &mut String,
    a: &str,
    b: &str,
    c: &str,
    d: &str,
    e: &str,
    f: &str,
    g: &str,
)
    ensures
        final(out)@ == old(out)@ + a@ + b@ + c@ + d@ + e@ + f@ + g@,
{
    put6(out, a, b, c, d, e, f);
    out.append(g);
}

/// Appends eight pieces of text.
pub fn put8(
    out: &mut String,
    a: &str,
    b: &str,
    c: &str,
    d: &str,
    e: &str,
    f: &str,
    g: &str,
    h: &str,
)
    ensures
        final(out)@ == old(out)@ + a@ + b@ + c@ + d@ + e@ + f@ + g@ + h@,
{
    put7(out, a, b, c, d, e, f, g);
    out.append(h);
}

/// Appends nine pieces of text.
pub fn put9(
    out: &mut String,
    a: &str,
    b: &str,
    c: &str,
    d: &str,
    e: &str,
    f: &str,
    g: &str,
    h: &str,
    i: &str,
)
    ensures
        final(out)@ == old(out)@ + a@ + b@ + c@ + d@ + e@ + f@ + g@ + h@ + i@,
{
    put8(out, a, b, c, d, e, f, g, h);
    out.append(i);
}

/// The same text.
pub fn copied(a: &str) -> (r: String)
    ensures
        r@ == a@,
{
    let mut out = String::new();
    put(&mut out, a);
    assert(out@ =~= a@);
    out
}

/// Two pieces of text together.
pub fn concat2(a: &str, b: &str) -> (r: String)
    ensures
        r@ == a@ + b@,
{
    let mut out = String::new();
    put2(&mut out, a, b);
    assert(out@ =~= a@ + b@);
    out
}

/// Three pieces of text together.
pub fn concat3(a: &str, b: &str, c: &str) -> (r: String)
    ensures
        r@ == a@ + b@ + c@,
{
    let mut out = String::new();
    put3(&mut out, a, b, c);
    assert(out@ =~= a@ + b@ + c@);
    out
}

/// Four pieces of text together.
pub fn concat4(a: &str, b: &str, c: &str, d: &str) -> (r: String)
    ensures
        r@ == a@ + b@ + c@ + d@,
{
    let mut out = String::new();
    put4(&mut out, a, b, c, d);
    assert(out@ =~= a@ + b@ + c@ + d@);
    out
}

/// The decimal digit with value `d`.
pub open spec fn digit(d: nat) -> char {
    (48 + d) as char
}

/// The decimal numeral of `n` without leading zeros.
pub open spec fn dec(n: nat) -> Seq<char>
    decreases n,
{
    if n < 10 {
        seq![digit(n)]
    } else {
        dec(n / 10).push(digit(n % 10))
    }
}

/// Appends the decimal numeral of `n`.
pub fn put_dec(out: &mut String, n: u64)
    ensures
        final(out)@ == old(out)@ + dec(n as nat),
    decreases n,
{
    let ghost before = out@;
    if n < 10 {
        let c: char = (48u8 + n as u8) as char;
        out.push(c);
        assert(out@ =~= before + dec(n as nat));
    } else {
        put_dec(out, n / 10);
        let c: char = (48u8 + (n % 10) as u8) as char;
        out.push(c);
        assert(out@ =~= before + dec(n as nat));
    }
}

/// Writes a number in decimal.
pub fn number(n: u64) -> (r: String)
    ensures
        r@ == dec(n as nat),
{
    let mut out = String::new();
    put_dec(&mut out, n);
    assert(out@ =~= dec(n as nat));
    out
}

/// Returns the characters of a string.
pub fn chars_of(s: &str) -> (r: Vec<char>)
    ensures
        r@ == s@,
{
    let mut v: Vec<char> = Vec::new();
    for c in it: s.chars()
        invariant
            v@ == it.seq().take(it.index() as int),
            it.seq() == s@,
    {
        v.push(c);
    }
    v
}

/// Whether two strings hold the same characters.
pub fn str_eq(a: &str, b: &str) -> (r: bool)
    ensures
        r == (a@ == b@),
{
    a.to_owned() == b.to_owned()
}

/// Builds a string from a range of characters.
pub fn string_of(v: &Vec<char>, from: usize, to: usize) -> (r: String)
    requires
        from <= to <= v@.len(),
    ensures
        r@ == v@.subrange(from as int, to as int),
{
    let mut r = String::new();
    let mut i: usize = from;
    while i < to
        invariant
            from <= i <= to <= v@.len(),
            r@ == v@.subrange(from as int, i as int),
        decreases to - i,
    {
        r.push(v[i]);
        i += 1;
    }
    r
}

/// The characters with the Unicode `White_Space` property.
pub open spec fn is_space(c: char) -> bool {
    ||| 9 <= c as u32 <= 13
    ||| c as u32 == 0x20
    ||| c as u32 == 0x85
    ||| c as u32 == 0xa0
    ||| c as u32 == 0x1680
    ||| 0x2000 <= c as u32 <= 0x200a
    ||| c as u32 == 0x2028
    ||| c as u32 == 0x2029
    ||| c as u32 == 0x202f
    ||| c as u32 == 0x205f
    ||| c as u32 == 0x3000
}

/// Whether `c` is white space.
pub fn char_is_space(c: char) -> (r: bool)
    ensures
        r == is_space(c),
{
    let n: u32 = c as u32;
    (9 <= n && n <= 13) || n == 0x20 || n == 0x85 || n == 0xa0 || n == 0x1680 || (0x2000 <= n && n
        <= 0x200a) || n == 0x2028 || n == 0x2029 || n == 0x202f || n == 0x205f || n == 0x3000
}

/// An ASCII letter.
pub open spec fn is_letter(c: char) -> bool {
    ('a' <= c && c <= 'z') || ('A' <= c && c <= 'Z')
}

/// An ASCII decimal digit.
pub open spec fn is_digit(c: char) -> bool {
    '0' <= c && c <= '9'
}

/// A character that may start a C identifier.
pub open spec fn is_ident_start(c: char) -> bool {
    c == '_' || is_letter(c)
}

/// A character that may continue a C identifier.
pub open spec fn is_ident_char(c: char) -> bool {
    c == '_' || is_letter(c) || is_digit(c)
}

/// Whether `c` may start a C identifier.
pub fn char_is_ident_start(c: char) -> (r: bool)
    ensures
        r == is_ident_start(c),
{
    c == '_' || ('a' <= c && c <= 'z') || ('A' <= c && c <= 'Z')
}

/// Whether `c` may continue a C identifier.
pub fn char_is_ident_char(c: char) -> (r: bool)
    ensures
        r == is_ident_char(c),
{
    c == '_' || ('a' <= c && c <= 'z') || ('A' <= c && c <= 'Z') || ('0' <= c && c <= '9')
}

/// The text without its leading white space.
pub open spec fn trim_front(s: Seq<char>) -> Seq<char>
    decreases s.len(),
{
    if s.len() > 0 && is_space(s[0]) {
        trim_front(s.skip(1))
    } else {
        s
    }
}

/// The text without its trailing white space.
pub open spec fn trim_back(s: Seq<char>) -> Seq<char>
    decreases s.len(),
{
    if s.len() > 0 && is_space(s.last()) {
        trim_back(s.drop_last())
    } else {
        s
    }
}

/// The text without white space at either end.
pub open spec fn trimmed(s: Seq<char>) -> Seq<char> {
    trim_back(trim_front(s))
}

/// Returns the text without white space at either end.
pub fn trim(s: &str) -> (r: &str)
    ensures
        r@ == trimmed(s@),
{
    let v = chars_of(s);
    let mut i: usize = 0;
    assert(v@.skip(0) =~= v@);
    while i < v.len() && char_is_space(v[i])
        invariant
            i <= v@.len(),
            trim_front(v@.skip(i as int)) == trim_front(v@),
        decreases v@.len() - i,
    {
        assert(v@.skip(i as int).skip(1) =~= v@.skip(i as int + 1));
        i += 1;
    }
    let mut j: usize = v.len();
    assert(v@.subrange(i as int, j as int) =~= v@.skip(i as int));
    while j > i && char_is_space(v[j - 1])
        invariant
            i <= j <= v@.len(),
            trim_back(v@.subrange(i as int, j as int)) == trimmed(v@),
        decreases j,
    {
        assert(v@.subrange(i as int, j as int).drop_last() =~= v@.subrange(i as int, j - 1));
        j -= 1;
    }
    s.substring_char(i, j)
}

/// Returns the text without trailing white space.
pub fn trim_end(s: &str) -> (r: &str)
    ensures
        r@ == trim_back(s@),
{
    let v = chars_of(s);
    let mut j: usize = v.len();
    assert(v@.subrange(0, j as int) =~= v@);
    while j > 0 && char_is_space(v[j - 1])
        invariant
            j <= v@.len(),
            trim_back(v@.subrange(0, j as int)) == trim_back(v@),
        decreases j,
    {
        assert(v@.subrange(0, j as int).drop_last() =~= v@.subrange(0, j - 1));
        j -= 1;
    }
    s.substring_char(0, j)
}

/// The words of the text, separated by single spaces.
pub open spec fn squeezed(s: Seq<char>) -> Seq<char>
    decreases s.len(),
{
    if s.len() == 0 {
        Seq::empty()
    } else {
        let before = squeezed(s.drop_last());
        if is_space(s.last()) {
            before
        } else if before.len() > 0 && is_space(s[s.len() - 2]) {
            before.push(' ').push(s.last())
        } else {
            before.push(s.last())
        }
    }
}

/// Collapses every run of white space to one space and drops it at the ends.
pub fn normalize_c_type(c_type: &str) -> (r: String)
    ensures
        r@ == squeezed(c_type@),
{
    let v = chars_of(c_type);
    let mut out = String::new();
    let mut empty = true;
    let mut i: usize = 0;
    assert(v@.take(0) =~= Seq::<char>::empty());
    while i < v.len()
        invariant
            i <= v@.len(),
            out@ == squeezed(v@.take(i as int)),
            empty == (out@.len() == 0),
        decreases v@.len() - i,
    {
        proof {
            assert(v@.take(i as int + 1).drop_last() =~= v@.take(i as int));
            assert(v@.take(i as int + 1).last() == v@[i as int]);
            if i > 0 {
                assert(v@.take(i as int + 1)[i - 1] == v@[i - 1]);
            }
        }
        if !char_is_space(v[i]) {
            if !empty && char_is_space(v[i - 1]) {
                out.push(' ');
            }
            out.push(v[i]);
            empty = false;
        }
        i += 1;
    }
    assert(v@.take(i as int) =~= v@);
    out
}

/// A C identifier: a letter or underscore, then letters, digits and underscores.
pub open spec fn identifier(s: Seq<char>) -> bool {
    &&& s.len() > 0
    &&& is_ident_start(s[0])
    &&& forall|i: int| 0 <= i < s.len() ==> is_ident_char(#[trigger] s[i])
}

/// Whether `value` is a C identifier.
pub fn is_identifier(value: &str) -> (r: bool)
    ensures
        r == identifier(value@),
{
    let v = chars_of(value);
    if v.len() == 0 || !char_is_ident_start(v[0]) {
        return false;
    }
    let mut i: usize = 0;
    while i < v.len()
        invariant
            i <= v@.len(),
            v@ == value@,
            forall|k: int| 0 <= k < i ==> is_ident_char(#[trigger] v@[k]),
        decreases v@.len() - i,
    {
        if !char_is_ident_char(v[i]) {
            assert(!is_ident_char(value@[i as int]));
            return false;
        }
        i += 1;
    }
    true
}

/// The text with every character that a C identifier can't hold replaced by `_`.
pub open spec fn identifier_text(s: Seq<char>) -> Seq<char> {
    Seq::new(
        s.len(),
        |i: int|
            if (if i == 0 {
                is_ident_start(s[i])
            } else {
                is_ident_char(s[i])
            }) {
                s[i]
            } else {
                '_'
            },
    )
}

/// Replaces every character that a C identifier can't hold by `_`.
pub fn c_identifier(value: &str) -> (r: String)
    ensures
        r@ == identifier_text(value@),
{
    let v = chars_of(value);
    let mut out = String::new();
    let mut i: usize = 0;
    while i < v.len()
        invariant
            i <= v@.len(),
            out@ == identifier_text(v@).take(i as int),
        decreases v@.len() - i,
    {
        let valid = if i == 0 {
            char_is_ident_start(v[i])
        } else {
            char_is_ident_char(v[i])
        };
        if valid {
            out.push(v[i]);
        } else {
            out.push('_');
        }
        i += 1;
    }
    assert(identifier_text(v@).take(i as int) =~= identifier_text(v@));
    out
}

/// Whether `p` occurs in `s` at position `i`.
pub open spec fn occurs_at(s: Seq<char>, p: Seq<char>, i: int) -> bool {
    0 <= i && i + p.len() <= s.len() && s.subrange(i, i + p.len()) == p
}

/// Whether `p` occurs anywhere in `s`.
pub open spec fn occurs(s: Seq<char>, p: Seq<char>) -> bool {
    exists|i: int| occurs_at(s, p, i)
}

/// The first position from `i` on at which `p` occurs in `s`, or -1.
pub open spec fn first_occurrence(s: Seq<char>, p: Seq<char>, i: int) -> int
    decreases s.len() + 1 - i,
{
    if i < 0 || i + p.len() > s.len() {
        -1
    } else if occurs_at(s, p, i) {
        i
    } else {
        first_occurrence(s, p, i + 1)
    }
}

/// Whether `p` occurs in `v` at position `i`.
pub fn match_at(v: &Vec<char>, p: &Vec<char>, i: usize) -> (r: bool)
    ensures
        r == occurs_at(v@, p@, i as int),
{
    if p.len() > v.len() || i > v.len() - p.len() {
        return false;
    }
    let mut k: usize = 0;
    while k < p.len()
        invariant
            k <= p@.len(),
            i + p@.len() <= v.len(),
            v@.subrange(i as int, i + k) =~= p@.take(k as int),
        decreases p@.len() - k,
    {
        if v[i + k] != p[k] {
            assert(v@.subrange(i as int, i + p@.len())[k as int] != p@[k as int]);
            return false;
        }
        k += 1;
    }
    assert(p@.take(k as int) =~= p@);
    true
}

/// Finds the first occurrence of `p` in `v`.
pub fn find(v: &Vec<char>, p: &Vec<char>) -> (r: Option<usize>)
    ensures
        match r {
            Some(i) => i == first_occurrence(v@, p@, 0) && occurs_at(v@, p@, i as int),
            None => first_occurrence(v@, p@, 0) == -1 && !occurs(v@, p@),
        },
{
    let mut i: usize = 0;
    while p.len() <= v.len() && i <= v.len() - p.len()
        invariant
            i <= v@.len() + 1,
            first_occurrence(v@, p@, i as int) == first_occurrence(v@, p@, 0),
            forall|k: int| 0 <= k < i ==> !occurs_at(v@, p@, k),
        decreases v@.len() + 1 - i,
    {
        if match_at(v, p, i) {
            return Some(i);
        }
        assert(p@.len() > 0) by {
            if p@.len() == 0 {
                assert(v@.subrange(i as int, i as int) =~= p@);
            }
        }
        i += 1;
    }
    None
}

/// Whether `needle` occurs in `text`.
pub fn contains(text: &str, needle: &str) -> (r: bool)
    ensures
        r == occurs(text@, needle@),
{
    let v = chars_of(text);
    let p = chars_of(needle);
    match find(&v, &p) {
        Some(_) => true,
        None => false,
    }
}

/// The end of the line that position `i` is on.
pub open spec fn line_end(s: Seq<char>, i: int) -> int
    decreases s.len() - i,
{
    if i < 0 || i >= s.len() || s[i] == '\n' {
        i
    } else {
        line_end(s, i + 1)
    }
}

/// The lines of a text, without the characters that end them.
pub open spec fn lines(s: Seq<char>) -> Seq<Seq<char>>
    decreases s.len(),
{
    let end = line_end(s, 0);
    if 0 <= end < s.len() {
        seq![s.take(end)] + lines(s.skip(end + 1))
    } else {
        seq![s]
    }
}

/// A line ends where the next one begins or the text ends.
pub proof fn line_end_bounds(s: Seq<char>, i: int)
    requires
        0 <= i <= s.len(),
    ensures
        i <= line_end(s, i) <= s.len(),
        forall|k: int| i <= k < line_end(s, i) ==> #[trigger] s[k] != '\n',
        line_end(s, i) < s.len() ==> s[line_end(s, i)] == '\n',
    decreases s.len() - i,
{
    if i < s.len() && s[i] != '\n' {
        line_end_bounds(s, i + 1);
    }
}

/// The first line of a text ends at its first line break.
pub proof fn line_end_is(s: Seq<char>, i: int, end: int)
    requires
        0 <= i <= end <= s.len(),
        forall|k: int| i <= k < end ==> #[trigger] s[k] != '\n',
        end < s.len() ==> s[end] == '\n',
    ensures
        line_end(s, i) == end,
    decreases end - i,
{
    if i < end {
        line_end_is(s, i + 1, end);
    }
}

/// `out`, then `s` from `i` on with every occurrence of `p` replaced by `r`.
pub open spec fn replaced_from(
    out: Seq<char>,
    s: Seq<char>,
    p: Seq<char>,
    r: Seq<char>,
    i: int,
) -> Seq<char>
    decreases s.len() - i,
{
    if i < 0 || p.len() == 0 || i + p.len() > s.len() {
        out + s.skip(i)
    } else if occurs_at(s, p, i) {
        replaced_from(out + r, s, p, r, i + p.len())
    } else {
        replaced_from(out.push(s[i]), s, p, r, i + 1)
    }
}

/// `s` with every occurrence of `p`, taken from the left, replaced by `r`.
pub open spec fn replaced(s: Seq<char>, p: Seq<char>, r: Seq<char>) -> Seq<char> {
    replaced_from(Seq::empty(), s, p, r, 0)
}

/// Replaces every occurrence of `pattern`, taken from the left.
pub fn replace_all(text: &str, pattern: &str, replacement: &str) -> (r: String)
    requires
        pattern@.len() > 0,
    ensures
        r@ == replaced(text@, pattern@, replacement@),
{
    let v = chars_of(text);
    let p = chars_of(pattern);
    let mut out = String::new();
    let mut i: usize = 0;
    while p.len() <= v.len() && i <= v.len() - p.len()
        invariant
            i <= v@.len(),
            p@.len() > 0,
            replaced_from(out@, v@, p@, replacement@, i as int) == replaced(v@, p@, replacement@),
        decreases v@.len() - i,
    {
        if match_at(&v, &p, i) {
            out.append(replacement);
            i += p.len();
        } else {
            out.push(v[i]);
            i += 1;
        }
    }
    let rest = string_of(&v, i, v.len());
    assert(rest@ =~= v@.skip(i as int));
    out.append(rest.as_str());
    out
}

/// The number of bytes that UTF-8 encodes `c` with.
pub open spec fn width(c: char) -> nat {
    if (c as u32) < 0x80 {
        1
    } else if (c as u32) < 0x800 {
        2
    } else if (c as u32) < 0x10000 {
        3
    } else {
        4
    }
}

/// The number of bytes of the UTF-8 encoding of `s`.
pub open spec fn byte_len(s: Seq<char>) -> nat
    decreases s.len(),
{
    if s.len() == 0 {
        0
    } else {
        byte_len(s.drop_last()) + width(s.last())
    }
}

/// The number of characters of `s` that start before byte offset `b`.
pub open spec fn chars_before(s: Seq<char>, b: int) -> int
    decreases s.len(),
{
    if s.len() == 0 {
        0
    } else if byte_len(s.drop_last()) < b {
        s.len() as int
    } else {
        chars_before(s.drop_last(), b)
    }
}

/// Whether byte offset `b` lies between two characters of `s`, or at an end.
pub open spec fn is_boundary(s: Seq<char>, b: int) -> bool {
    0 <= b && byte_len(s.take(chars_before(s, b))) == b
}

/// The text between two byte offsets.
pub open spec fn byte_slice(s: Seq<char>, a: int, b: int) -> Seq<char> {
    s.subrange(chars_before(s, a), chars_before(s, b))
}

/// Returns the number of bytes that UTF-8 encodes `c` with.
pub fn char_width(c: char) -> (r: u128)
    ensures
        r == width(c),
        1 <= r <= 4,
{
    let n: u32 = c as u32;
    if n < 0x80 {
        1
    } else if n < 0x800 {
        2
    } else if n < 0x10000 {
        3
    } else {
        4
    }
}

proof fn lemma_byte_len_take(s: Seq<char>, i: int, j: int)
    requires
        0 <= i <= j <= s.len(),
    ensures
        byte_len(s.take(i)) <= byte_len(s.take(j)),
        i < j ==> byte_len(s.take(i)) < byte_len(s.take(j)),
    decreases j - i,
{
    if i < j {
        lemma_byte_len_take(s, i, j - 1);
        assert(s.take(j).drop_last() =~= s.take(j - 1));
    }
}

proof fn lemma_chars_before(s: Seq<char>, b: int, i: int)
    requires
        0 <= i <= s.len(),
        i == s.len() || byte_len(s.take(i)) >= b,
        i == 0 || byte_len(s.take(i - 1)) < b,
    ensures
        chars_before(s, b) == i,
    decreases s.len(),
{
    if s.len() > 0 {
        assert(s.drop_last() =~= s.take(s.len() - 1));
        if i < s.len() {
            lemma_byte_len_take(s, i, s.len() - 1);
            assert(s.drop_last().take(i) =~= s.take(i));
            if i > 0 {
                assert(s.drop_last().take(i - 1) =~= s.take(i - 1));
            }
            lemma_chars_before(s.drop_last(), b, i);
        }
    }
}

/// `chars_before` never exceeds the number of characters and grows with the offset.
pub proof fn lemma_chars_before_bounds(s: Seq<char>, a: int, b: int)
    requires
        a <= b,
    ensures
        0 <= chars_before(s, a) <= chars_before(s, b) <= s.len(),
    decreases s.len(),
{
    if s.len() > 0 {
        lemma_chars_before_bounds(s.drop_last(), a, b);
    }
}

/// No character starts before the first byte.
pub proof fn lemma_chars_before_zero(s: Seq<char>)
    ensures
        chars_before(s, 0) == 0,
    decreases s.len(),
{
    if s.len() > 0 {
        lemma_chars_before_zero(s.drop_last());
    }
}

/// Returns the number of characters that start before byte offset `b`.
pub fn char_index(v: &Vec<char>, b: usize) -> (r: usize)
    ensures
        r == chars_before(v@, b as int),
        r <= v@.len(),
{
    let mut i: usize = 0;
    let mut pos: u128 = 0;
    assert(v@.take(0) =~= Seq::<char>::empty());
    while i < v.len() && pos < b as u128
        invariant
            i <= v@.len(),
            pos == byte_len(v@.take(i as int)),
            pos <= 4 * i,
            i > 0 ==> byte_len(v@.take(i - 1)) < b,
        decreases v@.len() - i,
    {
        assert(v@.take(i as int + 1).drop_last() =~= v@.take(i as int));
        pos = pos + char_width(v[i]);
        i += 1;
    }
    proof {
        assert(v@.take(v@.len() as int) =~= v@);
        lemma_chars_before(v@, b as int, i as int);
    }
    i
}

/// Counts the bytes of the UTF-8 encoding of a text.
pub fn count_all_bytes(v: &Vec<char>) -> (r: u128)
    ensures
        r == byte_len(v@),
{
    let mut total: u128 = 0;
    let mut i: usize = 0;
    assert(v@.take(0) =~= Seq::<char>::empty());
    while i < v.len()
        invariant
            i <= v@.len(),
            total == byte_len(v@.take(i as int)),
            total <= 4 * i,
        decreases v@.len() - i,
    {
        assert(v@.take(i as int + 1).drop_last() =~= v@.take(i as int));
        total = total + char_width(v[i]);
        i += 1;
    }
    assert(v@.take(v@.len() as int) =~= v@);
    total
}

/// Returns the text between two byte offsets.
pub fn slice_bytes(v: &Vec<char>, a: usize, b: usize) -> (r: String)
    requires
        a <= b,
    ensures
        r@ == byte_slice(v@, a as int, b as int),
{
    let i = char_index(v, a);
    let j = char_index(v, b);
    proof {
        lemma_chars_before_bounds(v@, a as int, b as int);
    }
    string_of(v, i, j)
}

/// The lower-case form of an ASCII capital letter, and any other character itself.
pub open spec fn lower(c: char) -> char {
    if 'A' <= c && c <= 'Z' {
        (c as u32 + 32) as char
    } else {
        c
    }
}

/// The text with its ASCII capital letters in lower case.
pub open spec fn lowered(s: Seq<char>) -> Seq<char> {
    Seq::new(s.len(), |i: int| lower(s[i]))
}

/// Returns the characters of a string with ASCII capitals in lower case.
pub fn lower_chars(s: &str) -> (r: Vec<char>)
    ensures
        r@ == lowered(s@),
{
    let v = chars_of(s);
    let mut out: Vec<char> = Vec::new();
    let mut i: usize = 0;
    while i < v.len()
        invariant
            i <= v@.len(),
            out@ == lowered(v@).take(i as int),
        decreases v@.len() - i,
    {
        let c = v[i];
        if 'A' <= c && c <= 'Z' {
            out.push(((c as u8) + 32) as char);
        } else {
            out.push(c);
        }
        i += 1;
    }
    assert(lowered(v@).take(i as int) =~= lowered(v@));
    out
}

} // verus!
