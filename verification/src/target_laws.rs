//! What holds of the layouts of types on a target.

use vstd::prelude::*;

use crate::config::TargetConfig;
use crate::target_layout;
use crate::target_layout::{Known, TargetLayoutModel, TypeLayout};
use crate::text;
use crate::text_laws;

verus! {

/// An offset is aligned to the next multiple, and no further.
pub proof fn alignment_goes_to_the_next_multiple(offset: nat, align: nat)
    requires
        align > 0,
    ensures
        offset <= target_layout::aligned(offset, align) < offset + align,
        target_layout::aligned(offset, align) % align == 0,
{
    let q = (offset + align - 1) as nat / align;
    let r = target_layout::aligned(offset, align);
    vstd::arithmetic::div_mod::lemma_fundamental_div_mod((offset + align - 1) as int, align as int);
    vstd::arithmetic::mul::lemma_mul_is_commutative(q as int, align as int);
    vstd::arithmetic::div_mod::lemma_mod_multiples_basic(q as int, align as int);
}

/// Whether every type has an alignment.
pub open spec fn all_aligned(types: Seq<TypeLayout>) -> bool {
    forall|i: int| 0 <= i < types.len() ==> (#[trigger] types[i]).align > 0
}

/// Where a field ends.
pub open spec fn end_of(fields: Seq<TypeLayout>, offsets: Seq<u64>, i: int) -> int {
    if i < 0 {
        0
    } else {
        offsets[i] + fields[i].size
    }
}

proof fn fields_are_placed(fields: Seq<TypeLayout>, n: int)
    requires
        0 <= n <= fields.len(),
        all_aligned(fields),
    ensures
        match target_layout::placed_fields(fields, n) {
            Some((end, align, offsets)) => {
                &&& offsets.len() == n
                &&& end == end_of(fields, offsets, n - 1)
                &&& align >= 1
                &&& forall|i: int| 0 <= i < n ==> (#[trigger] fields[i]).align <= align
                &&& n == 0 ==> align == 1
                &&& align == 1 || exists|i: int| 0 <= i < n && (#[trigger] fields[i]).align == align
                &&& forall|i: int|
                    0 <= i < n ==> {
                        &&& #[trigger] offsets[i] % fields[i].align == 0
                        &&& end_of(fields, offsets, i - 1) <= offsets[i] < end_of(
                            fields,
                            offsets,
                            i - 1,
                        ) + fields[i].align
                    }
            },
            None => true,
        },
    decreases n,
{
    if n > 0 {
        fields_are_placed(fields, n - 1);
        if let Some((end, align, offsets)) = target_layout::placed_fields(fields, n - 1) {
            let field = fields[n - 1];
            alignment_goes_to_the_next_multiple(end, field.align as nat);
            if let Some((last, most, all)) = target_layout::placed_fields(fields, n) {
                assert(all =~= offsets.push(target_layout::aligned(end, field.align as nat) as u64));
                assert forall|i: int| 0 <= i < n implies {
                    &&& #[trigger] all[i] % fields[i].align == 0
                    &&& end_of(fields, all, i - 1) <= all[i] < end_of(fields, all, i - 1)
                        + fields[i].align
                } by {
                    if i < n - 1 {
                        assert(all[i] == offsets[i]);
                        if i > 0 {
                            assert(all[i - 1] == offsets[i - 1]);
                        }
                    } else if i > 0 {
                        assert(all[i - 1] == offsets[i - 1]);
                    }
                }
                if most == field.align {
                    assert(fields[n - 1].align == most);
                }
            }
        }
    }
}

/// A structure is laid out as C does it. Fields stand in order, none overlaps
/// another, each is aligned and as close to the one before as its alignment
/// allows. The structure is aligned like its most aligned field, holds all fields,
/// and its size is the next multiple of its alignment.
pub proof fn structures_are_laid_out_in_order(fields: Seq<TypeLayout>)
    requires
        all_aligned(fields),
    ensures
        target_layout::layout_of_struct(fields) matches Known::Exact(layout) ==> {
            let n = fields.len() as int;
            let end = end_of(fields, layout.offsets, n - 1);
            &&& layout.offsets.len() == n
            &&& forall|i: int|
                0 <= i < n ==> {
                    &&& #[trigger] layout.offsets[i] % fields[i].align == 0
                    &&& end_of(fields, layout.offsets, i - 1) <= layout.offsets[i] < end_of(
                        fields,
                        layout.offsets,
                        i - 1,
                    ) + fields[i].align
                }
            &&& forall|i: int| 0 <= i < n ==> (#[trigger] fields[i]).align <= layout.align
            &&& layout.align == 1 || exists|i: int|
                0 <= i < n && (#[trigger] fields[i]).align == layout.align
            &&& layout.size % layout.align == 0
            &&& end <= layout.size < end + layout.align
        },
{
    let n = fields.len() as int;
    fields_are_placed(fields, n);
    if let Some((end, align, offsets)) = target_layout::placed_fields(fields, n) {
        alignment_goes_to_the_next_multiple(end, align as nat);
    }
}

proof fn largest_is_found(members: Seq<TypeLayout>, n: int)
    requires
        0 <= n <= members.len(),
    ensures
        forall|i: int|
            0 <= i < n ==> (#[trigger] members[i]).size <= target_layout::largest_size(members, n),
        forall|i: int|
            0 <= i < n ==> (#[trigger] members[i]).align <= target_layout::largest_align(
                members,
                n,
            ),
        target_layout::largest_align(members, n) >= 1,
        target_layout::largest_size(members, n) == 0 || exists|i: int|
            0 <= i < n && (#[trigger] members[i]).size == target_layout::largest_size(members, n),
        target_layout::largest_align(members, n) == 1 || exists|i: int|
            0 <= i < n && (#[trigger] members[i]).align == target_layout::largest_align(members, n),
    decreases n,
{
    if n > 0 {
        largest_is_found(members, n - 1);
        assert(members[n - 1].size == members[n - 1].size);
        let size = target_layout::largest_size(members, n);
        let align = target_layout::largest_align(members, n);
        if size != members[n - 1].size && size != 0 {
            let i = choose|i: int| 0 <= i < n - 1 && (#[trigger] members[i]).size == size;
            assert(members[i].size == size);
        }
        if align != members[n - 1].align && align != 1 {
            let i = choose|i: int| 0 <= i < n - 1 && (#[trigger] members[i]).align == align;
            assert(members[i].align == align);
        }
    }
}

/// A union holds each of its members and is aligned for each. Its alignment is
/// that of a member, and its size is the next multiple of it behind the largest
/// member.
pub proof fn unions_hold_every_member(members: Seq<TypeLayout>)
    ensures
        target_layout::layout_of_union(members) matches Known::Exact(layout) ==> {
            &&& forall|i: int|
                0 <= i < members.len() ==> (#[trigger] members[i]).size <= layout.size
                    && members[i].align <= layout.align
            &&& layout.size % layout.align == 0
            &&& layout.align == 1 || exists|i: int|
                0 <= i < members.len() && (#[trigger] members[i]).align == layout.align
            &&& layout.size == 0 || exists|i: int|
                0 <= i < members.len() && layout.size < (#[trigger] members[i]).size + layout.align
        },
{
    let n = members.len() as int;
    largest_is_found(members, n);
    let size = target_layout::largest_size(members, n);
    let align = target_layout::largest_align(members, n);
    alignment_goes_to_the_next_multiple(size as nat, align as nat);
    if size == 0 {
        assert(target_layout::aligned(0, align as nat) == 0) by {
            vstd::arithmetic::div_mod::lemma_small_mod(
                target_layout::aligned(0, align as nat),
                align as nat,
            );
        }
    }
}

/// The digits of an array bound write the number of its elements.
pub proof fn bounds_are_worth_their_digits(s: Seq<char>, a: int, b: int)
    requires
        0 <= a <= b <= s.len(),
        forall|i: int| a <= i < b ==> '0' <= #[trigger] s[i] <= '9',
    ensures
        target_layout::number(s, a, b) == text_laws::worth(s.subrange(a, b)),
    decreases b - a,
{
    if a < b {
        bounds_are_worth_their_digits(s, a, b - 1);
        assert(s.subrange(a, b).drop_last() =~= s.subrange(a, b - 1));
        assert(s.subrange(a, b).last() == s[b - 1]);
    } else {
        assert(s.subrange(a, b).len() == 0);
    }
}

proof fn digits_end_there(s: Seq<char>, i: int, end: int)
    requires
        0 <= i <= end <= s.len(),
        forall|j: int| i <= j < end ==> text::is_digit(#[trigger] s[j]),
        end < s.len() ==> !text::is_digit(s[end]),
    ensures
        target_layout::digits_end(s, i) == end,
    decreases end - i,
{
    if i < end {
        digits_end_there(s, i + 1, end);
    }
}

/// An array bound multiplies the number of elements by what its digits write,
/// and the bounds behind it go on from there. Nothing is known where the number
/// doesn't fit.
pub proof fn bounds_multiply(s: Seq<char>, i: int, end: int, count: nat)
    requires
        0 <= i,
        i + 1 < end < s.len(),
        s[i] == '[',
        s[end] == ']',
        forall|j: int| i + 1 <= j < end ==> '0' <= #[trigger] s[j] <= '9',
    ensures
        ({
            let bound = text_laws::worth(s.subrange(i + 1, end));
            target_layout::element_count(s, i, count) == if bound > u64::MAX || count * bound
                > u64::MAX {
                None
            } else {
                target_layout::element_count(s, end + 1, (count * bound) as nat)
            }
        }),
{
    assert forall|j: int| i + 1 <= j < end implies text::is_digit(#[trigger] s[j]) by {
    }
    digits_end_there(s, i + 1, end);
    bounds_are_worth_their_digits(s, i + 1, end);
}

/// Pointers are all laid out alike, whatever they point to, and so are pointers
/// to functions.
pub proof fn pointers_are_alike(
    model: TargetLayoutModel,
    s: Seq<char>,
    generated: Seq<(Seq<char>, TypeLayout)>,
)
    requires
        text::occurs(text::squeezed(s), "*"@),
        !text::occurs(text::squeezed(s), "["@) || text::occurs(text::squeezed(s), "(*)"@),
    ensures
        target_layout::layout_of_type(model, s, generated) == Known::<TypeLayout>::Exact(
            TypeLayout { size: model.pointer, align: model.pointer },
        ),
{
    text_laws::first_occurrences_are_first(text::squeezed(s), "["@, 0);
}

/// A leading qualifier changes no layout.
pub proof fn qualifiers_change_nothing(
    model: TargetLayoutModel,
    s: Seq<char>,
    generated: Seq<(Seq<char>, TypeLayout)>,
)
    requires
        !text::occurs("const "@ + s, "*"@),
        !text::occurs("volatile "@ + s, "*"@),
        !text::occurs(s, "*"@),
    ensures
        target_layout::plain_layout(model, "const "@ + s, generated) == target_layout::plain_layout(
            model,
            s,
            generated,
        ),
        target_layout::plain_layout(model, "volatile "@ + s, generated)
            == target_layout::plain_layout(model, s, generated),
{
    reveal_strlit("const ");
    reveal_strlit("volatile ");
    let a = "const "@ + s;
    let b = "volatile "@ + s;
    assert(a.subrange(0, 6) =~= "const "@);
    assert(a.skip(6) =~= s);
    assert(b.subrange(0, 9) =~= "volatile "@);
    assert(b.skip(9) =~= s);
    assert(!text::occurs_at(b, "const "@, 0)) by {
        if text::occurs_at(b, "const "@, 0) {
            assert(b.subrange(0, 6)[0] == 'v');
        }
    }
}

/// A type of the program has the layout that was worked out for it first.
pub proof fn generated_types_are_found(
    generated: Seq<(Seq<char>, TypeLayout)>,
    name: Seq<char>,
    i: int,
)
    requires
        0 <= i <= generated.len(),
    ensures
        match target_layout::generated_layout(generated, name, i) {
            Some(layout) => exists|k: int|
                i <= k < generated.len() && (#[trigger] generated[k]).0 == name && generated[k].1
                    == layout && forall|j: int| i <= j < k ==> (#[trigger] generated[j]).0 != name,
            None => forall|k: int| i <= k < generated.len() ==> (#[trigger] generated[k]).0 != name,
        },
    decreases generated.len() - i,
{
    if i < generated.len() {
        if generated[i].0 == name {
            assert(generated[i].0 == name);
        } else {
            generated_types_are_found(generated, name, i + 1);
        }
    }
}

/// Pointers take eight bytes but on WebAssembly, where they take four. A long integer
/// is as large as a pointer but on Windows, where it takes four bytes. It is no
/// smaller than an integer, and no larger than the longest one.
pub proof fn targets_have_sizes_of_their_own(target: TargetConfig)
    ensures
        target_layout::model_of(target) is None <==> target is Custom,
        target_layout::model_of(target) matches Some(model) ==> {
            let windows = target is WindowsMsvc || target is WindowsGnu;
            &&& model.pointer == if target is Wasm32Wasi {
                4int
            } else {
                8
            }
            &&& !windows ==> model.long == model.pointer
            &&& windows ==> model.long == 4
            &&& 4 <= model.long <= 8
            &&& model.long_double == if target is WindowsMsvc {
                8int
            } else {
                16
            }
        },
{
}

/// A type with a name of its own is aligned, to a part of its size that is no more
/// than the largest alignment of its target.
pub proof fn named_types_are_aligned(model: TargetLayoutModel, name: Seq<char>)
    requires
        4 <= model.pointer <= 8,
        4 <= model.long <= 8,
        8 <= model.long_double <= 16,
    ensures
        target_layout::named_layout(model, name) matches Some(layout) ==> {
            &&& 0 < layout.align <= layout.size
            &&& layout.size as int % layout.align as int == 0
            &&& layout.align <= 16
            &&& layout.size <= 3 * layout.align
        },
{
    assert(2 * model.pointer <= u64::MAX && 3 * model.pointer <= u64::MAX);
    if let Some(layout) = target_layout::named_layout(model, name) {
        let a = layout.align as int;
        let s = layout.size as int;
        assert(s == a || s == 2 * a || s == 3 * a);
        if s == a {
            vstd::arithmetic::div_mod::lemma_mod_self_0(a);
        } else if s == 2 * a {
            vstd::arithmetic::div_mod::lemma_mod_multiples_basic(2, a);
        } else {
            vstd::arithmetic::div_mod::lemma_mod_multiples_basic(3, a);
        }
    }
}

} // verus!
