//! Sizes and alignments of C types on known targets.

use vstd::prelude::*;

use crate::config::TargetConfig;
use crate::text;
use crate::text::{chars_of, contains, find, match_at, normalize_c_type, str_eq, string_of};

verus! {

/// Size and alignment of one type.
#[derive(Debug, Clone, Copy, PartialEq, Eq, Structural)]
pub struct TypeLayout {
    pub size: u64,
    pub align: u64,
}

/// Size and alignment of a structure, and the offsets of its fields.
#[derive(Debug, PartialEq, Eq)]
pub struct AggregateLayout {
    pub size: u64,
    pub align: u64,
    pub offsets: Vec<u64>,
}

/// Why a layout isn't known.
#[derive(Debug, PartialEq, Eq)]
pub enum LayoutUnknownReason {
    UnsupportedTarget,
    PackingEnvironment,
    DependencyUnknown(String),
    UnsupportedType(String),
    ArithmeticOverflow,
}

/// The contents of a reason.
pub enum ReasonView {
    UnsupportedTarget,
    PackingEnvironment,
    DependencyUnknown(Seq<char>),
    UnsupportedType(Seq<char>),
    ArithmeticOverflow,
}

impl View for LayoutUnknownReason {
    type V = ReasonView;

    open spec fn view(&self) -> ReasonView {
        match self {
            LayoutUnknownReason::UnsupportedTarget => ReasonView::UnsupportedTarget,
            LayoutUnknownReason::PackingEnvironment => ReasonView::PackingEnvironment,
            LayoutUnknownReason::DependencyUnknown(name) => ReasonView::DependencyUnknown(name@),
            LayoutUnknownReason::UnsupportedType(name) => ReasonView::UnsupportedType(name@),
            LayoutUnknownReason::ArithmeticOverflow => ReasonView::ArithmeticOverflow,
        }
    }
}

impl Clone for LayoutUnknownReason {
    fn clone(&self) -> (r: Self)
        ensures
            r == *self,
    {
        match self {
            LayoutUnknownReason::UnsupportedTarget => LayoutUnknownReason::UnsupportedTarget,
            LayoutUnknownReason::PackingEnvironment => LayoutUnknownReason::PackingEnvironment,
            LayoutUnknownReason::DependencyUnknown(name) => {
                LayoutUnknownReason::DependencyUnknown(name.clone())
            },
            LayoutUnknownReason::UnsupportedType(name) => {
                LayoutUnknownReason::UnsupportedType(name.clone())
            },
            LayoutUnknownReason::ArithmeticOverflow => LayoutUnknownReason::ArithmeticOverflow,
        }
    }
}

/// A layout, or why it isn't known.
#[derive(Debug, PartialEq, Eq)]
pub enum LayoutKnowledge<T> {
    Exact(T),
    Unknown(LayoutUnknownReason),
}

impl<T> LayoutKnowledge<T> {
    /// Returns the layout if it is known.
    pub fn exact(&self) -> (r: Option<&T>)
        ensures
            match r {
                Some(layout) => *self == LayoutKnowledge::Exact(*layout),
                None => self is Unknown,
            },
    {
        match self {
            LayoutKnowledge::Exact(layout) => Some(layout),
            LayoutKnowledge::Unknown(reason) => None,
        }
    }
}

/// A layout in contracts, or why it isn't known.
pub enum Known<T> {
    Exact(T),
    Unknown(ReasonView),
}

/// The contents of a structure layout.
pub struct AggregateView {
    pub size: u64,
    pub align: u64,
    pub offsets: Seq<u64>,
}

impl View for AggregateLayout {
    type V = AggregateView;

    open spec fn view(&self) -> AggregateView {
        AggregateView { size: self.size, align: self.align, offsets: self.offsets@ }
    }
}

/// What is known of the layout of one type.
pub open spec fn known_type(knowledge: LayoutKnowledge<TypeLayout>) -> Known<TypeLayout> {
    match knowledge {
        LayoutKnowledge::Exact(layout) => Known::Exact(layout),
        LayoutKnowledge::Unknown(reason) => Known::Unknown(reason@),
    }
}

/// What is known of the layout of a structure.
pub open spec fn known_aggregate(knowledge: LayoutKnowledge<AggregateLayout>) -> Known<
    AggregateView,
> {
    match knowledge {
        LayoutKnowledge::Exact(layout) => Known::Exact(layout@),
        LayoutKnowledge::Unknown(reason) => Known::Unknown(reason@),
    }
}

/// Copies what is known of the layout of a structure.
pub fn clone_knowledge(knowledge: &LayoutKnowledge<AggregateLayout>) -> (r: LayoutKnowledge<
    AggregateLayout,
>)
    ensures
        known_aggregate(r) == known_aggregate(*knowledge),
{
    match knowledge {
        LayoutKnowledge::Exact(layout) => {
            let offsets = layout.offsets.clone();
            assert(offsets@ =~= layout.offsets@);
            LayoutKnowledge::Exact(
                AggregateLayout { size: layout.size, align: layout.align, offsets },
            )
        },
        LayoutKnowledge::Unknown(reason) => LayoutKnowledge::Unknown(reason.clone()),
    }
}

/// The sizes that differ between targets.
#[derive(Debug, Clone, Copy, PartialEq, Eq, Structural)]
pub struct TargetLayoutModel {
    pub pointer: u64,
    pub long: u64,
    pub long_double: u64,
}

/// The sizes of a target, unless it is a custom one.
pub open spec fn model_of(target: TargetConfig) -> Option<TargetLayoutModel> {
    match target {
        TargetConfig::Host => Some(TargetLayoutModel { pointer: 8, long: 8, long_double: 16 }),
        TargetConfig::LinuxGnu => Some(TargetLayoutModel { pointer: 8, long: 8, long_double: 16 }),
        TargetConfig::LinuxMusl => Some(
            TargetLayoutModel { pointer: 8, long: 8, long_double: 16 },
        ),
        TargetConfig::Macos => Some(TargetLayoutModel { pointer: 8, long: 8, long_double: 16 }),
        TargetConfig::WindowsMsvc => Some(
            TargetLayoutModel { pointer: 8, long: 4, long_double: 8 },
        ),
        TargetConfig::WindowsGnu => Some(
            TargetLayoutModel { pointer: 8, long: 4, long_double: 16 },
        ),
        TargetConfig::Wasm32Wasi => Some(
            TargetLayoutModel { pointer: 4, long: 4, long_double: 16 },
        ),
        TargetConfig::Custom(name) => None,
    }
}

/// The layout of a scalar that is aligned to its size.
pub open spec fn scalar(size: u64) -> TypeLayout {
    TypeLayout { size, align: size }
}

/// The layout of a type with a name of its own.
pub open spec fn named_layout(model: TargetLayoutModel, name: Seq<char>) -> Option<TypeLayout> {
    if name == "char"@ || name == "signed char"@ || name == "unsigned char"@ || name == "bool"@
        || name == "_Bool"@ || name == "int8_t"@ || name == "uint8_t"@ {
        Some(scalar(1))
    } else if name == "short"@ || name == "short int"@ || name == "unsigned short"@ || name
        == "unsigned short int"@ || name == "int16_t"@ || name == "uint16_t"@ {
        Some(scalar(2))
    } else if name == "int"@ || name == "signed"@ || name == "signed int"@ || name == "unsigned"@
        || name == "unsigned int"@ || name == "int32_t"@ || name == "uint32_t"@ || name == "float"@
        || name == "cr_poll_status"@ {
        Some(scalar(4))
    } else if name == "long long"@ || name == "long long int"@ || name == "unsigned long long"@
        || name == "unsigned long long int"@ || name == "int64_t"@ || name == "uint64_t"@ || name
        == "double"@ {
        Some(scalar(8))
    } else if name == "long"@ || name == "long int"@ || name == "unsigned long"@ || name
        == "unsigned long int"@ {
        Some(scalar(model.long))
    } else if name == "size_t"@ || name == "ptrdiff_t"@ || name == "intptr_t"@ || name
        == "uintptr_t"@ {
        Some(scalar(model.pointer))
    } else if name == "long double"@ {
        Some(scalar(model.long_double))
    } else if name == "cr_error"@ || name == "cr_awaitable"@ {
        Some(TypeLayout { size: (2 * model.pointer) as u64, align: model.pointer })
    } else if name == "cr_cleanup_stack"@ {
        Some(TypeLayout { size: (3 * model.pointer) as u64, align: model.pointer })
    } else {
        None
    }
}

/// The layout of a generated task type.
pub open spec fn generated_layout(
    generated: Seq<(Seq<char>, TypeLayout)>,
    name: Seq<char>,
    i: int,
) -> Option<TypeLayout>
    decreases generated.len() - i,
{
    if i < 0 || i >= generated.len() {
        None
    } else if generated[i].0 == name {
        Some(generated[i].1)
    } else {
        generated_layout(generated, name, i + 1)
    }
}

/// A type name without leading qualifiers.
pub open spec fn unqualified(s: Seq<char>) -> Seq<char>
    decreases s.len(),
{
    if text::occurs_at(s, "const "@, 0) && "const "@.len() > 0 {
        unqualified(s.skip("const "@.len() as int))
    } else if text::occurs_at(s, "volatile "@, 0) && "volatile "@.len() > 0 {
        unqualified(s.skip("volatile "@.len() as int))
    } else {
        s
    }
}

/// The end of the run of digits that starts at `i`.
pub open spec fn digits_end(s: Seq<char>, i: int) -> int
    decreases s.len() - i,
{
    if 0 <= i < s.len() && text::is_digit(s[i]) {
        digits_end(s, i + 1)
    } else {
        i
    }
}

/// The number that the digits from `a` to `b` write.
pub open spec fn number(s: Seq<char>, a: int, b: int) -> nat
    decreases b - a,
{
    if b <= a {
        0
    } else {
        (10 * number(s, a, b - 1) + (s[b - 1] as u32 - '0' as u32)) as nat
    }
}

/// The number of elements that array bounds from `i` on multiply `count` by.
pub open spec fn element_count(s: Seq<char>, i: int, count: nat) -> Option<nat>
    decreases s.len() - i,
{
    if i < 0 || i >= s.len() {
        Some(count)
    } else if s[i] != '[' {
        None
    } else {
        let end = digits_end(s, i + 1);
        if end <= i + 1 || end >= s.len() || s[end] != ']' || count * number(s, i + 1, end)
            > u64::MAX || number(s, i + 1, end) > u64::MAX {
            None
        } else {
            element_count(s, end + 1, count * number(s, i + 1, end))
        }
    }
}

/// The layout of a type that is no array.
pub open spec fn plain_layout(
    model: TargetLayoutModel,
    s: Seq<char>,
    generated: Seq<(Seq<char>, TypeLayout)>,
) -> Known<TypeLayout> {
    if text::occurs(s, "*"@) {
        Known::Exact(scalar(model.pointer))
    } else {
        let name = unqualified(s);
        match named_layout(model, name) {
            Some(layout) => Known::Exact(layout),
            None => match generated_layout(generated, name, 0) {
                Some(layout) => Known::Exact(layout),
                None => Known::Unknown(ReasonView::DependencyUnknown(name)),
            },
        }
    }
}

/// The layout of a C type: a pointer to a function, an array, a pointer, or a
/// type with a name.
pub open spec fn layout_of_type(
    model: TargetLayoutModel,
    c_type: Seq<char>,
    generated: Seq<(Seq<char>, TypeLayout)>,
) -> Known<TypeLayout> {
    let s = text::squeezed(c_type);
    let bracket = text::first_occurrence(s, "["@, 0);
    if text::occurs(s, "(*)"@) {
        Known::Exact(scalar(model.pointer))
    } else if bracket < 0 {
        plain_layout(model, s, generated)
    } else {
        match plain_layout(model, text::trim_back(s.take(bracket)), generated) {
            Known::Exact(element) => match element_count(s, bracket, 1) {
                Some(count) => if element.size * count <= u64::MAX {
                    Known::Exact(
                        TypeLayout { size: (element.size * count) as u64, align: element.align },
                    )
                } else {
                    Known::Unknown(ReasonView::ArithmeticOverflow)
                },
                None => Known::Unknown(ReasonView::UnsupportedType(s)),
            },
            Known::Unknown(reason) => Known::Unknown(reason),
        }
    }
}

/// The least multiple of `align` that is not below `offset`.
pub open spec fn aligned(offset: nat, align: nat) -> nat {
    if align == 0 {
        offset
    } else {
        ((offset + align - 1) as nat / align) * align
    }
}

/// Aligning never moves an offset down.
pub proof fn aligned_bounds(offset: nat, align: nat)
    ensures
        offset <= aligned(offset, align),
        align > 0 ==> aligned(offset, align) < offset + align,
{
    if align > 0 {
        let x = (offset + align - 1) as nat;
        let q = x / align;
        assert(q * align <= x && x < q * align + align) by (nonlinear_arith)
            requires
                align > 0,
                q == x / align,
        ;
    }
}

/// Where a structure ends after its first `n` fields, its alignment, and the
/// offsets of the fields; nothing where an offset does not fit.
pub open spec fn placed_fields(fields: Seq<TypeLayout>, n: int) -> Option<(nat, u64, Seq<u64>)>
    decreases n,
{
    if n <= 0 {
        Some((0nat, 1u64, Seq::empty()))
    } else {
        match placed_fields(fields, n - 1) {
            Some((end, align, offsets)) => {
                let field = fields[n - 1];
                let offset = aligned(end, field.align as nat);
                if offset + field.size > u64::MAX {
                    None
                } else {
                    Some(
                        (
                            offset + field.size as nat,
                            if field.align > align {
                                field.align
                            } else {
                                align
                            },
                            offsets.push(offset as u64),
                        ),
                    )
                }
            },
            None => None,
        }
    }
}

/// The layout of a structure with the given fields.
pub open spec fn layout_of_struct(fields: Seq<TypeLayout>) -> Known<AggregateView> {
    match placed_fields(fields, fields.len() as int) {
        Some((end, align, offsets)) => if aligned(end, align as nat) <= u64::MAX {
            Known::Exact(AggregateView { size: aligned(end, align as nat) as u64, align, offsets })
        } else {
            Known::Unknown(ReasonView::ArithmeticOverflow)
        },
        None => Known::Unknown(ReasonView::ArithmeticOverflow),
    }
}

/// The largest size among the first `n` members.
pub open spec fn largest_size(members: Seq<TypeLayout>, n: int) -> u64
    decreases n,
{
    if n <= 0 {
        0
    } else if members[n - 1].size > largest_size(members, n - 1) {
        members[n - 1].size
    } else {
        largest_size(members, n - 1)
    }
}

/// The largest alignment among the first `n` members.
pub open spec fn largest_align(members: Seq<TypeLayout>, n: int) -> u64
    decreases n,
{
    if n <= 0 {
        1
    } else if members[n - 1].align > largest_align(members, n - 1) {
        members[n - 1].align
    } else {
        largest_align(members, n - 1)
    }
}

/// The layout of a union with the given members.
pub open spec fn layout_of_union(members: Seq<TypeLayout>) -> Known<TypeLayout> {
    let align = largest_align(members, members.len() as int);
    let size = aligned(largest_size(members, members.len() as int) as nat, align as nat);
    if size <= u64::MAX {
        Known::Exact(TypeLayout { size: size as u64, align })
    } else {
        Known::Unknown(ReasonView::ArithmeticOverflow)
    }
}

/// The generated types by name.
pub open spec fn generated_view(generated: Seq<(String, TypeLayout)>) -> Seq<
    (Seq<char>, TypeLayout),
> {
    Seq::new(generated.len(), |i: int| (generated[i].0@, generated[i].1))
}

/// Finds the layout of a generated type.
pub fn find_generated(generated: &Vec<(String, TypeLayout)>, name: &str) -> (r: Option<TypeLayout>)
    ensures
        r == generated_layout(generated_view(generated@), name@, 0),
{
    let ghost view = generated_view(generated@);
    let mut i: usize = 0;
    while i < generated.len()
        invariant
            i <= generated@.len(),
            view == generated_view(generated@),
            generated_layout(view, name@, 0) == generated_layout(view, name@, i as int),
        decreases generated@.len() - i,
    {
        if str_eq(generated[i].0.as_str(), name) {
            return Some(generated[i].1);
        }
        i += 1;
    }
    None
}

fn align_up(offset: u64, align: u64) -> (r: Option<u64>)
    ensures
        match r {
            Some(x) => x == aligned(offset as nat, align as nat),
            None => aligned(offset as nat, align as nat) > u64::MAX,
        },
{
    if align == 0 {
        return Some(offset);
    }
    let sum: u128 = offset as u128 + (align - 1) as u128;
    let quotient: u128 = sum / (align as u128);
    proof {
        aligned_bounds(offset as nat, align as nat);
        assert(quotient * align <= sum) by (nonlinear_arith)
            requires
                align > 0,
                quotient == sum / (align as u128),
        ;
    }
    let up: u128 = quotient * (align as u128);
    if up <= u64::MAX as u128 {
        Some(up as u64)
    } else {
        None
    }
}

fn strip_qualifiers(chars: Vec<char>) -> (r: Vec<char>)
    ensures
        r@ == unqualified(chars@),
{
    let constant = chars_of("const ");
    let volatile = chars_of("volatile ");
    let mut start: usize = 0;
    assert(chars@.skip(0) =~= chars@);
    proof {
        reveal_strlit("const ");
        reveal_strlit("volatile ");
    }
    while start < chars.len() && (match_at(&chars, &constant, start) || match_at(
        &chars,
        &volatile,
        start,
    ))
        invariant
            start <= chars@.len(),
            constant@ == "const "@,
            volatile@ == "volatile "@,
            constant@.len() == 6,
            volatile@.len() == 9,
            unqualified(chars@) == unqualified(chars@.skip(start as int)),
        decreases chars@.len() - start,
    {
        let ghost rest = chars@.skip(start as int);
        if match_at(&chars, &constant, start) {
            assert(chars@.subrange(start as int, start + 6) == constant@);
            assert(rest.subrange(0, 6) =~= chars@.subrange(start as int, start + 6));
            assert(rest.skip(6) =~= chars@.skip(start + 6));
            start += 6;
        } else {
            assert(!text::occurs_at(rest, "const "@, 0)) by {
                if text::occurs_at(rest, "const "@, 0) {
                    assert(rest.subrange(0, 6) =~= chars@.subrange(start as int, start + 6));
                }
            }
            assert(chars@.subrange(start as int, start + 9) == volatile@);
            assert(rest.subrange(0, 9) =~= chars@.subrange(start as int, start + 9));
            assert(rest.skip(9) =~= chars@.skip(start + 9));
            start += 9;
        }
    }
    let ghost rest = chars@.skip(start as int);
    proof {
        if text::occurs_at(rest, "const "@, 0) {
            assert(rest.subrange(0, 6) =~= chars@.subrange(start as int, start + 6));
        }
        if text::occurs_at(rest, "volatile "@, 0) {
            assert(rest.subrange(0, 9) =~= chars@.subrange(start as int, start + 9));
        }
    }
    let mut r: Vec<char> = Vec::new();
    let mut i: usize = start;
    while i < chars.len()
        invariant
            start <= i <= chars@.len(),
            r@ =~= chars@.subrange(start as int, i as int),
        decreases chars@.len() - i,
    {
        r.push(chars[i]);
        i += 1;
    }
    assert(r@ =~= rest);
    r
}

impl TargetLayoutModel {
    /// Returns the sizes of a target, unless it is a custom one.
    pub fn for_target(target: &TargetConfig) -> (r: LayoutKnowledge<TargetLayoutModel>)
        ensures
            match r {
                LayoutKnowledge::Exact(model) => model_of(*target) == Some(model),
                LayoutKnowledge::Unknown(reason) => model_of(*target) is None && reason
                    == LayoutUnknownReason::UnsupportedTarget,
            },
    {
        match target {
            TargetConfig::Host | TargetConfig::LinuxGnu | TargetConfig::LinuxMusl
            | TargetConfig::Macos => LayoutKnowledge::Exact(
                TargetLayoutModel { pointer: 8, long: 8, long_double: 16 },
            ),
            TargetConfig::WindowsMsvc => LayoutKnowledge::Exact(
                TargetLayoutModel { pointer: 8, long: 4, long_double: 8 },
            ),
            TargetConfig::WindowsGnu => LayoutKnowledge::Exact(
                TargetLayoutModel { pointer: 8, long: 4, long_double: 16 },
            ),
            TargetConfig::Wasm32Wasi => LayoutKnowledge::Exact(
                TargetLayoutModel { pointer: 4, long: 4, long_double: 16 },
            ),
            TargetConfig::Custom(name) => LayoutKnowledge::Unknown(
                LayoutUnknownReason::UnsupportedTarget,
            ),
        }
    }

    fn named(&self, name: &str) -> (r: Option<TypeLayout>)
        requires
            self.pointer <= 16,
        ensures
            r == named_layout(*self, name@),
    {
        let one = str_eq(name, "char") || str_eq(name, "signed char") || str_eq(
            name,
            "unsigned char",
        ) || str_eq(name, "bool") || str_eq(name, "_Bool") || str_eq(name, "int8_t") || str_eq(
            name,
            "uint8_t",
        );
        let two = str_eq(name, "short") || str_eq(name, "short int") || str_eq(
            name,
            "unsigned short",
        ) || str_eq(name, "unsigned short int") || str_eq(name, "int16_t") || str_eq(
            name,
            "uint16_t",
        );
        let four = str_eq(name, "int") || str_eq(name, "signed") || str_eq(name, "signed int")
            || str_eq(name, "unsigned") || str_eq(name, "unsigned int") || str_eq(name, "int32_t")
            || str_eq(name, "uint32_t") || str_eq(name, "float") || str_eq(name, "cr_poll_status");
        let eight = str_eq(name, "long long") || str_eq(name, "long long int") || str_eq(
            name,
            "unsigned long long",
        ) || str_eq(name, "unsigned long long int") || str_eq(name, "int64_t") || str_eq(
            name,
            "uint64_t",
        ) || str_eq(name, "double");
        let long = str_eq(name, "long") || str_eq(name, "long int") || str_eq(name, "unsigned long")
            || str_eq(name, "unsigned long int");
        let word = str_eq(name, "size_t") || str_eq(name, "ptrdiff_t") || str_eq(name, "intptr_t")
            || str_eq(name, "uintptr_t");
        if one {
            Some(TypeLayout { size: 1, align: 1 })
        } else if two {
            Some(TypeLayout { size: 2, align: 2 })
        } else if four {
            Some(TypeLayout { size: 4, align: 4 })
        } else if eight {
            Some(TypeLayout { size: 8, align: 8 })
        } else if long {
            Some(TypeLayout { size: self.long, align: self.long })
        } else if word {
            Some(TypeLayout { size: self.pointer, align: self.pointer })
        } else if str_eq(name, "long double") {
            Some(TypeLayout { size: self.long_double, align: self.long_double })
        } else if str_eq(name, "cr_error") || str_eq(name, "cr_awaitable") {
            Some(TypeLayout { size: 2 * self.pointer, align: self.pointer })
        } else if str_eq(name, "cr_cleanup_stack") {
            Some(TypeLayout { size: 3 * self.pointer, align: self.pointer })
        } else {
            None
        }
    }

    fn plain(&self, s: &str, generated: &Vec<(String, TypeLayout)>) -> (r: LayoutKnowledge<
        TypeLayout,
    >)
        requires
            self.pointer <= 16,
        ensures
            known_type(r) == plain_layout(*self, s@, generated_view(generated@)),
    {
        if contains(s, "*") {
            return LayoutKnowledge::Exact(
                TypeLayout { size: self.pointer, align: self.pointer },
            );
        }
        let chars = strip_qualifiers(chars_of(s));
        let name = string_of(&chars, 0, chars.len());
        assert(name@ =~= chars@);
        match self.named(name.as_str()) {
            Some(layout) => LayoutKnowledge::Exact(layout),
            None => match find_generated(generated, name.as_str()) {
                Some(layout) => LayoutKnowledge::Exact(layout),
                None => LayoutKnowledge::Unknown(LayoutUnknownReason::DependencyUnknown(name)),
            },
        }
    }

    /// Returns the layout of a C type.
    pub fn type_layout(&self, c_type: &str, generated: &Vec<(String, TypeLayout)>) -> (r:
        LayoutKnowledge<TypeLayout>)
        requires
            self.pointer <= 16,
        ensures
            known_type(r) == layout_of_type(*self, c_type@, generated_view(generated@)),
    {
        let s = normalize_c_type(c_type);
        let chars = chars_of(s.as_str());
        if contains(s.as_str(), "(*)") {
            return LayoutKnowledge::Exact(
                TypeLayout { size: self.pointer, align: self.pointer },
            );
        }
        match find(&chars, &chars_of("[")) {
            None => self.plain(s.as_str(), generated),
            Some(bracket) => {
                let before = string_of(&chars, 0, bracket);
                assert(before@ =~= s@.take(bracket as int));
                let base = text::trim_end(before.as_str());
                match self.plain(base, generated) {
                    LayoutKnowledge::Exact(element) => match count_elements(&chars, bracket) {
                        Some(count) => match element.size.checked_mul(count) {
                            Some(size) => LayoutKnowledge::Exact(
                                TypeLayout { size, align: element.align },
                            ),
                            None => LayoutKnowledge::Unknown(
                                LayoutUnknownReason::ArithmeticOverflow,
                            ),
                        },
                        None => LayoutKnowledge::Unknown(LayoutUnknownReason::UnsupportedType(s)),
                    },
                    LayoutKnowledge::Unknown(reason) => LayoutKnowledge::Unknown(reason),
                }
            },
        }
    }

    /// Returns the layout of a structure with the given fields.
    pub fn struct_layout(&self, fields: &Vec<TypeLayout>) -> (r: LayoutKnowledge<AggregateLayout>)
        ensures
            known_aggregate(r) == layout_of_struct(fields@),
    {
        let mut end: u64 = 0;
        let mut align: u64 = 1;
        let mut offsets: Vec<u64> = Vec::new();
        let mut i: usize = 0;
        while i < fields.len()
            invariant
                i <= fields@.len(),
                placed_fields(fields@, i as int) == Some((end as nat, align, offsets@)),
            decreases fields@.len() - i,
        {
            let field = fields[i];
            let next = align_up(end, field.align);
            let offset: u64 = match next {
                Some(offset) => offset,
                None => {
                    proof {
                        placed_fields_stop(fields@, i + 1, fields@.len() as int);
                    }
                    return LayoutKnowledge::Unknown(LayoutUnknownReason::ArithmeticOverflow);
                },
            };
            if offset > u64::MAX - field.size {
                proof {
                    placed_fields_stop(fields@, i + 1, fields@.len() as int);
                }
                return LayoutKnowledge::Unknown(LayoutUnknownReason::ArithmeticOverflow);
            }
            offsets.push(offset);
            end = offset + field.size;
            if field.align > align {
                align = field.align;
            }
            i += 1;
        }
        match align_up(end, align) {
            Some(size) => LayoutKnowledge::Exact(AggregateLayout { size, align, offsets }),
            None => LayoutKnowledge::Unknown(LayoutUnknownReason::ArithmeticOverflow),
        }
    }

    /// Returns the layout of a union with the given members.
    pub fn union_layout(&self, members: &Vec<TypeLayout>) -> (r: LayoutKnowledge<TypeLayout>)
        ensures
            known_type(r) == layout_of_union(members@),
    {
        let mut size: u64 = 0;
        let mut align: u64 = 1;
        let mut i: usize = 0;
        while i < members.len()
            invariant
                i <= members@.len(),
                size == largest_size(members@, i as int),
                align == largest_align(members@, i as int),
            decreases members@.len() - i,
        {
            if members[i].size > size {
                size = members[i].size;
            }
            if members[i].align > align {
                align = members[i].align;
            }
            i += 1;
        }
        match align_up(size, align) {
            Some(size) => LayoutKnowledge::Exact(TypeLayout { size, align }),
            None => LayoutKnowledge::Unknown(LayoutUnknownReason::ArithmeticOverflow),
        }
    }
}

proof fn placed_fields_stop(fields: Seq<TypeLayout>, m: int, n: int)
    requires
        m <= n,
        placed_fields(fields, m) is None,
    ensures
        placed_fields(fields, n) is None,
    decreases n - m,
{
    if m < n {
        if n > 0 {
            placed_fields_stop(fields, m, n - 1);
        }
    }
}

proof fn number_grows(s: Seq<char>, a: int, k: int, b: int)
    requires
        a <= k <= b,
        forall|i: int| a <= i < b ==> text::is_digit(#[trigger] s[i]),
    ensures
        number(s, a, k) <= number(s, a, b),
    decreases b - k,
{
    if k < b {
        number_grows(s, a, k, b - 1);
        assert(text::is_digit(s[b - 1]));
    }
}

fn read_number(chars: &Vec<char>, start: usize) -> (r: (usize, Option<u64>))
    requires
        start <= chars@.len(),
    ensures
        r.0 == digits_end(chars@, start as int),
        start <= r.0 <= chars@.len(),
        match r.1 {
            Some(n) => n == number(chars@, start as int, r.0 as int),
            None => number(chars@, start as int, r.0 as int) > u64::MAX,
        },
{
    let mut i: usize = start;
    let mut n: Option<u64> = Some(0);
    while i < chars.len() && '0' <= chars[i] && chars[i] <= '9'
        invariant
            start <= i <= chars@.len(),
            digits_end(chars@, start as int) == digits_end(chars@, i as int),
            forall|k: int| start <= k < i ==> text::is_digit(#[trigger] chars@[k]),
            match n {
                Some(n) => n == number(chars@, start as int, i as int),
                None => number(chars@, start as int, i as int) > u64::MAX,
            },
        decreases chars@.len() - i,
    {
        let digit: u128 = (chars[i] as u32 - '0' as u32) as u128;
        n = match n {
            Some(n) => {
                let next: u128 = 10 * n as u128 + digit;
                if next <= u64::MAX as u128 {
                    Some(next as u64)
                } else {
                    None
                }
            },
            None => None,
        };
        i += 1;
        proof {
            number_grows(chars@, start as int, i - 1, i as int);
        }
    }
    (i, n)
}

fn count_elements(chars: &Vec<char>, bracket: usize) -> (r: Option<u64>)
    requires
        bracket <= chars@.len(),
    ensures
        match r {
            Some(count) => element_count(chars@, bracket as int, 1) == Some(count as nat),
            None => element_count(chars@, bracket as int, 1) is None,
        },
{
    let mut count: u64 = 1;
    let mut i: usize = bracket;
    while i < chars.len()
        invariant
            i <= chars@.len(),
            element_count(chars@, bracket as int, 1) == element_count(
                chars@,
                i as int,
                count as nat,
            ),
        decreases chars@.len() - i,
    {
        if chars[i] != '[' {
            return None;
        }
        let (end, bound) = read_number(chars, i + 1);
        if end <= i + 1 || end >= chars.len() || chars[end] != ']' {
            return None;
        }
        let bound: u64 = match bound {
            Some(bound) => bound,
            None => {
                return None;
            },
        };
        count = match count.checked_mul(bound) {
            Some(product) => product,
            None => {
                return None;
            },
        };
        i = end + 1;
    }
    Some(count)
}

} // verus!
