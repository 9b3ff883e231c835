//! How the sizes of contexts settle, and why smaller parts settle smaller.

use vstd::prelude::*;

use crate::context_layout::{LayoutView, SlotView};
use crate::known_sizes;
use crate::layout_knowledge;
use crate::layout_knowledge::Knowing;
use crate::size_layout;
use crate::target_layout;
use crate::target_layout::{Known, TargetLayoutModel, TypeLayout};

verus! {

/// What is known of a context as a type.
pub open spec fn known_type(layout: LayoutView) -> Option<TypeLayout> {
    match layout.layout_knowledge {
        Known::Exact(known) => Some(TypeLayout { size: known.size, align: known.align }),
        Known::Unknown(reason) => None,
    }
}

/// Whether every context has a type name of its own.
pub open spec fn names_distinct(functions: Seq<(usize, LayoutView)>) -> bool {
    forall|i: int, j: int|
        0 <= i < j < functions.len() ==> (#[trigger] functions[i]).1.task_type != (
        #[trigger] functions[j]).1.task_type
}

/// Whether two lists hold contexts with the same type names.
pub open spec fn same_names(
    a: Seq<(usize, LayoutView)>,
    b: Seq<(usize, LayoutView)>,
) -> bool {
    a.len() == b.len() && forall|i: int|
        0 <= i < a.len() ==> (#[trigger] b[i]).1.task_type == a[i].1.task_type
}

/// Whether every generated type that is known belongs to a context, and is
/// what the context comes to from all that is known.
pub open spec fn consistent(model: TargetLayoutModel, knowing: Knowing) -> bool {
    &&& forall|i: int|
        0 <= i < knowing.functions.len() ==> match target_layout::generated_layout(
            knowing.generated,
            (#[trigger] knowing.functions[i]).1.task_type,
            0,
        ) {
            Some(layout) => known_sizes::context_type(
                model,
                knowing.functions[i].1.slots,
                knowing.generated,
            ) == Some(layout) && known_type(knowing.functions[i].1) == Some(layout),
            None => true,
        }
    &&& forall|name: Seq<char>|
        (#[trigger] target_layout::generated_layout(knowing.generated, name, 0)) is Some
            ==> exists|i: int|
            0 <= i < knowing.functions.len() && (#[trigger] knowing.functions[i]).1.task_type
                == name
}

/// Giving a type a layout changes what is known of that type alone.
pub proof fn given_layout(
    generated: Seq<(Seq<char>, TypeLayout)>,
    name: Seq<char>,
    layout: TypeLayout,
    other: Seq<char>,
    i: int,
)
    requires
        0 <= i <= generated.len(),
    ensures
        target_layout::generated_layout(
            layout_knowledge::with_generated(generated, name, layout, i),
            other,
            i,
        ) == if other == name {
            Some(layout)
        } else {
            target_layout::generated_layout(generated, other, i)
        },
        layout_knowledge::with_generated(generated, name, layout, i).len() >= generated.len(),
        forall|k: int|
            0 <= k < i ==> #[trigger] layout_knowledge::with_generated(
                generated,
                name,
                layout,
                i,
            )[k] == generated[k],
        target_layout::generated_layout(generated, name, i) == Some(layout)
            ==> layout_knowledge::with_generated(generated, name, layout, i) == generated,
    decreases generated.len() - i,
{
    let after = layout_knowledge::with_generated(generated, name, layout, i);
    if i >= generated.len() {
        assert(after[i] == (name, layout));
        assert(target_layout::generated_layout(after, other, i + 1) is None);
    } else if generated[i].0 == name {
        assert(after[i] == (name, layout));
        same_from(generated, after, other, i + 1);
        if generated[i].1 == layout {
            assert(after =~= generated);
        }
    } else {
        given_layout(generated, name, layout, other, i + 1);
        assert(after[i] == generated[i]);
    }
}

proof fn same_from(
    a: Seq<(Seq<char>, TypeLayout)>,
    b: Seq<(Seq<char>, TypeLayout)>,
    name: Seq<char>,
    i: int,
)
    requires
        a.len() == b.len(),
        0 <= i,
        forall|k: int| i <= k < a.len() ==> #[trigger] a[k] == b[k],
    ensures
        target_layout::generated_layout(a, name, i) == target_layout::generated_layout(b, name, i),
    decreases a.len() - i,
{
    if i < a.len() {
        assert(a[i] == b[i]);
        same_from(a, b, name, i + 1);
    }
}

proof fn fits_twice(
    a: Seq<(Seq<char>, TypeLayout)>,
    b: Seq<(Seq<char>, TypeLayout)>,
    c: Seq<(Seq<char>, TypeLayout)>,
    first: bool,
    second: bool,
)
    requires
        known_sizes::types_fit(b, a, first),
        known_sizes::types_fit(c, b, second),
    ensures
        known_sizes::types_fit(c, a, first && second),
{
    assert forall|name: Seq<char>|
        match #[trigger] target_layout::generated_layout(a, name, 0) {
            Some(layout) => match target_layout::generated_layout(c, name, 0) {
                Some(other) => known_sizes::fits(other, layout, first && second),
                None => false,
            },
            None => true,
        } by {
        let middle = target_layout::generated_layout(b, name, 0);
    }
}

/// Computing one more context keeps what is known, and adds what the context
/// comes to.
proof fn one_known(model: TargetLayoutModel, knowing: Knowing, i: int)
    requires
        0 <= i < knowing.functions.len(),
        names_distinct(knowing.functions),
        consistent(model, knowing),
    ensures
        ({
            let after = layout_knowledge::know_one(model, knowing, i);
            let name = knowing.functions[i].1.task_type;
            let found = known_sizes::context_type(
                model,
                knowing.functions[i].1.slots,
                knowing.generated,
            );
            &&& consistent(model, after)
            &&& layout_knowledge::same_placements(knowing.functions, after.functions)
            &&& known_sizes::types_fit(after.generated, knowing.generated, true)
            &&& known_type(after.functions[i].1) == found
            &&& forall|other: Seq<char>| #[trigger]
                target_layout::generated_layout(after.generated, other, 0) == if other == name {
                    found
                } else {
                    target_layout::generated_layout(knowing.generated, other, 0)
                }
            &&& !after.changed ==> after.generated == knowing.generated
            &&& knowing.changed ==> after.changed
            &&& after.changed == (knowing.changed || (found is Some
                && target_layout::generated_layout(knowing.generated, name, 0) != found))
        }),
{
    let after = layout_knowledge::know_one(model, knowing, i);
    let name = knowing.functions[i].1.task_type;
    let slots = knowing.functions[i].1.slots;
    let found = known_sizes::context_type(model, slots, knowing.generated);
    assert(knowing.functions[i].1.task_type == name);
    assert forall|other: Seq<char>| #[trigger]
        target_layout::generated_layout(after.generated, other, 0) == if other == name {
            found
        } else {
            target_layout::generated_layout(knowing.generated, other, 0)
        } by {
        if let Some(layout) = found {
            given_layout(knowing.generated, name, layout, other, 0);
        }
    }
    if let Some(layout) = found {
        given_layout(knowing.generated, name, layout, name, 0);
    }
    assert(known_sizes::types_fit(after.generated, knowing.generated, true));
    assert forall|j: int| 0 <= j < after.functions.len() implies match target_layout::generated_layout(
        after.generated,
        (#[trigger] after.functions[j]).1.task_type,
        0,
    ) {
        Some(layout) => known_sizes::context_type(
            model,
            after.functions[j].1.slots,
            after.generated,
        ) == Some(layout) && known_type(after.functions[j].1) == Some(layout),
        None => true,
    } by {
        let other = knowing.functions[j].1.task_type;
        assert(after.functions[j].1.task_type == other);
        assert(after.functions[j].1.slots == knowing.functions[j].1.slots);
        if j != i {
            assert(other != name);
        }
        if target_layout::generated_layout(after.generated, other, 0) is Some {
            known_sizes::context_fits(
                model,
                knowing.functions[j].1.slots,
                after.generated,
                knowing.generated,
                true,
            );
        }
    }
    assert forall|other: Seq<char>|
        (#[trigger] target_layout::generated_layout(
            after.generated,
            other,
            0,
        )) is Some implies exists|k: int|
        0 <= k < after.functions.len() && (#[trigger] after.functions[k]).1.task_type
            == other by {
        if other == name {
            assert(after.functions[i].1.task_type == other);
        } else {
            let k = choose|k: int|
                0 <= k < knowing.functions.len() && (#[trigger] knowing.functions[k]).1.task_type
                    == other;
            assert(after.functions[k].1.task_type == other);
        }
    }
}

proof fn placements_twice(
    a: Seq<(usize, LayoutView)>,
    b: Seq<(usize, LayoutView)>,
    c: Seq<(usize, LayoutView)>,
)
    requires
        layout_knowledge::same_placements(a, b),
        layout_knowledge::same_placements(b, c),
    ensures
        layout_knowledge::same_placements(a, c),
        names_distinct(a) ==> names_distinct(b),
{
    assert forall|i: int| 0 <= i < a.len() implies (#[trigger] c[i]).0 == a[i].0 && c[i].1
        == layout_knowledge::with_knowledge(a[i].1, c[i].1.layout_knowledge) by {
        assert(b[i].0 == a[i].0);
    }
    names_kept(a, b);
}

proof fn names_kept(a: Seq<(usize, LayoutView)>, b: Seq<(usize, LayoutView)>)
    requires
        layout_knowledge::same_placements(a, b),
    ensures
        names_distinct(a) ==> names_distinct(b),
        same_names(a, b),
        forall|i: int| 0 <= i < a.len() ==> (#[trigger] b[i]).1.slots == a[i].1.slots,
{
    assert forall|i: int| 0 <= i < a.len() implies (#[trigger] b[i]).1.task_type
        == a[i].1.task_type && b[i].1.slots == a[i].1.slots by {
        assert(b[i].0 == a[i].0);
    }
    if names_distinct(a) {
        assert forall|i: int, j: int| 0 <= i < j < b.len() implies (#[trigger] b[i]).1.task_type
            != (#[trigger] b[j]).1.task_type by {
            assert(a[i].1.task_type != a[j].1.task_type);
        }
    }
}

/// A round keeps what is known, and in the end the known types are those of
/// the contexts that are known.
proof fn round_known(model: TargetLayoutModel, knowing: Knowing, n: int)
    requires
        0 <= n <= knowing.functions.len(),
        names_distinct(knowing.functions),
        consistent(model, knowing),
    ensures
        ({
            let after = layout_knowledge::know_round(model, knowing, n);
            &&& consistent(model, after)
            &&& layout_knowledge::same_placements(knowing.functions, after.functions)
            &&& known_sizes::types_fit(after.generated, knowing.generated, true)
            &&& forall|j: int|
                0 <= j < n ==> known_type((#[trigger] after.functions[j]).1)
                    == target_layout::generated_layout(
                    after.generated,
                    after.functions[j].1.task_type,
                    0,
                )
            &&& !after.changed ==> after.generated == knowing.generated && !knowing.changed
        }),
    decreases n,
{
    if n > 0 {
        round_known(model, knowing, n - 1);
        let before = layout_knowledge::know_round(model, knowing, n - 1);
        let after = layout_knowledge::know_round(model, knowing, n);
        names_kept(knowing.functions, before.functions);
        one_known(model, before, n - 1);
        placements_twice(knowing.functions, before.functions, after.functions);
        fits_twice(knowing.generated, before.generated, after.generated, true, true);
        names_kept(before.functions, after.functions);
        assert forall|j: int| 0 <= j < n implies known_type((#[trigger] after.functions[j]).1)
            == target_layout::generated_layout(
            after.generated,
            after.functions[j].1.task_type,
            0,
        ) by {
            if j < n - 1 {
                assert(known_type(before.functions[j].1) == target_layout::generated_layout(
                    before.generated,
                    before.functions[j].1.task_type,
                    0,
                ));
                assert(before.functions[j].1.task_type != before.functions[n - 1].1.task_type);
            }
        }
    }
}

/// Rounds keep what is known, and in the end the known types are those of the
/// contexts that are known.
proof fn rounds_known(model: TargetLayoutModel, knowing: Knowing, rounds: nat)
    requires
        names_distinct(knowing.functions),
        consistent(model, knowing),
    ensures
        ({
            let after = layout_knowledge::know_rounds(model, knowing, rounds);
            &&& consistent(model, after)
            &&& layout_knowledge::same_placements(knowing.functions, after.functions)
            &&& known_sizes::types_fit(after.generated, knowing.generated, true)
            &&& rounds > 0 ==> forall|j: int|
                0 <= j < after.functions.len() ==> known_type((#[trigger] after.functions[j]).1)
                    == target_layout::generated_layout(
                    after.generated,
                    after.functions[j].1.task_type,
                    0,
                )
        }),
    decreases rounds,
{
    if rounds > 0 {
        let start = Knowing { changed: false, ..knowing };
        let n = knowing.functions.len() as int;
        round_known(model, start, n);
        let next = layout_knowledge::know_round(model, start, n);
        if next.changed {
            names_kept(knowing.functions, next.functions);
            rounds_known(model, next, (rounds - 1) as nat);
            let after = layout_knowledge::know_rounds(model, knowing, rounds);
            placements_twice(knowing.functions, next.functions, after.functions);
            fits_twice(knowing.generated, next.generated, after.generated, true, true);
        }
    }
}

/// A round that changes nothing is followed by rounds that change nothing.
proof fn quiet_round_repeats(model: TargetLayoutModel, knowing: Knowing, again: Knowing, n: int)
    requires
        0 <= n <= knowing.functions.len(),
        names_distinct(knowing.functions),
        consistent(model, knowing),
        consistent(model, again),
        layout_knowledge::same_placements(knowing.functions, again.functions),
        again.generated == knowing.generated,
        !again.changed,
        !layout_knowledge::know_round(model, knowing, n).changed,
    ensures
        !layout_knowledge::know_round(model, again, n).changed,
        layout_knowledge::know_round(model, again, n).generated == again.generated,
    decreases n,
{
    if n > 0 {
        names_kept(knowing.functions, again.functions);
        let before = layout_knowledge::know_round(model, knowing, n - 1);
        round_known(model, knowing, n - 1);
        names_kept(knowing.functions, before.functions);
        one_known(model, before, n - 1);
        assert(!before.changed);
        quiet_round_repeats(model, knowing, again, n - 1);
        let repeated = layout_knowledge::know_round(model, again, n - 1);
        round_known(model, again, n - 1);
        names_kept(again.functions, repeated.functions);
        one_known(model, repeated, n - 1);
        assert(before.generated == knowing.generated);
        assert(repeated.functions[n - 1].1.slots == before.functions[n - 1].1.slots) by {
            assert(again.functions[n - 1].1.slots == knowing.functions[n - 1].1.slots);
        }
        assert(repeated.functions[n - 1].1.task_type == before.functions[n - 1].1.task_type) by {
            assert(again.functions[n - 1].1.task_type == knowing.functions[n - 1].1.task_type);
        }
    }
}

proof fn quiet_rounds_repeat(model: TargetLayoutModel, knowing: Knowing, rounds: nat)
    requires
        names_distinct(knowing.functions),
        consistent(model, knowing),
        !knowing.changed,
        !layout_knowledge::know_round(
            model,
            knowing,
            knowing.functions.len() as int,
        ).changed,
    ensures
        ({
            let next = layout_knowledge::know_round(
                model,
                knowing,
                knowing.functions.len() as int,
            );
            layout_knowledge::know_rounds(model, next, rounds).generated == next.generated
        }),
{
    let n = knowing.functions.len() as int;
    let next = layout_knowledge::know_round(model, knowing, n);
    if rounds > 0 {
        round_known(model, knowing, n);
        let start = Knowing { changed: false, ..next };
        assert(start.functions.len() == n);
        quiet_round_repeats(model, knowing, start, n);
    }
}

/// Whether the slots `new` can stand for the slots `old` of a context: from
/// all that is known of the old contexts, the new slots have members of the
/// same types, and a context with them fits.
pub open spec fn stands_for(
    model: TargetLayoutModel,
    name: Seq<char>,
    new: Seq<SlotView>,
    old: Seq<SlotView>,
    all: Seq<(Seq<char>, TypeLayout)>,
) -> bool {
    match target_layout::generated_layout(all, name, 0) {
        Some(layout) => {
            &&& known_sizes::plainly_shaped(old)
            &&& known_sizes::plainly_shaped(new)
            &&& known_sizes::same_types(old, new)
            &&& match known_sizes::context_type(model, new, all) {
                Some(other) => known_sizes::fits(other, layout, false),
                None => false,
            }
        },
        None => true,
    }
}

/// Whether every context of one list can stand for that of another.
pub open spec fn all_stand_for(
    model: TargetLayoutModel,
    new: Seq<(usize, LayoutView)>,
    old: Seq<(usize, LayoutView)>,
    all: Seq<(Seq<char>, TypeLayout)>,
) -> bool {
    same_names(old, new) && forall|i: int|
        0 <= i < old.len() ==> stands_for(
            model,
            old[i].1.task_type,
            (#[trigger] new[i]).1.slots,
            old[i].1.slots,
            all,
        )
}

proof fn still_stand_for(
    model: TargetLayoutModel,
    new: Seq<(usize, LayoutView)>,
    later_new: Seq<(usize, LayoutView)>,
    old: Seq<(usize, LayoutView)>,
    later_old: Seq<(usize, LayoutView)>,
    all: Seq<(Seq<char>, TypeLayout)>,
)
    requires
        all_stand_for(model, new, old, all),
        layout_knowledge::same_placements(new, later_new),
        layout_knowledge::same_placements(old, later_old),
    ensures
        all_stand_for(model, later_new, later_old, all),
{
    names_kept(new, later_new);
    names_kept(old, later_old);
    assert forall|i: int| 0 <= i < later_old.len() implies stands_for(
        model,
        later_old[i].1.task_type,
        (#[trigger] later_new[i]).1.slots,
        later_old[i].1.slots,
        all,
    ) && later_new[i].1.task_type == later_old[i].1.task_type by {
        assert(later_old[i].1.task_type == old[i].1.task_type);
        assert(new[i].1.task_type == old[i].1.task_type);
        assert(stands_for(model, old[i].1.task_type, new[i].1.slots, old[i].1.slots, all));
    }
}

proof fn rounds_in_step(
    model: TargetLayoutModel,
    old: Knowing,
    new: Knowing,
    all: Seq<(Seq<char>, TypeLayout)>,
    n: int,
)
    requires
        0 <= n <= old.functions.len(),
        names_distinct(old.functions),
        names_distinct(new.functions),
        consistent(model, old),
        consistent(model, new),
        all_stand_for(model, new.functions, old.functions, all),
        known_sizes::types_fit(new.generated, old.generated, false),
        known_sizes::types_fit(
            all,
            layout_knowledge::know_round(model, old, n).generated,
            true,
        ),
    ensures
        known_sizes::types_fit(
            layout_knowledge::know_round(model, new, n).generated,
            layout_knowledge::know_round(model, old, n).generated,
            false,
        ),
    decreases n,
{
    if n > 0 {
        let i = n - 1;
        let a = layout_knowledge::know_round(model, old, i);
        let b = layout_knowledge::know_round(model, new, i);
        round_known(model, old, i);
        round_known(model, new, i);
        names_kept(old.functions, a.functions);
        names_kept(new.functions, b.functions);
        one_known(model, a, i);
        one_known(model, b, i);
        let later_a = layout_knowledge::know_round(model, old, n);
        let later_b = layout_knowledge::know_round(model, new, n);
        fits_twice(a.generated, later_a.generated, all, true, true);
        rounds_in_step(model, old, new, all, i);
        let name = a.functions[i].1.task_type;
        assert(name == old.functions[i].1.task_type);
        assert(new.functions[i].1.task_type == name);
        assert(b.functions[i].1.task_type == name);
        assert(stands_for(
            model,
            name,
            new.functions[i].1.slots,
            old.functions[i].1.slots,
            all,
        ));
        let slots = old.functions[i].1.slots;
        let other = new.functions[i].1.slots;
        assert(a.functions[i].1.slots == slots);
        assert(b.functions[i].1.slots == other);
        let found = known_sizes::context_type(model, slots, a.generated);
        if found is Some {
            assert(target_layout::generated_layout(later_a.generated, name, 0) == found);
            assert(target_layout::generated_layout(all, name, 0) is Some);
            known_sizes::same_types_known_alike(model, slots, other, all, a.generated);
            known_sizes::context_fits(model, other, b.generated, a.generated, false);
        }
        assert forall|word: Seq<char>|
            match #[trigger] target_layout::generated_layout(later_a.generated, word, 0) {
                Some(layout) => match target_layout::generated_layout(
                    later_b.generated,
                    word,
                    0,
                ) {
                    Some(own) => known_sizes::fits(own, layout, false),
                    None => false,
                },
                None => true,
            } by {
            let before = target_layout::generated_layout(a.generated, word, 0);
        }
    }
}

proof fn all_rounds_in_step(
    model: TargetLayoutModel,
    old: Knowing,
    new: Knowing,
    all: Seq<(Seq<char>, TypeLayout)>,
    rounds: nat,
)
    requires
        names_distinct(old.functions),
        names_distinct(new.functions),
        consistent(model, old),
        consistent(model, new),
        all_stand_for(model, new.functions, old.functions, all),
        known_sizes::types_fit(new.generated, old.generated, false),
        known_sizes::types_fit(
            all,
            layout_knowledge::know_rounds(model, old, rounds).generated,
            true,
        ),
    ensures
        known_sizes::types_fit(
            layout_knowledge::know_rounds(model, new, rounds).generated,
            layout_knowledge::know_rounds(model, old, rounds).generated,
            false,
        ),
    decreases rounds,
{
    if rounds > 0 {
        let n = old.functions.len() as int;
        let left = (rounds - 1) as nat;
        let start_old = Knowing { changed: false, ..old };
        let start_new = Knowing { changed: false, ..new };
        let a = layout_knowledge::know_round(model, start_old, n);
        let b = layout_knowledge::know_round(model, start_new, n);
        round_known(model, start_old, n);
        round_known(model, start_new, n);
        names_kept(old.functions, a.functions);
        names_kept(new.functions, b.functions);
        rounds_known(model, a, left);
        rounds_known(model, b, left);
        let end = layout_knowledge::know_rounds(model, old, rounds);
        if a.changed {
            fits_twice(
                a.generated,
                layout_knowledge::know_rounds(model, a, left).generated,
                all,
                true,
                true,
            );
        }
        rounds_in_step(model, start_old, start_new, all, n);
        if a.changed {
            still_stand_for(
                model,
                new.functions,
                b.functions,
                old.functions,
                a.functions,
                all,
            );
            all_rounds_in_step(model, a, b, all, left);
            if !b.changed {
                quiet_rounds_repeat(model, start_new, left);
            }
        } else if b.changed {
            fits_twice(
                a.generated,
                b.generated,
                layout_knowledge::know_rounds(model, b, left).generated,
                false,
                true,
            );
        }
    }
}

proof fn exact_types_are(functions: Seq<(usize, LayoutView)>, n: int, j: int)
    requires
        0 <= n <= functions.len(),
        0 <= j < functions.len(),
        names_distinct(functions),
    ensures
        target_layout::generated_layout(
            size_layout::exact_types(functions, n),
            functions[j].1.task_type,
            0,
        ) == if j < n {
            known_type(functions[j].1)
        } else {
            None
        },
    decreases n,
{
    if n > 0 {
        exact_types_are(functions, n - 1, j);
        let before = size_layout::exact_types(functions, n - 1);
        if let Some(layout) = known_type(functions[n - 1].1) {
            given_layout(
                before,
                functions[n - 1].1.task_type,
                layout,
                functions[j].1.task_type,
                0,
            );
        }
        if j < n - 1 {
            assert(functions[j].1.task_type != functions[n - 1].1.task_type);
        } else if j > n - 1 {
            assert(functions[n - 1].1.task_type != functions[j].1.task_type);
        }
    }
}

/// The contexts after their sizes were computed from nothing.
pub open spec fn sizes_of(model: TargetLayoutModel, functions: Seq<(usize, LayoutView)>) -> Knowing {
    layout_knowledge::know_rounds(
        model,
        Knowing { functions, generated: Seq::empty(), changed: false },
        functions.len() + 1,
    )
}

/// What is known of contexts once their sizes were computed: each known
/// context is what its slots come to from all that is known.
pub proof fn sizes_settled(
    model: TargetLayoutModel,
    functions: Seq<(usize, LayoutView)>,
    i: int,
)
    requires
        names_distinct(functions),
        0 <= i < functions.len(),
    ensures
        ({
            let known = sizes_of(model, functions).functions;
            let all = size_layout::exact_types(known, known.len() as int);
            &&& known.len() == functions.len()
            &&& target_layout::generated_layout(all, known[i].1.task_type, 0) == known_type(
                known[i].1,
            )
            &&& known_type(known[i].1) is Some ==> known_sizes::context_type(
                model,
                known[i].1.slots,
                all,
            ) == known_type(known[i].1)
        }),
{
    let start = Knowing { functions, generated: Seq::empty(), changed: false };
    let end = sizes_of(model, functions);
    let known = end.functions;
    let all = size_layout::exact_types(known, known.len() as int);
    rounds_known(model, start, functions.len() + 1);
    names_kept(functions, known);
    exact_types_are(known, known.len() as int, i);
    all_types_known(model, functions);
    if known_type(known[i].1) is Some {
        assert(known_type(end.functions[i].1) == target_layout::generated_layout(
            end.generated,
            end.functions[i].1.task_type,
            0,
        ));
        known_sizes::context_fits(model, known[i].1.slots, all, end.generated, true);
    }
}

/// Computing sizes keeps the number of contexts.
pub proof fn sizes_counted(model: TargetLayoutModel, functions: Seq<(usize, LayoutView)>)
    ensures
        sizes_of(model, functions).functions.len() == functions.len(),
{
    layout_knowledge::rounds_keep_slots(
        model,
        Knowing { functions, generated: Seq::empty(), changed: false },
        functions.len() + 1,
    );
}

/// Computing sizes keeps names and slots.
pub proof fn sizes_keep_slots(
    model: TargetLayoutModel,
    functions: Seq<(usize, LayoutView)>,
    i: int,
)
    requires
        0 <= i < functions.len(),
    ensures
        sizes_of(model, functions).functions[i].1.task_type == functions[i].1.task_type,
        sizes_of(model, functions).functions[i].1.slots == functions[i].1.slots,
{
    layout_knowledge::rounds_keep_slots(
        model,
        Knowing { functions, generated: Seq::empty(), changed: false },
        functions.len() + 1,
    );
    names_kept(functions, sizes_of(model, functions).functions);
    assert(sizes_of(model, functions).functions[i].0 == functions[i].0);
}

proof fn all_types_known(model: TargetLayoutModel, functions: Seq<(usize, LayoutView)>)
    requires
        names_distinct(functions),
    ensures
        ({
            let end = sizes_of(model, functions);
            known_sizes::types_fit(
                size_layout::exact_types(end.functions, end.functions.len() as int),
                end.generated,
                true,
            )
        }),
{
    let start = Knowing { functions, generated: Seq::empty(), changed: false };
    let end = sizes_of(model, functions);
    let known = end.functions;
    let all = size_layout::exact_types(known, known.len() as int);
    rounds_known(model, start, functions.len() + 1);
    names_kept(functions, known);
    assert forall|name: Seq<char>|
        match #[trigger] target_layout::generated_layout(end.generated, name, 0) {
            Some(layout) => match target_layout::generated_layout(all, name, 0) {
                Some(other) => known_sizes::fits(other, layout, true),
                None => false,
            },
            None => true,
        } by {
        if target_layout::generated_layout(end.generated, name, 0) is Some {
            let k = choose|k: int|
                0 <= k < known.len() && (#[trigger] known[k]).1.task_type == name;
            exact_types_are(known, known.len() as int, k);
        }
    }
}

/// Where contexts stand for others of known sizes, their own sizes are known
/// too, and none is larger.
pub proof fn standing_contexts_are_no_larger(
    model: TargetLayoutModel,
    old: Seq<(usize, LayoutView)>,
    new: Seq<(usize, LayoutView)>,
    i: int,
)
    requires
        names_distinct(old),
        ({
            let known = sizes_of(model, old).functions;
            all_stand_for(
                model,
                new,
                old,
                size_layout::exact_types(known, known.len() as int),
            )
        }),
        0 <= i < old.len(),
    ensures
        match known_type(sizes_of(model, old).functions[i].1) {
            Some(layout) => match known_type(sizes_of(model, new).functions[i].1) {
                Some(other) => known_sizes::fits(other, layout, false),
                None => false,
            },
            None => true,
        },
{
    let start_old = Knowing { functions: old, generated: Seq::empty(), changed: false };
    let start_new = Knowing { functions: new, generated: Seq::empty(), changed: false };
    let rounds = old.len() + 1;
    let end_old = sizes_of(model, old);
    let end_new = sizes_of(model, new);
    let all = size_layout::exact_types(end_old.functions, end_old.functions.len() as int);
    assert forall|a: int, b: int| 0 <= a < b < new.len() implies (#[trigger] new[a]).1.task_type
        != (#[trigger] new[b]).1.task_type by {
        assert(old[a].1.task_type != old[b].1.task_type);
    }
    rounds_known(model, start_old, rounds);
    rounds_known(model, start_new, rounds);
    names_kept(old, end_old.functions);
    names_kept(new, end_new.functions);
    all_types_known(model, old);
    all_rounds_in_step(model, start_old, start_new, all, rounds);
    let name = end_old.functions[i].1.task_type;
    assert(name == old[i].1.task_type);
    assert(new[i].1.task_type == name);
    assert(end_new.functions[i].1.task_type == name);
    assert(match target_layout::generated_layout(end_old.generated, name, 0) {
        Some(layout) => target_layout::generated_layout(end_new.generated, name, 0) is Some,
        None => true,
    });
}

} // verus!
