//! Built context layouts pass the check of context layouts.

use vstd::prelude::*;

use crate::c_static_plan::FunctionPlanView;
use crate::context_layout;
use crate::context_layout::{
    Building, LayoutView, LogicalFieldId, MemberView, PathView, PhysicalSlotId, PhysicalSlotKind,
    PlacementView, SlotView, UnionMemberId,
};
use crate::identity_layout;
use crate::layout_check;
use crate::liveness::LivenessFunction;
use crate::order;
use crate::slot_liveness::SlotLivenessFunction;

verus! {

/// Whether slot `s` has a member `m`.
pub open spec fn has_member(slots: Seq<SlotView>, s: int, m: int) -> bool {
    0 <= s < slots.len() && 0 <= m < slots[s].members.len()
}

/// Where member `m` of slot `s` is found.
pub open spec fn placement_of(slots: Seq<SlotView>, s: int, m: int) -> PlacementView {
    PlacementView {
        slot: PhysicalSlotId(s as u32),
        member: UnionMemberId(m as u32),
        access_path: match slots[s].kind {
            PhysicalSlotKind::Direct => PathView::Direct { field: slots[s].members[m].c_name },
            PhysicalSlotKind::Union => PathView::UnionMember {
                slot: slots[s].c_name,
                member: slots[s].members[m].c_name,
            },
        },
    }
}

/// Whether a field is a member of a slot.
pub open spec fn holds(slots: Seq<SlotView>, field: LogicalFieldId) -> bool {
    exists|s: int, m: int| #[trigger]
        has_member(slots, s, m) && slots[s].members[m].logical == field
}

/// Whether the slots have their shapes, and every member is found where it is.
pub open spec fn well_placed(building: Building) -> bool {
    &&& order::ascending(building.fields)
    &&& forall|s: int|
        0 <= s < building.slots.len() ==> layout_check::well_shaped(
            #[trigger] building.slots[s],
            s,
        )
    &&& forall|s: int, m: int| #[trigger]
        has_member(building.slots, s, m) ==> building.slots[s].members[m].id == UnionMemberId(
            m as u32,
        ) && order::lookup(building.fields, building.slots[s].members[m].logical) == Some(
            placement_of(building.slots, s, m),
        )
}

/// Whether every field with a placement is a member of a slot.
pub open spec fn all_held(building: Building) -> bool {
    forall|field: LogicalFieldId|
        (#[trigger] order::lookup(building.fields, field)) is Some ==> holds(building.slots, field)
}

/// Whether no two members are for one field.
pub open spec fn members_distinct(members: Seq<MemberView>) -> bool {
    forall|i: int, j: int|
        0 <= i < j < members.len() ==> (#[trigger] members[i]).logical != (
        #[trigger] members[j]).logical
}

/// Whether a field is among several members.
pub open spec fn listed(members: Seq<MemberView>, field: LogicalFieldId) -> bool {
    exists|i: int| 0 <= i < members.len() && (#[trigger] members[i]).logical == field
}

/// A field with a slot of its own is found there, and the others where they
/// were.
pub proof fn direct_well_placed(building: Building, member: MemberView)
    requires
        well_placed(building),
        !holds(building.slots, member.logical),
    ensures
        well_placed(context_layout::with_direct(building, member)),
        forall|field: LogicalFieldId| #[trigger]
            holds(context_layout::with_direct(building, member).slots, field) <==> holds(
                building.slots,
                field,
            ) || field == member.logical,
        forall|field: LogicalFieldId|
            (#[trigger] order::lookup(
                context_layout::with_direct(building, member).fields,
                field,
            )) is Some <==> order::lookup(building.fields, field) is Some || field
                == member.logical,
        context_layout::with_direct(building, member).fields.len() == if order::lookup(
            building.fields,
            member.logical,
        ) is Some {
            building.fields.len()
        } else {
            building.fields.len() + 1
        },
{
    let after = context_layout::with_direct(building, member);
    order::key_point_bounds(building.fields, member.logical, 0);
    let n = building.slots.len() as int;
    let value = placement_of(after.slots, n, 0);
    assert(after.fields == order::put(building.fields, member.logical, value));
    assert forall|field: LogicalFieldId|
        order::lookup(after.fields, field) == (if field == member.logical {
            Some(value)
        } else {
            #[trigger] order::lookup(building.fields, field)
        }) by {
        order::put_ascending(building.fields, member.logical, value, field);
    }
    order::put_ascending(building.fields, member.logical, value, member.logical);
    assert forall|s: int, m: int| #[trigger] has_member(after.slots, s, m) implies {
        &&& after.slots[s].members[m].id == UnionMemberId(m as u32)
        &&& order::lookup(after.fields, after.slots[s].members[m].logical) == Some(
            placement_of(after.slots, s, m),
        )
    } by {
        if s < n {
            assert(has_member(building.slots, s, m));
            assert(after.slots[s] == building.slots[s]);
            let field = building.slots[s].members[m].logical;
            assert(order::lookup(building.fields, field) == Some(
                placement_of(building.slots, s, m),
            ));
        }
    }
    assert forall|s: int| 0 <= s < after.slots.len() implies layout_check::well_shaped(
        #[trigger] after.slots[s],
        s,
    ) by {
        if s < n {
            assert(after.slots[s] == building.slots[s]);
        }
    }
    assert forall|field: LogicalFieldId| #[trigger] holds(after.slots, field) <==> holds(
        building.slots,
        field,
    ) || field == member.logical by {
        if holds(after.slots, field) {
            let (s, m) = choose|s: int, m: int| #[trigger]
                has_member(after.slots, s, m) && after.slots[s].members[m].logical == field;
            if s < n {
                assert(has_member(building.slots, s, m));
                assert(after.slots[s] == building.slots[s]);
            }
        }
        if holds(building.slots, field) {
            let (s, m) = choose|s: int, m: int| #[trigger]
                has_member(building.slots, s, m) && building.slots[s].members[m].logical == field;
            assert(after.slots[s] == building.slots[s]);
            assert(has_member(after.slots, s, m));
        }
        if field == member.logical {
            assert(has_member(after.slots, n, 0));
        }
    }
}

proof fn union_placements_found(
    fields: Seq<(LogicalFieldId, PlacementView)>,
    slot: PhysicalSlotId,
    name: Seq<char>,
    members: Seq<MemberView>,
    n: int,
)
    requires
        order::ascending(fields),
        members_distinct(members),
        0 <= n <= members.len(),
    ensures
        order::ascending(context_layout::union_placements(fields, slot, name, members, n)),
        forall|i: int|
            0 <= i < n ==> order::lookup(
                context_layout::union_placements(fields, slot, name, members, n),
                (#[trigger] members[i]).logical,
            ) == Some(
                PlacementView {
                    slot,
                    member: UnionMemberId(i as u32),
                    access_path: PathView::UnionMember { slot: name, member: members[i].c_name },
                },
            ),
        forall|field: LogicalFieldId|
            !listed(members.take(n), field) ==> #[trigger] order::lookup(
                context_layout::union_placements(fields, slot, name, members, n),
                field,
            ) == order::lookup(fields, field),
        (forall|i: int|
            0 <= i < n ==> order::lookup(fields, (#[trigger] members[i]).logical) is Some)
            ==> context_layout::union_placements(fields, slot, name, members, n).len()
            == fields.len(),
    decreases n,
{
    if n > 0 {
        union_placements_found(fields, slot, name, members, n - 1);
        let before = context_layout::union_placements(fields, slot, name, members, n - 1);
        let after = context_layout::union_placements(fields, slot, name, members, n);
        let key = members[n - 1].logical;
        let value = PlacementView {
            slot,
            member: UnionMemberId((n - 1) as u32),
            access_path: PathView::UnionMember { slot: name, member: members[n - 1].c_name },
        };
        order::put_ascending(before, key, value, key);
        order::key_point_bounds(before, key, 0);
        assert(order::lookup(before, key) == order::lookup(fields, key)) by {
            assert forall|i: int| 0 <= i < members.take(n - 1).len() implies (
            #[trigger] members.take(n - 1)[i]).logical != key by {
                assert(members[i].logical != members[n - 1].logical);
            }
            assert(!listed(members.take(n - 1), key));
        }
        assert forall|i: int| 0 <= i < n implies order::lookup(
            after,
            (#[trigger] members[i]).logical,
        ) == Some(
            PlacementView {
                slot,
                member: UnionMemberId(i as u32),
                access_path: PathView::UnionMember { slot: name, member: members[i].c_name },
            },
        ) by {
            order::put_ascending(before, key, value, members[i].logical);
            if i < n - 1 {
                assert(members[i].logical != members[n - 1].logical);
            }
        }
        assert forall|field: LogicalFieldId| !listed(members.take(n), field) implies #[trigger]
        order::lookup(after, field) == order::lookup(fields, field) by {
            order::put_ascending(before, key, value, field);
            assert(members.take(n)[n - 1].logical == key);
            assert forall|i: int| 0 <= i < members.take(n - 1).len() implies (
            #[trigger] members.take(n - 1)[i]).logical != field by {
                assert(members.take(n)[i] == members.take(n - 1)[i]);
            }
            assert(!listed(members.take(n - 1), field));
        }
    }
}

/// Fields that share a slot are found there, and the others where they were.
pub proof fn union_well_placed(building: Building, members: Seq<MemberView>, name: Seq<char>)
    requires
        well_placed(building),
        members.len() >= 2,
        members_distinct(members),
        forall|i: int|
            0 <= i < members.len() ==> !holds(building.slots, (#[trigger] members[i]).logical),
    ensures
        well_placed(context_layout::with_union(building, members, name)),
        forall|field: LogicalFieldId| #[trigger]
            holds(context_layout::with_union(building, members, name).slots, field) <==> holds(
                building.slots,
                field,
            ) || listed(members, field),
        forall|field: LogicalFieldId|
            (#[trigger] order::lookup(
                context_layout::with_union(building, members, name).fields,
                field,
            )) is Some <==> order::lookup(building.fields, field) is Some || listed(
                members,
                field,
            ),
        (forall|i: int|
            0 <= i < members.len() ==> order::lookup(
                building.fields,
                (#[trigger] members[i]).logical,
            ) is Some) ==> context_layout::with_union(building, members, name).fields.len()
            == building.fields.len(),
{
    let after = context_layout::with_union(building, members, name);
    let n = building.slots.len() as int;
    let slot = PhysicalSlotId(n as u32);
    union_placements_found(building.fields, slot, name, members, members.len() as int);
    assert(members.take(members.len() as int) =~= members);
    assert forall|s: int, m: int| #[trigger] has_member(after.slots, s, m) implies {
        &&& after.slots[s].members[m].id == UnionMemberId(m as u32)
        &&& order::lookup(after.fields, after.slots[s].members[m].logical) == Some(
            placement_of(after.slots, s, m),
        )
    } by {
        if s < n {
            assert(has_member(building.slots, s, m));
            assert(after.slots[s] == building.slots[s]);
            let field = building.slots[s].members[m].logical;
            assert(holds(building.slots, field));
            assert(!listed(members, field));
            assert(order::lookup(after.fields, field) == order::lookup(building.fields, field));
        } else {
            assert(after.slots[s].members[m].logical == members[m].logical);
        }
    }
    assert forall|s: int| 0 <= s < after.slots.len() implies layout_check::well_shaped(
        #[trigger] after.slots[s],
        s,
    ) by {
        if s < n {
            assert(after.slots[s] == building.slots[s]);
        }
    }
    assert forall|field: LogicalFieldId| #[trigger] holds(after.slots, field) <==> holds(
        building.slots,
        field,
    ) || listed(members, field) by {
        if holds(after.slots, field) {
            let (s, m) = choose|s: int, m: int| #[trigger]
                has_member(after.slots, s, m) && after.slots[s].members[m].logical == field;
            if s < n {
                assert(has_member(building.slots, s, m));
                assert(after.slots[s] == building.slots[s]);
            } else {
                assert(members[m].logical == field);
            }
        }
        if holds(building.slots, field) {
            let (s, m) = choose|s: int, m: int| #[trigger]
                has_member(building.slots, s, m) && building.slots[s].members[m].logical == field;
            assert(after.slots[s] == building.slots[s]);
            assert(has_member(after.slots, s, m));
        }
        if listed(members, field) {
            let i = choose|i: int| 0 <= i < members.len() && (#[trigger] members[i]).logical
                == field;
            assert(has_member(after.slots, n, i));
        }
    }
    assert forall|field: LogicalFieldId|
        (#[trigger] order::lookup(after.fields, field)) is Some <==> order::lookup(
            building.fields,
            field,
        ) is Some || listed(members, field) by {
        if listed(members, field) {
            let i = choose|i: int| 0 <= i < members.len() && (#[trigger] members[i]).logical
                == field;
            assert(order::lookup(after.fields, members[i].logical) is Some);
        }
    }
}

/// Numbers below a bound that differ are no more than the bound.
proof fn distinct_numbers_fit(numbers: Seq<int>, bound: nat)
    requires
        numbers.no_duplicates(),
        forall|i: int| 0 <= i < numbers.len() ==> 0 <= #[trigger] numbers[i] < bound,
    ensures
        numbers.len() <= bound,
{
    numbers.unique_seq_to_set();
    vstd::set_lib::lemma_int_range(0, bound as int);
    let all = vstd::set_lib::set_int_range(0, bound as int);
    assert(numbers.to_set().subset_of(all)) by {
        assert forall|x: int| numbers.to_set().contains(x) implies all.contains(x) by {
            assert(numbers.contains(x));
        }
    }
    vstd::set_lib::lemma_len_subset(numbers.to_set(), all);
}

/// Where the placement of a member stands among the placements.
spec fn position_of(building: Building, s: int, m: int) -> int {
    order::key_point(building.fields, building.slots[s].members[m].logical, 0)
}

proof fn position_found(building: Building, s: int, m: int)
    requires
        well_placed(building),
        has_member(building.slots, s, m),
    ensures
        0 <= position_of(building, s, m) < building.fields.len(),
        building.fields[position_of(building, s, m)].1 == placement_of(building.slots, s, m),
{
    order::key_point_bounds(building.fields, building.slots[s].members[m].logical, 0);
}

/// There are no more slots, nor members of a slot, than placements.
pub proof fn slots_fit(building: Building)
    requires
        well_placed(building),
        building.fields.len() <= u32::MAX,
    ensures
        building.slots.len() <= building.fields.len(),
        forall|s: int|
            0 <= s < building.slots.len() ==> (#[trigger] building.slots[s]).members.len()
                <= building.fields.len(),
{
    let bound = building.fields.len();
    if building.slots.len() > bound {
        let numbers = Seq::new(bound + 1, |s: int| position_of(building, s, 0));
        assert forall|s: int| 0 <= s <= bound implies has_member(building.slots, s, 0) by {
            assert(layout_check::well_shaped(building.slots[s], s));
        }
        assert forall|i: int| 0 <= i < numbers.len() implies 0 <= #[trigger] numbers[i]
            < bound by {
            position_found(building, i, 0);
        }
        assert forall|i: int, j: int| 0 <= i < j < numbers.len() implies numbers[i]
            != numbers[j] by {
            position_found(building, i, 0);
            position_found(building, j, 0);
        }
        distinct_numbers_fit(numbers, bound);
    }
    assert forall|s: int| 0 <= s < building.slots.len() implies (
    #[trigger] building.slots[s]).members.len() <= bound by {
        if building.slots[s].members.len() > bound {
            let numbers = Seq::new(bound + 1, |m: int| position_of(building, s, m));
            assert forall|m: int| 0 <= m <= bound implies has_member(building.slots, s, m) by {}
            assert forall|i: int| 0 <= i < numbers.len() implies 0 <= #[trigger] numbers[i]
                < bound by {
                position_found(building, s, i);
            }
            assert forall|i: int, j: int| 0 <= i < j < numbers.len() implies numbers[i]
                != numbers[j] by {
                position_found(building, s, i);
                position_found(building, s, j);
            }
            distinct_numbers_fit(numbers, bound);
        }
    }
}

/// Whether the members of a slot can share it: each holds a value only for
/// some of the time, and no two at the same time.
pub open spec fn slot_shares(
    slot: SlotView,
    plan: Option<FunctionPlanView>,
    function: LivenessFunction,
    lifetimes: SlotLivenessFunction,
) -> bool {
    &&& slot.kind == PhysicalSlotKind::Union ==> layout_check::all_shareable(
        slot.members,
        plan,
        function,
    )
    &&& members_apart(slot.members, plan, function, lifetimes)
}

/// Whether no two members hold values at the same time.
pub open spec fn members_apart(
    members: Seq<MemberView>,
    plan: Option<FunctionPlanView>,
    function: LivenessFunction,
    lifetimes: SlotLivenessFunction,
) -> bool {
    forall|i: int, j: int|
        0 <= i < j < members.len() ==> !layout_check::members_clash(
            #[trigger] members[i],
            #[trigger] members[j],
            plan,
            function,
            lifetimes,
        )
}

/// The slots and placements of a layout.
pub open spec fn building_in(layout: LayoutView) -> Building {
    Building { slots: layout.slots, fields: layout.fields }
}

/// Whether a layout is sound: every member is found where it is, every field
/// is a member, and fields that hold values at the same time stand apart.
pub open spec fn layout_sound(
    layout: LayoutView,
    plan: Option<FunctionPlanView>,
    function: LivenessFunction,
    lifetimes: SlotLivenessFunction,
) -> bool {
    &&& well_placed(building_in(layout))
    &&& all_held(building_in(layout))
    &&& forall|s: int|
        0 <= s < layout.slots.len() ==> slot_shares(
            #[trigger] layout.slots[s],
            plan,
            function,
            lifetimes,
        )
}

/// Whether a layout places every field that another one places.
pub open spec fn places_all(
    fields: Seq<(LogicalFieldId, PlacementView)>,
    expected: Seq<(LogicalFieldId, PlacementView)>,
) -> bool {
    forall|field: LogicalFieldId|
        order::lookup(expected, field) is Some ==> (#[trigger] order::lookup(
            fields,
            field,
        )) is Some
}

proof fn nothing_missing(
    found: Seq<crate::syntax::DiagnosticView>,
    expected: Seq<(LogicalFieldId, PlacementView)>,
    actual: Seq<(LogicalFieldId, PlacementView)>,
    span: crate::syntax::SourceSpan,
    n: int,
)
    requires
        order::ascending(expected),
        places_all(actual, expected),
        n <= expected.len(),
    ensures
        layout_check::missing_fields(found, expected, actual, span, n) == found,
    decreases n,
{
    if n > 0 {
        nothing_missing(found, expected, actual, span, n - 1);
        order::lookup_finds(expected, expected[n - 1].0);
        assert(order::lookup(actual, expected[n - 1].0) is Some);
    }
}

proof fn no_shape_wrong(
    found: Seq<crate::syntax::DiagnosticView>,
    building: Building,
    span: crate::syntax::SourceSpan,
    n: int,
)
    requires
        well_placed(building),
        n <= building.slots.len(),
    ensures
        layout_check::shape_problems(found, building.slots, span, n) == found,
    decreases n,
{
    if n > 0 {
        no_shape_wrong(found, building, span, n - 1);
        assert(layout_check::well_shaped(building.slots[n - 1], n - 1));
    }
}

proof fn member_at_finds(members: Seq<MemberView>, m: int, i: int)
    requires
        0 <= i <= m < members.len() <= u32::MAX,
        forall|k: int| 0 <= k < members.len() ==> (#[trigger] members[k]).id == UnionMemberId(
            k as u32,
        ),
    ensures
        layout_check::member_at(members, UnionMemberId(m as u32), members[m].logical, i) == Some(
            members[m],
        ),
    decreases m - i,
{
    if i < m {
        assert(members[i].id != members[m].id);
        member_at_finds(members, m, i + 1);
    }
}

proof fn no_placement_wrong(
    found: Seq<crate::syntax::DiagnosticView>,
    building: Building,
    span: crate::syntax::SourceSpan,
    n: int,
)
    requires
        well_placed(building),
        all_held(building),
        building.fields.len() <= u32::MAX,
        n <= building.fields.len(),
    ensures
        layout_check::placement_problems(found, building.slots, building.fields, span, n) == found,
    decreases n,
{
    if n > 0 {
        no_placement_wrong(found, building, span, n - 1);
        let field = building.fields[n - 1].0;
        order::lookup_finds(building.fields, field);
        assert(order::lookup(building.fields, field) == Some(building.fields[n - 1].1));
        assert(holds(building.slots, field));
        let (s, m) = choose|s: int, m: int| #[trigger]
            has_member(building.slots, s, m) && building.slots[s].members[m].logical == field;
        slots_fit(building);
        let slot = building.slots[s];
        assert(building.fields[n - 1].1 == placement_of(building.slots, s, m));
        assert forall|k: int| 0 <= k < slot.members.len() implies (
        #[trigger] slot.members[k]).id == UnionMemberId(k as u32) by {
            assert(has_member(building.slots, s, k));
        }
        member_at_finds(slot.members, m, 0);
    }
}

proof fn no_pair_clashes(
    found: Seq<crate::syntax::DiagnosticView>,
    members: Seq<MemberView>,
    plan: Option<FunctionPlanView>,
    function: LivenessFunction,
    lifetimes: SlotLivenessFunction,
    i: int,
    n: int,
)
    requires
        members_apart(members, plan, function, lifetimes),
        0 <= i,
        n <= members.len(),
    ensures
        layout_check::clashes_with(found, members, plan, function, lifetimes, i, n) == found,
    decreases n - i,
{
    if n > i + 1 {
        no_pair_clashes(found, members, plan, function, lifetimes, i, n - 1);
        assert(!layout_check::members_clash(
            members[i],
            members[n - 1],
            plan,
            function,
            lifetimes,
        ));
    }
}

proof fn no_member_clashes(
    found: Seq<crate::syntax::DiagnosticView>,
    members: Seq<MemberView>,
    plan: Option<FunctionPlanView>,
    function: LivenessFunction,
    lifetimes: SlotLivenessFunction,
    n: int,
)
    requires
        members_apart(members, plan, function, lifetimes),
        n <= members.len(),
    ensures
        layout_check::member_clashes(found, members, plan, function, lifetimes, n) == found,
    decreases n,
{
    if n > 0 {
        no_member_clashes(found, members, plan, function, lifetimes, n - 1);
        no_pair_clashes(
            found,
            members,
            plan,
            function,
            lifetimes,
            n - 1,
            members.len() as int,
        );
    }
}

/// Slots whose members can share them give no problem.
pub proof fn no_sharing_wrong(
    found: Seq<crate::syntax::DiagnosticView>,
    slots: Seq<SlotView>,
    plan: Option<FunctionPlanView>,
    function: LivenessFunction,
    lifetimes: SlotLivenessFunction,
    n: int,
)
    requires
        forall|s: int|
            0 <= s < slots.len() ==> slot_shares(
                #[trigger] slots[s],
                plan,
                function,
                lifetimes,
            ),
        n <= slots.len(),
    ensures
        layout_check::sharing_problems(found, slots, plan, function, lifetimes, n) == found,
    decreases n,
{
    if n > 0 {
        no_sharing_wrong(found, slots, plan, function, lifetimes, n - 1);
        assert(slot_shares(slots[n - 1], plan, function, lifetimes));
        let members = slots[n - 1].members;
        no_member_clashes(found, members, plan, function, lifetimes, members.len() as int);
    }
}

/// The check finds nothing in a sound layout that places what it should.
pub proof fn sound_layouts_pass(
    found: Seq<crate::syntax::DiagnosticView>,
    expected: Seq<(LogicalFieldId, PlacementView)>,
    layout: LayoutView,
    plan: Option<FunctionPlanView>,
    function: LivenessFunction,
    lifetimes: SlotLivenessFunction,
)
    requires
        layout_sound(layout, plan, function, lifetimes),
        order::ascending(expected),
        places_all(layout.fields, expected),
        layout.fields.len() <= u32::MAX,
    ensures
        layout_check::layout_problems_of(
            found,
            expected,
            layout,
            plan,
            function,
            Some(lifetimes),
        ) == found,
{
    let span = function.coroutine.cfg.span;
    let building = building_in(layout);
    nothing_missing(found, expected, layout.fields, span, expected.len() as int);
    no_shape_wrong(found, building, span, layout.slots.len() as int);
    no_placement_wrong(found, building, span, layout.fields.len() as int);
    no_sharing_wrong(found, layout.slots, plan, function, lifetimes, layout.slots.len() as int);
}

/// The check finds nothing in a layout in which every field stands alone, for
/// whatever function.
pub proof fn lone_layouts_pass(
    found: Seq<crate::syntax::DiagnosticView>,
    expected: Seq<(LogicalFieldId, PlacementView)>,
    layout: LayoutView,
    plan: Option<FunctionPlanView>,
    function: LivenessFunction,
    lifetimes: Option<SlotLivenessFunction>,
)
    requires
        well_placed(building_in(layout)),
        all_held(building_in(layout)),
        all_alone(layout.slots),
        order::ascending(expected),
        places_all(layout.fields, expected),
        layout.fields.len() <= u32::MAX,
    ensures
        layout_check::layout_problems_of(
            found,
            expected,
            layout,
            plan,
            function,
            lifetimes,
        ) == found,
{
    let span = function.coroutine.cfg.span;
    let building = building_in(layout);
    let n = layout.slots.len() as int;
    nothing_missing(found, expected, layout.fields, span, expected.len() as int);
    no_shape_wrong(found, building, span, n);
    no_placement_wrong(found, building, span, layout.fields.len() as int);
    if let Some(own) = lifetimes {
        assert forall|s: int| 0 <= s < n implies slot_shares(
            #[trigger] layout.slots[s],
            plan,
            function,
            own,
        ) by {
            assert(layout.slots[s].members.len() == 1);
        }
        no_sharing_wrong(found, layout.slots, plan, function, own, n);
    }
}

/// Placing every field alone is sound.
pub proof fn identity_sound(
    function: LivenessFunction,
    plan: Option<FunctionPlanView>,
    lifetimes: SlotLivenessFunction,
)
    requires
        identity_layout::fields_distinct(identity_layout::context_fields(function, plan)),
    ensures
        layout_sound(
            identity_layout::identity_layout(function, plan),
            plan,
            function,
            lifetimes,
        ),
        identity_layout::identity_layout(function, plan).fields.len()
            <= identity_layout::context_fields(function, plan).len(),
        all_alone(identity_layout::identity_layout(function, plan).slots),
{
    let fields = identity_layout::context_fields(function, plan);
    direct_sound(fields, fields.len() as int);
    let layout = identity_layout::identity_layout(function, plan);
    assert forall|s: int| 0 <= s < layout.slots.len() implies slot_shares(
        #[trigger] layout.slots[s],
        plan,
        function,
        lifetimes,
    ) by {
        assert(layout.slots[s].members.len() == 1);
    }
    assert(building_in(layout) == identity_layout::placed_directly(fields, fields.len() as int));
}

/// Whether every slot has one member.
pub open spec fn all_alone(slots: Seq<SlotView>) -> bool {
    forall|s: int|
        0 <= s < slots.len() ==> (#[trigger] slots[s]).kind == PhysicalSlotKind::Direct
            && slots[s].members.len() == 1
}

proof fn direct_sound(fields: Seq<crate::identity_layout::FieldView>, n: int)
    requires
        identity_layout::fields_distinct(fields),
        n <= fields.len(),
    ensures
        well_placed(identity_layout::placed_directly(fields, n)),
        all_held(identity_layout::placed_directly(fields, n)),
        all_alone(identity_layout::placed_directly(fields, n).slots),
        forall|field: LogicalFieldId| #[trigger]
            holds(identity_layout::placed_directly(fields, n).slots, field) ==> exists|i: int|
                0 <= i < n && (#[trigger] fields[i]).logical == field,
        n >= 0 ==> identity_layout::placed_directly(fields, n).fields.len() <= n,
    decreases n,
{
    let after = identity_layout::placed_directly(fields, n);
    if n > 0 {
        direct_sound(fields, n - 1);
        let before = identity_layout::placed_directly(fields, n - 1);
        let member = identity_layout::member_of(fields[n - 1]);
        assert(!holds(before.slots, member.logical));
        direct_well_placed(before, member);
        assert forall|s: int| 0 <= s < after.slots.len() implies (
        #[trigger] after.slots[s]).kind == PhysicalSlotKind::Direct
            && after.slots[s].members.len() == 1 by {
            if s < n - 1 {
                assert(s < before.slots.len() ==> after.slots[s] == before.slots[s]);
            }
        }
        assert forall|field: LogicalFieldId| #[trigger]
            holds(after.slots, field) implies exists|i: int|
            0 <= i < n && (#[trigger] fields[i]).logical == field by {
            if field == member.logical {
                assert(fields[n - 1].logical == field);
            } else {
                assert(holds(before.slots, field));
            }
        }
    } else {
        assert forall|field: LogicalFieldId| !(#[trigger] holds(after.slots, field)) by {}
        assert forall|field: LogicalFieldId|
            (#[trigger] order::lookup(after.fields, field)) is None by {}
    }
}

/// A context in which every field stands alone places all fields of the
/// context.
pub proof fn identity_places(
    function: LivenessFunction,
    plan: Option<FunctionPlanView>,
    field: LogicalFieldId,
)
    requires
        identity_layout::fields_distinct(identity_layout::context_fields(function, plan)),
        exists|i: int|
            0 <= i < identity_layout::context_fields(function, plan).len() && (
            #[trigger] identity_layout::context_fields(function, plan)[i]).logical == field,
    ensures
        order::lookup(identity_layout::identity_layout(function, plan).fields, field) is Some,
        order::ascending(identity_layout::identity_layout(function, plan).fields),
{
    let fields = identity_layout::context_fields(function, plan);
    let i = choose|i: int| 0 <= i < fields.len() && (#[trigger] fields[i]).logical == field;
    direct_places(fields, fields.len() as int, i);
    direct_sound(fields, fields.len() as int);
}

proof fn direct_places(fields: Seq<crate::identity_layout::FieldView>, n: int, i: int)
    requires
        identity_layout::fields_distinct(fields),
        0 <= i < n <= fields.len(),
    ensures
        order::lookup(
            identity_layout::placed_directly(fields, n).fields,
            fields[i].logical,
        ) is Some,
    decreases n,
{
    direct_sound(fields, n - 1);
    let before = identity_layout::placed_directly(fields, n - 1);
    let member = identity_layout::member_of(fields[n - 1]);
    assert(!holds(before.slots, member.logical));
    direct_well_placed(before, member);
    if i < n - 1 {
        direct_places(fields, n - 1, i);
    }
}

} // verus!
