//! Sharing storage for speed keeps context layouts sound.

use vstd::prelude::*;

use crate::c_static_plan::FunctionPlanView;
use crate::context_layout;
use crate::context_layout::{Building, LayoutView, LogicalFieldId, SlotView};
use crate::identity_layout;
use crate::layout_check;
use crate::layout_passes;
use crate::layout_soundness;
use crate::liveness::LivenessFunction;
use crate::order;
use crate::slot_liveness::SlotLivenessFunction;
use crate::speed_layout;
use crate::speed_layout::{CandidateView, Merging};
use crate::storage_lifetimes;

verus! {

/// Whether no two slots begin with members for one field.
pub open spec fn slots_distinct(slots: Seq<SlotView>) -> bool {
    forall|s: int, t: int|
        0 <= s < t < slots.len() ==> (#[trigger] slots[s]).members[0].logical != (
        #[trigger] slots[t]).members[0].logical
}

/// Whether a field is the first member of one of the first `n` slots.
pub open spec fn first_in(slots: Seq<SlotView>, field: LogicalFieldId, n: int) -> bool {
    exists|s: int| 0 <= s < n && (#[trigger] slots[s]).members[0].logical == field
}

proof fn candidates_known(
    slots: Seq<SlotView>,
    plan: Option<FunctionPlanView>,
    lifetimes: SlotLivenessFunction,
    n: int,
)
    requires
        slots_distinct(slots),
        0 <= n <= slots.len(),
    ensures
        speed_layout::candidates_of(slots, plan, lifetimes, n).len() <= n,
        forall|c: int|
            0 <= c < speed_layout::candidates_of(slots, plan, lifetimes, n).len() ==> first_in(
                slots,
                (#[trigger] speed_layout::candidates_of(
                    slots,
                    plan,
                    lifetimes,
                    n,
                )[c]).member.logical,
                n,
            ),
        candidates_ok(speed_layout::candidates_of(slots, plan, lifetimes, n), plan),
    decreases n,
{
    let after = speed_layout::candidates_of(slots, plan, lifetimes, n);
    if n > 0 {
        candidates_known(slots, plan, lifetimes, n - 1);
        let before = speed_layout::candidates_of(slots, plan, lifetimes, n - 1);
        let field = slots[n - 1].members[0].logical;
        assert forall|c: int| 0 <= c < after.len() implies first_in(
            slots,
            (#[trigger] after[c]).member.logical,
            n,
        ) by {
            if c < before.len() {
                assert(after[c] == before[c]);
                assert(first_in(slots, before[c].member.logical, n - 1));
            } else {
                assert(slots[n - 1].members[0].logical == field);
            }
        }
        assert forall|c: int| 0 <= c < before.len() implies (
        #[trigger] before[c]).member.logical != field by {
            assert(first_in(slots, before[c].member.logical, n - 1));
        }
        assert forall|c: int| 0 <= c < after.len() implies storage_lifetimes::storage_of(
            (#[trigger] after[c]).member.logical,
            plan,
        ) == Some(after[c].storage) by {
            if c < before.len() {
                assert(after[c] == before[c]);
            }
        }
        assert forall|c: int, d: int| 0 <= c < d < after.len() implies (
        #[trigger] after[c]).member.logical != (#[trigger] after[d]).member.logical by {
            assert(after[c] == before[c]);
            if d < before.len() {
                assert(after[d] == before[d]);
            }
        }
    }
}

/// Whether candidates are for different fields, each with the storage of its
/// field.
pub open spec fn candidates_ok(
    candidates: Seq<CandidateView>,
    plan: Option<FunctionPlanView>,
) -> bool {
    &&& forall|c: int|
        0 <= c < candidates.len() ==> storage_lifetimes::storage_of(
            (#[trigger] candidates[c]).member.logical,
            plan,
        ) == Some(candidates[c].storage)
    &&& forall|c: int, d: int|
        0 <= c < d < candidates.len() ==> (#[trigger] candidates[c]).member.logical != (
        #[trigger] candidates[d]).member.logical
}

/// Whether a group lists some of the first `n` candidates in ascending order,
/// none of which holds a value while another does.
pub open spec fn group_ok(
    candidates: Seq<CandidateView>,
    lifetimes: SlotLivenessFunction,
    group: Seq<usize>,
    n: int,
) -> bool {
    &&& group.len() > 0
    &&& forall|k: int| 0 <= k < group.len() ==> #[trigger] group[k] < n
    &&& forall|j: int, k: int|
        0 <= j < k < group.len() ==> #[trigger] group[j] < #[trigger] group[k]
    &&& forall|j: int, k: int|
        0 <= j < k < group.len() ==> !storage_lifetimes::storages_clash(
            lifetimes,
            candidates[#[trigger] group[j] as int].storage,
            candidates[#[trigger] group[k] as int].storage,
        )
}

/// Whether two groups have nothing in common.
pub open spec fn groups_disjoint(a: Seq<usize>, b: Seq<usize>) -> bool {
    forall|j: int, k: int|
        0 <= j < a.len() && 0 <= k < b.len() ==> #[trigger] a[j] != #[trigger] b[k]
}

/// Whether groups are in order and have nothing in common.
pub open spec fn groups_ok(
    candidates: Seq<CandidateView>,
    lifetimes: SlotLivenessFunction,
    groups: Seq<Seq<usize>>,
    n: int,
) -> bool {
    &&& forall|g: int|
        0 <= g < groups.len() ==> group_ok(candidates, lifetimes, #[trigger] groups[g], n)
    &&& forall|g: int, h: int|
        0 <= g < h < groups.len() ==> groups_disjoint(#[trigger] groups[g], #[trigger] groups[h])
}

proof fn joined_groups_ok(
    candidates: Seq<CandidateView>,
    groups: Seq<Seq<usize>>,
    c: int,
    lifetimes: SlotLivenessFunction,
    i: int,
)
    requires
        groups_ok(candidates, lifetimes, groups, c),
        0 <= i <= groups.len(),
        0 <= c <= usize::MAX,
    ensures
        groups_ok(
            candidates,
            lifetimes,
            speed_layout::joined_groups(candidates, groups, c, lifetimes, i),
            c + 1,
        ),
        speed_layout::joined_groups(candidates, groups, c, lifetimes, i).len() <= groups.len() + 1,
    decreases groups.len() - i,
{
    let after = speed_layout::joined_groups(candidates, groups, c, lifetimes, i);
    if i >= groups.len() || speed_layout::can_join(candidates, groups[i], c, lifetimes) {
        assert forall|g: int| 0 <= g < after.len() implies group_ok(
            candidates,
            lifetimes,
            #[trigger] after[g],
            c + 1,
        ) by {
            if g < groups.len() {
                assert(group_ok(candidates, lifetimes, groups[g], c));
            }
        }
        assert forall|g: int, h: int| 0 <= g < h < after.len() implies groups_disjoint(
            #[trigger] after[g],
            #[trigger] after[h],
        ) by {
            if h < groups.len() {
                assert(groups_disjoint(groups[g], groups[h]));
                assert(group_ok(candidates, lifetimes, groups[h], c));
            }
            assert(group_ok(candidates, lifetimes, groups[g], c));
        }
    } else {
        joined_groups_ok(candidates, groups, c, lifetimes, i + 1);
    }
}

pub proof fn all_groups_ok(
    candidates: Seq<CandidateView>,
    lifetimes: SlotLivenessFunction,
    n: int,
)
    requires
        0 <= n <= candidates.len() <= usize::MAX,
    ensures
        groups_ok(
            candidates,
            lifetimes,
            speed_layout::groups_of(candidates, lifetimes, n),
            n,
        ),
        speed_layout::groups_of(candidates, lifetimes, n).len() <= n,
    decreases n,
{
    if n > 0 {
        all_groups_ok(candidates, lifetimes, n - 1);
        joined_groups_ok(
            candidates,
            speed_layout::groups_of(candidates, lifetimes, n - 1),
            n - 1,
            lifetimes,
            0,
        );
    }
}

pub proof fn shared_groups_ok(
    candidates: Seq<CandidateView>,
    lifetimes: SlotLivenessFunction,
    groups: Seq<Seq<usize>>,
    m: int,
    n: int,
)
    requires
        groups_ok(candidates, lifetimes, groups, m),
        0 <= n <= groups.len(),
    ensures
        groups_ok(candidates, lifetimes, speed_layout::shared_groups(groups, n), m),
        speed_layout::shared_groups(groups, n).len() <= n,
        forall|g: int|
            0 <= g < speed_layout::shared_groups(groups, n).len() ==> (
            #[trigger] speed_layout::shared_groups(groups, n)[g]).len() > 1,
        forall|g: int|
            0 <= g < speed_layout::shared_groups(groups, n).len() ==> exists|h: int|
                0 <= h < n && (#[trigger] groups[h]) == #[trigger] speed_layout::shared_groups(
                    groups,
                    n,
                )[g],
    decreases n,
{
    if n > 0 {
        shared_groups_ok(candidates, lifetimes, groups, m, n - 1);
        let before = speed_layout::shared_groups(groups, n - 1);
        let after = speed_layout::shared_groups(groups, n);
        assert forall|g: int| 0 <= g < after.len() implies exists|h: int|
            0 <= h < n && (#[trigger] groups[h]) == #[trigger] after[g] by {
            if g < before.len() {
                assert(after[g] == before[g]);
                let h = choose|h: int| 0 <= h < n - 1 && (#[trigger] groups[h]) == before[g];
                assert(groups[h] == after[g]);
            } else {
                assert(groups[n - 1] == after[g]);
            }
        }
        assert forall|g: int| 0 <= g < after.len() implies (#[trigger] after[g]).len() > 1
            && group_ok(candidates, lifetimes, after[g], m) by {
            if g < before.len() {
                assert(after[g] == before[g]);
            } else {
                assert(group_ok(candidates, lifetimes, groups[n - 1], m));
            }
        }
        assert forall|g: int, h: int| 0 <= g < h < after.len() implies groups_disjoint(
            #[trigger] after[g],
            #[trigger] after[h],
        ) by {
            assert(after[g] == before[g]);
            if h < before.len() {
                assert(after[h] == before[h]);
            } else {
                let k = choose|k: int| 0 <= k < n - 1 && (#[trigger] groups[k]) == before[g];
                assert(groups_disjoint(groups[k], groups[n - 1]));
            }
        }
    }
}

/// A field that a group holds belongs to that group alone.
proof fn group_with_holder(
    candidates: Seq<CandidateView>,
    plan: Option<FunctionPlanView>,
    lifetimes: SlotLivenessFunction,
    groups: Seq<Seq<usize>>,
    field: LogicalFieldId,
    g: int,
    i: int,
)
    requires
        candidates_ok(candidates, plan),
        groups_ok(candidates, lifetimes, groups, candidates.len() as int),
        0 <= i <= g < groups.len(),
        speed_layout::group_holds(candidates, groups[g], field),
    ensures
        speed_layout::group_with(candidates, groups, field, i) == Some(g),
    decreases g - i,
{
    if i < g {
        if speed_layout::group_holds(candidates, groups[i], field) {
            let j = choose|j: int|
                0 <= j < groups[i].len() && candidates[#[trigger] groups[i][j] as int].member.logical
                    == field;
            let k = choose|k: int|
                0 <= k < groups[g].len() && candidates[#[trigger] groups[g][k] as int].member.logical
                    == field;
            assert(groups_disjoint(groups[i], groups[g]));
            assert(group_ok(candidates, lifetimes, groups[i], candidates.len() as int));
            assert(group_ok(candidates, lifetimes, groups[g], candidates.len() as int));
            let a = groups[i][j] as int;
            let b = groups[g][k] as int;
            if a < b {
                assert(candidates[a].member.logical != candidates[b].member.logical);
            } else {
                assert(candidates[b].member.logical != candidates[a].member.logical);
            }
        }
        group_with_holder(candidates, plan, lifetimes, groups, field, g, i + 1);
    }
}

/// Where merging stands after the first `n` old slots: what was merged is well
/// placed, and it is what those slots and their groups hold.
pub open spec fn merged_so_far(
    merging: Merging,
    start: Building,
    slots: Seq<SlotView>,
    candidates: Seq<CandidateView>,
    groups: Seq<Seq<usize>>,
    plan: Option<FunctionPlanView>,
    function: LivenessFunction,
    lifetimes: SlotLivenessFunction,
    n: int,
) -> bool {
    let building = merging.building;
    &&& layout_soundness::well_placed(building)
    &&& forall|s: int|
        0 <= s < building.slots.len() ==> layout_soundness::slot_shares(
            #[trigger] building.slots[s],
            plan,
            function,
            lifetimes,
        )
    &&& forall|field: LogicalFieldId|
        (#[trigger] order::lookup(building.fields, field)) is Some <==> order::lookup(
            start.fields,
            field,
        ) is Some
    &&& building.fields.len() == start.fields.len()
    &&& forall|field: LogicalFieldId| #[trigger]
        layout_soundness::holds(building.slots, field) ==> match speed_layout::group_with(
            candidates,
            groups,
            field,
            0,
        ) {
            None => first_in(slots, field, n),
            Some(g) => merging.emitted.contains(g as usize),
        }
    &&& forall|s: int|
        0 <= s < n ==> match speed_layout::group_with(
            candidates,
            groups,
            (#[trigger] slots[s]).members[0].logical,
            0,
        ) {
            None => layout_soundness::holds(building.slots, slots[s].members[0].logical),
            Some(g) => merging.emitted.contains(g as usize),
        }
    &&& forall|g: int, field: LogicalFieldId|
        0 <= g < groups.len() && merging.emitted.contains(g as usize)
            && #[trigger] speed_layout::group_holds(candidates, groups[g], field)
            ==> layout_soundness::holds(building.slots, field)
}

proof fn group_members_share(
    candidates: Seq<CandidateView>,
    group: Seq<usize>,
    plan: Option<FunctionPlanView>,
    function: LivenessFunction,
    lifetimes: SlotLivenessFunction,
)
    requires
        candidates_ok(candidates, plan),
        group_ok(candidates, lifetimes, group, candidates.len() as int),
    ensures
        layout_soundness::members_distinct(speed_layout::group_members(candidates, group)),
        layout_check::all_shareable(
            context_layout::numbered(speed_layout::group_members(candidates, group)),
            plan,
            function,
        ),
        layout_soundness::members_apart(
            context_layout::numbered(speed_layout::group_members(candidates, group)),
            plan,
            function,
            lifetimes,
        ),
{
    let members = speed_layout::group_members(candidates, group);
    let shown = context_layout::numbered(members);
    assert forall|i: int, j: int| 0 <= i < j < members.len() implies (
    #[trigger] members[i]).logical != (#[trigger] members[j]).logical by {
        assert(group[i] < group[j]);
        assert(candidates[group[i] as int].member.logical
            != candidates[group[j] as int].member.logical);
    }
    assert forall|i: int| 0 <= i < shown.len() implies storage_lifetimes::lifetime_of(
        (#[trigger] shown[i]).logical,
        plan,
        function,
    ) == Some(
        storage_lifetimes::SizeLifetime::Storage(candidates[group[i] as int].storage),
    ) by {
        assert(shown[i].logical == candidates[group[i] as int].member.logical);
        assert(storage_lifetimes::storage_of(
            candidates[group[i] as int].member.logical,
            plan,
        ) == Some(candidates[group[i] as int].storage));
    }
    assert forall|i: int, j: int| 0 <= i < j < shown.len() implies !layout_check::members_clash(
        #[trigger] shown[i],
        #[trigger] shown[j],
        plan,
        function,
        lifetimes,
    ) by {
        assert(group[i] < group[j]);
        assert(!storage_lifetimes::storages_clash(
            lifetimes,
            candidates[group[i] as int].storage,
            candidates[group[j] as int].storage,
        ));
    }
}

proof fn merge_slot_sound(
    merging: Merging,
    start: Building,
    slots: Seq<SlotView>,
    candidates: Seq<CandidateView>,
    groups: Seq<Seq<usize>>,
    plan: Option<FunctionPlanView>,
    function: LivenessFunction,
    lifetimes: SlotLivenessFunction,
    n: int,
)
    requires
        0 < n <= slots.len(),
        layout_soundness::all_alone(slots),
        slots_distinct(slots),
        forall|s: int|
            0 <= s < slots.len() ==> order::lookup(
                start.fields,
                (#[trigger] slots[s]).members[0].logical,
            ) is Some,
        candidates_ok(candidates, plan),
        forall|c: int|
            0 <= c < candidates.len() ==> first_in(
                slots,
                (#[trigger] candidates[c]).member.logical,
                slots.len() as int,
            ),
        groups_ok(candidates, lifetimes, groups, candidates.len() as int),
        forall|g: int| 0 <= g < groups.len() ==> (#[trigger] groups[g]).len() > 1,
        groups.len() <= usize::MAX,
        merged_so_far(
            merging,
            start,
            slots,
            candidates,
            groups,
            plan,
            function,
            lifetimes,
            n - 1,
        ),
    ensures
        merged_so_far(
            speed_layout::merge_slot(merging, slots[n - 1], candidates, groups),
            start,
            slots,
            candidates,
            groups,
            plan,
            function,
            lifetimes,
            n,
        ),
{
    let after = speed_layout::merge_slot(merging, slots[n - 1], candidates, groups);
    let building = merging.building;
    let member = slots[n - 1].members[0];
    let field = member.logical;
    layout_passes::group_with_finds(candidates, groups, field, 0);
    assert(order::lookup(start.fields, slots[n - 1].members[0].logical) is Some);
    match speed_layout::group_with(candidates, groups, field, 0) {
        None => {
            assert(!layout_soundness::holds(building.slots, field)) by {
                if layout_soundness::holds(building.slots, field) {
                    assert(first_in(slots, field, n - 1));
                }
            }
            layout_soundness::direct_well_placed(building, member);
            assert forall|other: LogicalFieldId| #[trigger]
                layout_soundness::holds(
                    after.building.slots,
                    other,
                ) implies match speed_layout::group_with(candidates, groups, other, 0) {
                None => first_in(slots, other, n),
                Some(g) => after.emitted.contains(g as usize),
            } by {
                if other == field {
                    assert(slots[n - 1].members[0].logical == other);
                } else {
                    assert(layout_soundness::holds(building.slots, other));
                    first_in_more(slots, other, n);
                }
            }
        },
        Some(g) => {
            if merging.emitted.contains(g as usize) {
                assert forall|other: LogicalFieldId| #[trigger]
                    layout_soundness::holds(
                        after.building.slots,
                        other,
                    ) implies match speed_layout::group_with(candidates, groups, other, 0) {
                    None => first_in(slots, other, n),
                    Some(g) => after.emitted.contains(g as usize),
                } by {
                    first_in_more(slots, other, n);
                }
            } else {
                let group = groups[g];
                let members = speed_layout::group_members(candidates, group);
                let name = identity_layout::slot_name("cr_slot_"@, merging.emitted.len() as u32);
                assert(group_ok(candidates, lifetimes, group, candidates.len() as int));
                group_members_share(candidates, group, plan, function, lifetimes);
                assert forall|i: int| 0 <= i < members.len() implies {
                    &&& !layout_soundness::holds(building.slots, (#[trigger] members[i]).logical)
                    &&& order::lookup(building.fields, members[i].logical) is Some
                    &&& speed_layout::group_with(
                        candidates,
                        groups,
                        members[i].logical,
                        0,
                    ) == Some(g)
                } by {
                    let own = members[i].logical;
                    assert(candidates[group[i] as int].member.logical == own);
                    assert(speed_layout::group_holds(candidates, group, own));
                    group_with_holder(candidates, plan, lifetimes, groups, own, g, 0);
                    assert(first_in(slots, own, slots.len() as int));
                    let s = choose|s: int|
                        0 <= s < slots.len() && (#[trigger] slots[s]).members[0].logical == own;
                    assert(order::lookup(start.fields, slots[s].members[0].logical) is Some);
                }
                layout_soundness::union_well_placed(building, members, name);
                assert(after.building == context_layout::with_union(building, members, name));
                assert(after.emitted.contains(g as usize)) by {
                    assert(after.emitted[merging.emitted.len() as int] == g as usize);
                }
                assert forall|h: usize| merging.emitted.contains(h) implies
                    #[trigger] after.emitted.contains(h) by {
                    let k = choose|k: int|
                        0 <= k < merging.emitted.len() && merging.emitted[k] == h;
                    assert(after.emitted[k] == h);
                }
                assert forall|h: int, other: LogicalFieldId|
                    0 <= h < groups.len() && after.emitted.contains(h as usize)
                        && #[trigger] speed_layout::group_holds(
                        candidates,
                        groups[h],
                        other,
                    ) implies layout_soundness::holds(after.building.slots, other) by {
                    if h == g {
                        let k = choose|k: int|
                            0 <= k < group.len()
                                && candidates[#[trigger] group[k] as int].member.logical == other;
                        assert(members[k].logical == other);
                        assert(layout_soundness::listed(members, other));
                    } else {
                        let k = choose|k: int|
                            0 <= k < after.emitted.len() && after.emitted[k] == h as usize;
                        assert(merging.emitted[k] == h as usize);
                        assert(merging.emitted.contains(h as usize));
                        assert(layout_soundness::holds(building.slots, other));
                    }
                }
                assert forall|other: LogicalFieldId| #[trigger]
                    layout_soundness::holds(
                        after.building.slots,
                        other,
                    ) implies match speed_layout::group_with(candidates, groups, other, 0) {
                    None => first_in(slots, other, n),
                    Some(h) => after.emitted.contains(h as usize),
                } by {
                    if layout_soundness::listed(members, other) {
                        let i = choose|i: int|
                            0 <= i < members.len() && (#[trigger] members[i]).logical == other;
                        assert(speed_layout::group_with(
                            candidates,
                            groups,
                            members[i].logical,
                            0,
                        ) == Some(g));
                    } else {
                        assert(layout_soundness::holds(building.slots, other));
                        first_in_more(slots, other, n);
                    }
                }
                assert forall|other: LogicalFieldId|
                    (#[trigger] order::lookup(after.building.fields, other)) is Some
                        <==> order::lookup(start.fields, other) is Some by {
                    if layout_soundness::listed(members, other) {
                        let i = choose|i: int|
                            0 <= i < members.len() && (#[trigger] members[i]).logical == other;
                        assert(order::lookup(building.fields, members[i].logical) is Some);
                    }
                }
                assert forall|s: int|
                    0 <= s < after.building.slots.len() implies layout_soundness::slot_shares(
                    #[trigger] after.building.slots[s],
                    plan,
                    function,
                    lifetimes,
                ) by {
                    if s < building.slots.len() {
                        assert(after.building.slots[s] == building.slots[s]);
                    }
                }
            }
        },
    }
}

proof fn first_in_more(slots: Seq<SlotView>, field: LogicalFieldId, n: int)
    ensures
        first_in(slots, field, n - 1) ==> first_in(slots, field, n),
{
    if first_in(slots, field, n - 1) {
        let s = choose|s: int|
            0 <= s < n - 1 && (#[trigger] slots[s]).members[0].logical == field;
        assert(slots[s].members[0].logical == field);
    }
}

proof fn merge_slots_sound(
    start: Merging,
    slots: Seq<SlotView>,
    candidates: Seq<CandidateView>,
    groups: Seq<Seq<usize>>,
    plan: Option<FunctionPlanView>,
    function: LivenessFunction,
    lifetimes: SlotLivenessFunction,
    n: int,
)
    requires
        0 <= n <= slots.len(),
        layout_soundness::all_alone(slots),
        slots_distinct(slots),
        start.building.slots.len() == 0,
        start.emitted.len() == 0,
        order::ascending(start.building.fields),
        forall|s: int|
            0 <= s < slots.len() ==> order::lookup(
                start.building.fields,
                (#[trigger] slots[s]).members[0].logical,
            ) is Some,
        candidates_ok(candidates, plan),
        forall|c: int|
            0 <= c < candidates.len() ==> first_in(
                slots,
                (#[trigger] candidates[c]).member.logical,
                slots.len() as int,
            ),
        groups_ok(candidates, lifetimes, groups, candidates.len() as int),
        forall|g: int| 0 <= g < groups.len() ==> (#[trigger] groups[g]).len() > 1,
        groups.len() <= usize::MAX,
    ensures
        merged_so_far(
            speed_layout::merge_slots(start, slots, candidates, groups, n),
            start.building,
            slots,
            candidates,
            groups,
            plan,
            function,
            lifetimes,
            n,
        ),
    decreases n,
{
    if n > 0 {
        merge_slots_sound(
            start,
            slots,
            candidates,
            groups,
            plan,
            function,
            lifetimes,
            n - 1,
        );
        merge_slot_sound(
            speed_layout::merge_slots(start, slots, candidates, groups, n - 1),
            start.building,
            slots,
            candidates,
            groups,
            plan,
            function,
            lifetimes,
            n,
        );
    } else {
        assert forall|field: LogicalFieldId|
            !(#[trigger] layout_soundness::holds(start.building.slots, field)) by {}
    }
}

/// Sharing storage among values of one type keeps a layout sound, and keeps
/// which fields it places.
pub proof fn speed_layout_sound(
    layout: LayoutView,
    plan: Option<FunctionPlanView>,
    function: LivenessFunction,
    lifetimes: SlotLivenessFunction,
)
    requires
        layout_soundness::layout_sound(layout, plan, function, lifetimes),
        layout_soundness::all_alone(layout.slots),
        layout.fields.len() <= u32::MAX,
    ensures
        layout_soundness::layout_sound(
            speed_layout::speed_layout(layout, plan, lifetimes),
            plan,
            function,
            lifetimes,
        ),
        speed_layout::speed_layout(layout, plan, lifetimes).fields.len() == layout.fields.len(),
        layout_soundness::places_all(
            speed_layout::speed_layout(layout, plan, lifetimes).fields,
            layout.fields,
        ),
{
    let before = layout_soundness::building_in(layout);
    layout_soundness::slots_fit(before);
    let slots = layout.slots;
    let n = slots.len() as int;
    assert forall|s: int| 0 <= s < n implies {
        &&& order::lookup(layout.fields, (#[trigger] slots[s]).members[0].logical) == Some(
            layout_soundness::placement_of(slots, s, 0),
        )
    } by {
        assert(layout_soundness::has_member(before.slots, s, 0));
    }
    assert forall|s: int, t: int| 0 <= s < t < slots.len() implies (
    #[trigger] slots[s]).members[0].logical != (#[trigger] slots[t]).members[0].logical by {
        assert(layout_soundness::placement_of(slots, s, 0).slot
            != layout_soundness::placement_of(slots, t, 0).slot);
    }
    let candidates = speed_layout::candidates_of(slots, plan, lifetimes, n);
    candidates_known(slots, plan, lifetimes, n);
    let all = speed_layout::groups_of(candidates, lifetimes, candidates.len() as int);
    all_groups_ok(candidates, lifetimes, candidates.len() as int);
    shared_groups_ok(candidates, lifetimes, all, candidates.len() as int, all.len() as int);
    let groups = speed_layout::speed_groups(layout, plan, lifetimes);
    if groups.len() > 0 {
        let start = Merging {
            building: Building { slots: Seq::empty(), fields: layout.fields },
            decisions: layout.decisions,
            emitted: Seq::empty(),
        };
        merge_slots_sound(start, slots, candidates, groups, plan, function, lifetimes, n);
        let end = speed_layout::merge_slots(start, slots, candidates, groups, n);
        let after = speed_layout::speed_layout(layout, plan, lifetimes);
        assert(layout_soundness::building_in(after) == end.building);
        assert forall|field: LogicalFieldId|
            (#[trigger] order::lookup(end.building.fields, field)) is Some implies
            layout_soundness::holds(end.building.slots, field) by {
            assert(order::lookup(before.fields, field) is Some);
            assert(layout_soundness::holds(before.slots, field));
            let (s, m) = choose|s: int, m: int| #[trigger]
                layout_soundness::has_member(before.slots, s, m)
                    && before.slots[s].members[m].logical == field;
            assert(slots[s].members.len() == 1);
            assert(slots[s].members[0].logical == field);
            layout_passes::group_with_finds(candidates, groups, field, 0);
            if let Some(g) = speed_layout::group_with(candidates, groups, field, 0) {
                assert(speed_layout::group_holds(candidates, groups[g], field));
            }
        }
        assert(layout_soundness::all_held(layout_soundness::building_in(after)));
    }
}

} // verus!
