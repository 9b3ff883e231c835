//! Reuse of context storage among values of one type.

use vstd::prelude::*;

use crate::await_plan::ChildInstanceId;
use crate::c_static_plan::{CFunctionPlan, FunctionPlanView};
use crate::context_layout;
use crate::context_layout::{
    append_direct_slot_to, append_union_slot_to, Building, FunctionContextLayout, LayoutDecision,
    LayoutDecisionReason, LayoutView, LogicalFieldId, MemberView, PhysicalMember, PhysicalSlot,
    SlotView,
};
use crate::identity_layout;
use crate::identity_layout::numbered_name;
use crate::order::has_key;
use crate::slot_liveness::{DirectChildBundle, LogicalStorage, SlotLivenessFunction};
use crate::storage_lifetimes;
use crate::storage_lifetimes::{reusable_storage, storages_interfere};
use crate::syntax;
use crate::text;
use crate::text::{normalize_c_type, str_eq};

verus! {

/// One field whose storage can be reused.
#[derive(Debug, Clone)]
pub struct ReuseCandidate {
    pub member: PhysicalMember,
    pub storage: LogicalStorage,
    pub normalized_type: String,
}

/// The contents of a candidate.
pub struct CandidateView {
    pub member: MemberView,
    pub storage: LogicalStorage,
    pub normalized_type: Seq<char>,
}

impl View for ReuseCandidate {
    type V = CandidateView;

    open spec fn view(&self) -> CandidateView {
        CandidateView {
            member: self.member@,
            storage: self.storage,
            normalized_type: self.normalized_type@,
        }
    }
}

/// What is known of a directly awaited child, from entry `i` on.
pub open spec fn bundle_of(
    children: Seq<(ChildInstanceId, DirectChildBundle)>,
    child: ChildInstanceId,
    i: int,
) -> Option<DirectChildBundle>
    decreases children.len() - i,
{
    if i < 0 || i >= children.len() {
        None
    } else if children[i].0 == child {
        Some(children[i].1)
    } else {
        bundle_of(children, child, i + 1)
    }
}

/// Whether the storage of a directly awaited child can be reused.
pub open spec fn child_reusable(lifetimes: SlotLivenessFunction, child: ChildInstanceId) -> bool {
    !lifetimes.excluded_children@.contains(child) && match bundle_of(
        lifetimes.direct_children@,
        child,
        0,
    ) {
        Some(bundle) => bundle.active_flag_independent,
        None => false,
    }
}

fn is_child_reusable(lifetimes: &SlotLivenessFunction, child: ChildInstanceId) -> (r: bool)
    ensures
        r == child_reusable(*lifetimes, child),
{
    if has_key(&lifetimes.excluded_children, child) {
        return false;
    }
    let mut i: usize = 0;
    while i < lifetimes.direct_children.len()
        invariant
            i <= lifetimes.direct_children@.len(),
            !lifetimes.excluded_children@.contains(child),
            bundle_of(lifetimes.direct_children@, child, 0) == bundle_of(
                lifetimes.direct_children@,
                child,
                i as int,
            ),
        decreases lifetimes.direct_children@.len() - i,
    {
        if lifetimes.direct_children[i].0 == child {
            return lifetimes.direct_children[i].1.active_flag_independent;
        }
        i += 1;
    }
    false
}

/// The candidate that a slot holds.
pub open spec fn candidate_of(
    slot: SlotView,
    plan: Option<FunctionPlanView>,
    lifetimes: SlotLivenessFunction,
) -> Option<CandidateView> {
    if slot.members.len() == 0 {
        None
    } else {
        let member = slot.members[0];
        match storage_lifetimes::storage_of(member.logical, plan) {
            None => None,
            Some(storage) => {
                let reusable = match storage {
                    LogicalStorage::DirectChild(child) => child_reusable(lifetimes, child),
                    LogicalStorage::AwaitResult(result) => true,
                };
                if reusable {
                    Some(
                        CandidateView {
                            member,
                            storage,
                            normalized_type: text::squeezed(member.c_type),
                        },
                    )
                } else {
                    None
                }
            },
        }
    }
}

/// The candidates of the first `n` slots.
pub open spec fn candidates_of(
    slots: Seq<SlotView>,
    plan: Option<FunctionPlanView>,
    lifetimes: SlotLivenessFunction,
    n: int,
) -> Seq<CandidateView>
    decreases n,
{
    if n <= 0 {
        Seq::empty()
    } else {
        let before = candidates_of(slots, plan, lifetimes, n - 1);
        match candidate_of(slots[n - 1], plan, lifetimes) {
            Some(candidate) => before.push(candidate),
            None => before,
        }
    }
}

fn collect_candidates(
    slots: &Vec<PhysicalSlot>,
    plan: Option<&CFunctionPlan>,
    lifetimes: &SlotLivenessFunction,
) -> (r: Vec<ReuseCandidate>)
    ensures
        syntax::views(r@) == candidates_of(
            syntax::views(slots@),
            identity_layout::plan_view(plan),
            *lifetimes,
            slots@.len() as int,
        ),
{
    let mut candidates: Vec<ReuseCandidate> = Vec::new();
    assert(syntax::views(candidates@) =~= Seq::empty());
    let mut i: usize = 0;
    while i < slots.len()
        invariant
            i <= slots@.len(),
            syntax::views(candidates@) == candidates_of(
                syntax::views(slots@),
                identity_layout::plan_view(plan),
                *lifetimes,
                i as int,
            ),
        decreases slots@.len() - i,
    {
        let slot = &slots[i];
        assert(syntax::views(slots@)[i as int] == slot@);
        if slot.members.len() > 0 {
            let member = &slot.members[0];
            assert(slot@.members[0] == member@);
            if let Some(storage) = reusable_storage(member.logical, plan) {
                let reusable = match storage {
                    LogicalStorage::DirectChild(child) => is_child_reusable(lifetimes, child),
                    LogicalStorage::AwaitResult(result) => true,
                };
                if reusable {
                    let candidate = ReuseCandidate {
                        member: member.clone(),
                        storage,
                        normalized_type: normalize_c_type(member.c_type.as_str()),
                    };
                    proof {
                        syntax::views_push(candidates@, candidate);
                    }
                    candidates.push(candidate);
                }
            }
        }
        i += 1;
    }
    candidates
}

/// Whether candidate `c` can join a group: it has the type of the group and is
/// never needed together with a member.
pub open spec fn can_join(
    candidates: Seq<CandidateView>,
    group: Seq<usize>,
    c: int,
    lifetimes: SlotLivenessFunction,
) -> bool {
    &&& group.len() > 0
    &&& candidates[group[0] as int].normalized_type == candidates[c].normalized_type
    &&& forall|k: int|
        0 <= k < group.len() ==> !storage_lifetimes::storages_clash(
            lifetimes,
            candidates[#[trigger] group[k] as int].storage,
            candidates[c].storage,
        )
}

/// The groups after candidate `c` joined the first one it can join from `i`
/// on, or formed one of its own.
pub open spec fn joined_groups(
    candidates: Seq<CandidateView>,
    groups: Seq<Seq<usize>>,
    c: int,
    lifetimes: SlotLivenessFunction,
    i: int,
) -> Seq<Seq<usize>>
    decreases groups.len() - i,
{
    if i < 0 || i >= groups.len() {
        groups.push(seq![c as usize])
    } else if can_join(candidates, groups[i], c, lifetimes) {
        groups.update(i, groups[i].push(c as usize))
    } else {
        joined_groups(candidates, groups, c, lifetimes, i + 1)
    }
}

/// The groups of the first `n` candidates.
pub open spec fn groups_of(
    candidates: Seq<CandidateView>,
    lifetimes: SlotLivenessFunction,
    n: int,
) -> Seq<Seq<usize>>
    decreases n,
{
    if n <= 0 {
        Seq::empty()
    } else {
        joined_groups(
            candidates,
            groups_of(candidates, lifetimes, n - 1),
            n - 1,
            lifetimes,
            0,
        )
    }
}

/// The groups of more than one candidate among the first `n`.
pub open spec fn shared_groups(groups: Seq<Seq<usize>>, n: int) -> Seq<Seq<usize>>
    decreases n,
{
    if n <= 0 {
        Seq::empty()
    } else if groups[n - 1].len() > 1 {
        shared_groups(groups, n - 1).push(groups[n - 1])
    } else {
        shared_groups(groups, n - 1)
    }
}

/// Whether the groups list candidates.
pub open spec fn groups_list(groups: Seq<Seq<usize>>, n: int) -> bool {
    forall|g: int, k: int|
        #![trigger groups[g][k]]
        0 <= g < groups.len() && 0 <= k < groups[g].len() ==> groups[g][k] < n
}

fn can_join_group(
    candidates: &Vec<ReuseCandidate>,
    group: &Vec<usize>,
    c: usize,
    lifetimes: &SlotLivenessFunction,
) -> (r: bool)
    requires
        c < candidates@.len(),
        forall|k: int| 0 <= k < group@.len() ==> #[trigger] group@[k] < candidates@.len(),
    ensures
        r == can_join(syntax::views(candidates@), group@, c as int, *lifetimes),
{
    let ghost views = syntax::views(candidates@);
    if group.len() == 0 {
        return false;
    }
    assert(views[group@[0] as int] == candidates@[group@[0] as int]@);
    assert(views[c as int] == candidates@[c as int]@);
    if !str_eq(
        candidates[group[0]].normalized_type.as_str(),
        candidates[c].normalized_type.as_str(),
    ) {
        return false;
    }
    let mut k: usize = 0;
    while k < group.len()
        invariant
            k <= group@.len(),
            c < candidates@.len(),
            views == syntax::views(candidates@),
            group@.len() > 0,
            views[group@[0] as int].normalized_type == views[c as int].normalized_type,
            forall|k: int| 0 <= k < group@.len() ==> #[trigger] group@[k] < candidates@.len(),
            forall|j: int|
                0 <= j < k ==> !storage_lifetimes::storages_clash(
                    *lifetimes,
                    views[#[trigger] group@[j] as int].storage,
                    views[c as int].storage,
                ),
        decreases group@.len() - k,
    {
        assert(views[group@[k as int] as int] == candidates@[group@[k as int] as int]@);
        assert(views[c as int] == candidates@[c as int]@);
        if storages_interfere(lifetimes, candidates[group[k]].storage, candidates[c].storage) {
            return false;
        }
        k += 1;
    }
    true
}

fn group_candidates(candidates: &Vec<ReuseCandidate>, lifetimes: &SlotLivenessFunction) -> (r: Vec<
    Vec<usize>,
>)
    ensures
        syntax::views(r@) == groups_of(
            syntax::views(candidates@),
            *lifetimes,
            candidates@.len() as int,
        ),
        groups_list(syntax::views(r@), candidates@.len() as int),
{
    let ghost views = syntax::views(candidates@);
    let mut groups: Vec<Vec<usize>> = Vec::new();
    assert(syntax::views(groups@) =~= Seq::empty());
    let mut c: usize = 0;
    while c < candidates.len()
        invariant
            c <= candidates@.len(),
            views == syntax::views(candidates@),
            syntax::views(groups@) == groups_of(views, *lifetimes, c as int),
            groups_list(syntax::views(groups@), candidates@.len() as int),
        decreases candidates@.len() - c,
    {
        let ghost before = syntax::views(groups@);
        assert forall|x: int, k: int|
            #![trigger groups@[x]@[k]]
            0 <= x < groups@.len() && 0 <= k < groups@[x]@.len() implies groups@[x]@[k]
            < candidates@.len() by {
            assert(before[x][k] == groups@[x]@[k]);
        }
        let mut g: usize = 0;
        while g < groups.len() && !can_join_group(candidates, &groups[g], c, lifetimes)
            invariant
                g <= groups@.len(),
                c < candidates@.len(),
                views == syntax::views(candidates@),
                before == syntax::views(groups@),
                groups_list(before, candidates@.len() as int),
                forall|x: int, k: int|
                    #![trigger groups@[x]@[k]]
                    0 <= x < groups@.len() && 0 <= k < groups@[x]@.len() ==> groups@[x]@[k]
                        < candidates@.len(),
                joined_groups(views, before, c as int, *lifetimes, 0) == joined_groups(
                    views,
                    before,
                    c as int,
                    *lifetimes,
                    g as int,
                ),
            decreases groups@.len() - g,
        {
            assert(before[g as int] == groups@[g as int]@);
            g += 1;
        }
        if g < groups.len() {
            assert(before[g as int] == groups@[g as int]@);
            groups[g].push(c);
            assert(syntax::views(groups@) =~= before.update(
                g as int,
                before[g as int].push(c),
            ));
        } else {
            let mut own: Vec<usize> = Vec::new();
            own.push(c);
            assert(own@ =~= seq![c]);
            proof {
                syntax::views_push(groups@, own);
            }
            groups.push(own);
        }
        proof {
            let after = syntax::views(groups@);
            assert forall|x: int, k: int|
                #![trigger after[x][k]]
                0 <= x < after.len() && 0 <= k < after[x].len() implies after[x][k]
                < candidates@.len() by {
                if x < before.len() {
                    if k < before[x].len() {
                        assert(after[x][k] == before[x][k]);
                    }
                }
            }
        }
        c += 1;
    }
    groups
}

fn keep_shared(groups: &Vec<Vec<usize>>) -> (r: Vec<Vec<usize>>)
    ensures
        syntax::views(r@) == shared_groups(syntax::views(groups@), groups@.len() as int),
{
    let mut shared: Vec<Vec<usize>> = Vec::new();
    assert(syntax::views(shared@) =~= Seq::empty());
    let mut i: usize = 0;
    while i < groups.len()
        invariant
            i <= groups@.len(),
            syntax::views(shared@) == shared_groups(syntax::views(groups@), i as int),
        decreases groups@.len() - i,
    {
        assert(syntax::views(groups@)[i as int] == groups@[i as int]@);
        if groups[i].len() > 1 {
            let group = groups[i].clone();
            assert(group@ =~= groups@[i as int]@);
            proof {
                syntax::views_push(shared@, group);
            }
            shared.push(group);
        }
        i += 1;
    }
    shared
}

proof fn shared_groups_list(groups: Seq<Seq<usize>>, count: int, n: int)
    requires
        groups_list(groups, count),
        0 <= n <= groups.len(),
    ensures
        groups_list(shared_groups(groups, n), count),
        forall|g: int|
            0 <= g < shared_groups(groups, n).len() ==> (#[trigger] shared_groups(
                groups,
                n,
            )[g]).len() > 1,
    decreases n,
{
    if n > 0 {
        shared_groups_list(groups, count, n - 1);
        let before = shared_groups(groups, n - 1);
        let after = shared_groups(groups, n);
        assert forall|g: int, k: int|
            #![trigger after[g][k]]
            0 <= g < after.len() && 0 <= k < after[g].len() implies after[g][k] < count by {
            if g < before.len() {
                assert(after[g][k] == before[g][k]);
            } else {
                assert(after[g][k] == groups[n - 1][k]);
            }
        }
    }
}

/// Whether a group holds a field.
pub open spec fn group_holds(
    candidates: Seq<CandidateView>,
    group: Seq<usize>,
    field: LogicalFieldId,
) -> bool {
    exists|k: int|
        0 <= k < group.len() && candidates[#[trigger] group[k] as int].member.logical == field
}

/// The first group that holds a field, from `i` on.
pub open spec fn group_with(
    candidates: Seq<CandidateView>,
    groups: Seq<Seq<usize>>,
    field: LogicalFieldId,
    i: int,
) -> Option<int>
    decreases groups.len() - i,
{
    if i < 0 || i >= groups.len() {
        None
    } else if group_holds(candidates, groups[i], field) {
        Some(i)
    } else {
        group_with(candidates, groups, field, i + 1)
    }
}

fn find_group(
    candidates: &Vec<ReuseCandidate>,
    groups: &Vec<Vec<usize>>,
    field: LogicalFieldId,
) -> (r: Option<usize>)
    requires
        groups_list(syntax::views(groups@), candidates@.len() as int),
    ensures
        match r {
            Some(g) => group_with(syntax::views(candidates@), syntax::views(groups@), field, 0)
                == Some(g as int) && g < groups@.len(),
            None => group_with(
                syntax::views(candidates@),
                syntax::views(groups@),
                field,
                0,
            ) is None,
        },
{
    let ghost views = syntax::views(candidates@);
    let ghost lists = syntax::views(groups@);
    let mut g: usize = 0;
    while g < groups.len()
        invariant
            g <= groups@.len(),
            views == syntax::views(candidates@),
            lists == syntax::views(groups@),
            groups_list(lists, candidates@.len() as int),
            group_with(views, lists, field, 0) == group_with(views, lists, field, g as int),
        decreases groups@.len() - g,
    {
        let group = &groups[g];
        assert(lists[g as int] == group@);
        let mut k: usize = 0;
        while k < group.len()
            invariant
                k <= group@.len(),
                g < groups@.len(),
                views == syntax::views(candidates@),
                lists == syntax::views(groups@),
                lists[g as int] == group@,
                groups_list(lists, candidates@.len() as int),
                group_with(views, lists, field, 0) == group_with(views, lists, field, g as int),
                forall|j: int|
                    0 <= j < k ==> views[#[trigger] group@[j] as int].member.logical != field,
            decreases group@.len() - k,
        {
            assert(lists[g as int][k as int] < candidates@.len());
            assert(views[group@[k as int] as int] == candidates@[group@[k as int] as int]@);
            if candidates[group[k]].member.logical == field {
                assert(group_holds(views, lists[g as int], field));
                return Some(g);
            }
            k += 1;
        }
        assert(!group_holds(views, lists[g as int], field));
        g += 1;
    }
    None
}

/// The decisions after the first one for a field got another reason, from `i`
/// on.
pub open spec fn with_reason(
    decisions: Seq<LayoutDecision>,
    field: LogicalFieldId,
    reason: LayoutDecisionReason,
    i: int,
) -> Seq<LayoutDecision>
    decreases decisions.len() - i,
{
    if i < 0 || i >= decisions.len() {
        decisions
    } else if decisions[i].field == field {
        decisions.update(i, LayoutDecision { field, reason })
    } else {
        with_reason(decisions, field, reason, i + 1)
    }
}

/// Gives the first decision for a field another reason.
pub fn set_reason(
    decisions: &mut Vec<LayoutDecision>,
    field: LogicalFieldId,
    reason: LayoutDecisionReason,
)
    ensures
        final(decisions)@ == with_reason(old(decisions)@, field, reason, 0),
{
    let mut i: usize = 0;
    while i < decisions.len()
        invariant
            i <= decisions@.len(),
            decisions@ == old(decisions)@,
            with_reason(decisions@, field, reason, 0) == with_reason(
                decisions@,
                field,
                reason,
                i as int,
            ),
        decreases decisions@.len() - i,
    {
        if decisions[i].field == field {
            decisions.set(i, LayoutDecision { field, reason });
            return;
        }
        i += 1;
    }
}

/// A layout whose slots are being merged.
pub struct Merging {
    pub building: Building,
    pub decisions: Seq<LayoutDecision>,
    pub emitted: Seq<usize>,
}

/// The members of a group.
pub open spec fn group_members(
    candidates: Seq<CandidateView>,
    group: Seq<usize>,
) -> Seq<MemberView> {
    Seq::new(group.len(), |k: int| candidates[group[k] as int].member)
}

/// The decisions after the first `n` members of a group were merged.
pub open spec fn merged_decisions(
    decisions: Seq<LayoutDecision>,
    members: Seq<MemberView>,
    n: int,
) -> Seq<LayoutDecision>
    decreases n,
{
    if n <= 0 {
        decisions
    } else {
        with_reason(
            merged_decisions(decisions, members, n - 1),
            members[n - 1].logical,
            LayoutDecisionReason::ReusedSameType,
            0,
        )
    }
}

/// The layout after one more old slot: alone, merged with its group, or merged
/// before.
pub open spec fn merge_slot(
    merging: Merging,
    slot: SlotView,
    candidates: Seq<CandidateView>,
    groups: Seq<Seq<usize>>,
) -> Merging {
    let member = slot.members[0];
    match group_with(candidates, groups, member.logical, 0) {
        None => Merging {
            building: context_layout::with_direct(merging.building, member),
            ..merging
        },
        Some(g) => if merging.emitted.contains(g as usize) {
            merging
        } else {
            let members = group_members(candidates, groups[g]);
            Merging {
                building: context_layout::with_union(
                    merging.building,
                    members,
                    identity_layout::slot_name("cr_slot_"@, merging.emitted.len() as u32),
                ),
                decisions: merged_decisions(
                    merging.decisions,
                    members,
                    members.len() as int,
                ),
                emitted: merging.emitted.push(g as usize),
            }
        },
    }
}

/// The layout after the first `n` old slots.
pub open spec fn merge_slots(
    start: Merging,
    slots: Seq<SlotView>,
    candidates: Seq<CandidateView>,
    groups: Seq<Seq<usize>>,
    n: int,
) -> Merging
    decreases n,
{
    if n <= 0 {
        start
    } else {
        merge_slot(
            merge_slots(start, slots, candidates, groups, n - 1),
            slots[n - 1],
            candidates,
            groups,
        )
    }
}

/// The groups whose storage a layout shares.
pub open spec fn speed_groups(
    layout: LayoutView,
    plan: Option<FunctionPlanView>,
    lifetimes: SlotLivenessFunction,
) -> Seq<Seq<usize>> {
    let candidates = candidates_of(layout.slots, plan, lifetimes, layout.slots.len() as int);
    let groups = groups_of(candidates, lifetimes, candidates.len() as int);
    shared_groups(groups, groups.len() as int)
}

/// The layout after values of one type that are never needed together share
/// their storage.
pub open spec fn speed_layout(
    layout: LayoutView,
    plan: Option<FunctionPlanView>,
    lifetimes: SlotLivenessFunction,
) -> LayoutView {
    let candidates = candidates_of(layout.slots, plan, lifetimes, layout.slots.len() as int);
    let groups = speed_groups(layout, plan, lifetimes);
    if groups.len() == 0 {
        layout
    } else {
        let end = merge_slots(
            Merging {
                building: Building { slots: Seq::empty(), fields: layout.fields },
                decisions: layout.decisions,
                emitted: Seq::empty(),
            },
            layout.slots,
            candidates,
            groups,
            layout.slots.len() as int,
        );
        LayoutView {
            slots: end.building.slots,
            fields: end.building.fields,
            decisions: end.decisions,
            ..layout
        }
    }
}

fn list_members(candidates: &Vec<ReuseCandidate>, group: &Vec<usize>) -> (r: Vec<PhysicalMember>)
    requires
        forall|k: int| 0 <= k < group@.len() ==> #[trigger] group@[k] < candidates@.len(),
    ensures
        syntax::views(r@) == group_members(syntax::views(candidates@), group@),
{
    let ghost all = group_members(syntax::views(candidates@), group@);
    let mut members: Vec<PhysicalMember> = Vec::new();
    let mut k: usize = 0;
    while k < group.len()
        invariant
            k <= group@.len(),
            forall|k: int| 0 <= k < group@.len() ==> #[trigger] group@[k] < candidates@.len(),
            all == group_members(syntax::views(candidates@), group@),
            syntax::views(members@) =~= all.take(k as int),
        decreases group@.len() - k,
    {
        let member = candidates[group[k]].member.clone();
        proof {
            syntax::views_push(members@, member);
        }
        members.push(member);
        k += 1;
    }
    assert(all.take(k as int) =~= all);
    members
}

/// Lets values of one type that are never needed together share their storage.
pub fn apply_speed_layout(
    layout: &mut FunctionContextLayout,
    plan: Option<&CFunctionPlan>,
    lifetimes: &SlotLivenessFunction,
)
    requires
        forall|i: int|
            0 <= i < old(layout)@.slots.len() ==> (#[trigger] old(layout)@.slots[i]).members.len()
                > 0,
    ensures
        final(layout)@ == speed_layout(
            old(layout)@,
            identity_layout::plan_view(plan),
            *lifetimes,
        ),
{
    let ghost before = layout@;
    let candidates = collect_candidates(&layout.slots, plan, lifetimes);
    let all_groups = group_candidates(&candidates, lifetimes);
    let groups = keep_shared(&all_groups);
    let ghost views = syntax::views(candidates@);
    let ghost lists = syntax::views(groups@);
    proof {
        shared_groups_list(
            syntax::views(all_groups@),
            candidates@.len() as int,
            all_groups@.len() as int,
        );
    }
    if groups.len() == 0 {
        return;
    }
    let mut slots: Vec<PhysicalSlot> = Vec::new();
    assert(syntax::views(slots@) =~= Seq::empty());
    let mut emitted: Vec<usize> = Vec::new();
    let ghost start = Merging {
        building: Building { slots: Seq::empty(), fields: before.fields },
        decisions: before.decisions,
        emitted: Seq::empty(),
    };
    let mut i: usize = 0;
    while i < layout.slots.len()
        invariant
            i <= layout.slots@.len(),
            before.slots == syntax::views(layout.slots@),
            forall|i: int|
                0 <= i < before.slots.len() ==> (#[trigger] before.slots[i]).members.len() > 0,
            views == syntax::views(candidates@),
            lists == syntax::views(groups@),
            groups_list(lists, candidates@.len() as int),
            start.building.fields == before.fields,
            start.decisions == before.decisions,
            layout@ == (LayoutView {
                fields: merge_slots(start, before.slots, views, lists, i as int).building.fields,
                decisions: merge_slots(start, before.slots, views, lists, i as int).decisions,
                ..before
            }),
            syntax::views(slots@) == merge_slots(
                start,
                before.slots,
                views,
                lists,
                i as int,
            ).building.slots,
            emitted@ == merge_slots(start, before.slots, views, lists, i as int).emitted,
        decreases layout.slots@.len() - i,
    {
        let ghost merging = merge_slots(start, before.slots, views, lists, i as int);
        assert(before.slots[i as int] == layout.slots@[i as int]@);
        assert(layout.slots@[i as int].members@.len() > 0);
        let member = layout.slots[i].members[0].clone();
        assert(member@ == before.slots[i as int].members[0]);
        assert(context_layout::building_of(slots@, layout.fields@) == merging.building);
        match find_group(&candidates, &groups, member.logical) {
            None => {
                append_direct_slot_to(&mut slots, &mut layout.fields, member);
            },
            Some(g) => {
                if !has_key(&emitted, g) {
                    assert(lists[g as int] == groups@[g as int]@);
                    assert forall|k: int| 0 <= k < groups@[g as int]@.len() implies #[trigger] groups@[g as int]@[k]
                        < candidates@.len() by {
                        assert(lists[g as int][k] < candidates@.len());
                    }
                    let members = list_members(&candidates, &groups[g]);
                    let name = numbered_name("cr_slot_", emitted.len() as u32);
                    append_union_slot_to(&mut slots, &mut layout.fields, &members, name);
                    merge_reasons(&mut layout.decisions, &members);
                    emitted.push(g);
                }
            },
        }
        i += 1;
    }
    layout.slots = slots;
}

fn merge_reasons(decisions: &mut Vec<LayoutDecision>, members: &Vec<PhysicalMember>)
    ensures
        final(decisions)@ == merged_decisions(
            old(decisions)@,
            syntax::views(members@),
            members@.len() as int,
        ),
{
    let ghost views = syntax::views(members@);
    let mut k: usize = 0;
    while k < members.len()
        invariant
            k <= members@.len(),
            views == syntax::views(members@),
            decisions@ == merged_decisions(old(decisions)@, views, k as int),
        decreases members@.len() - k,
    {
        assert(views[k as int] == members@[k as int]@);
        set_reason(decisions, members[k].logical, LayoutDecisionReason::ReusedSameType);
        k += 1;
    }
}

} // verus!
