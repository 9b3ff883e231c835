//! Consistency of context layouts.

use vstd::prelude::*;

use crate::c_static_plan::{CFunctionPlan, CStaticAwaitPlan, FunctionPlanView};
use crate::context_layout::{
    CAccessPath, ContextLayoutPlan, FieldPlacement, FunctionContextLayout, LayoutView,
    LogicalFieldId, MemberView, PathView, PhysicalMember, PhysicalSlot, PhysicalSlotId,
    PhysicalSlotKind, PlacementView, SlotView, UnionMemberId,
};
use crate::identity_layout;
use crate::identity_layout::{build_identity_context_layout, find_lifetimes, find_plan};
use crate::liveness::{LivenessFunction, LivenessUnit};
use crate::order;
use crate::order::find_value;
use crate::slot_liveness::{SlotLivenessFunction, SlotLivenessUnit};
use crate::storage_lifetimes;
use crate::storage_lifetimes::{size_lifetime, size_lifetimes_interfere};
use crate::syntax;
use crate::syntax::{error_diagnostic, Diagnostic, DiagnosticView, SourceSpan};
use crate::text::str_eq;

verus! {

/// The problem of a field without a placement.
pub open spec fn missing_field(span: SourceSpan) -> DiagnosticView {
    syntax::error_view(
        "CRC8004"@,
        "logical context field is missing a physical placement"@,
        span,
    )
}

/// The problems of the first `n` expected fields that have no placement.
pub open spec fn missing_fields(
    found: Seq<DiagnosticView>,
    expected: Seq<(LogicalFieldId, PlacementView)>,
    actual: Seq<(LogicalFieldId, PlacementView)>,
    span: SourceSpan,
    n: int,
) -> Seq<DiagnosticView>
    decreases n,
{
    if n <= 0 {
        found
    } else {
        let before = missing_fields(found, expected, actual, span, n - 1);
        if order::lookup(actual, expected[n - 1].0) is None {
            before.push(missing_field(span))
        } else {
            before
        }
    }
}

/// Whether a slot has its position as identity, and as many members as its
/// kind asks for.
pub open spec fn well_shaped(slot: SlotView, i: int) -> bool {
    slot.id == PhysicalSlotId(i as u32) && match slot.kind {
        PhysicalSlotKind::Direct => slot.members.len() == 1,
        PhysicalSlotKind::Union => slot.members.len() >= 2,
    }
}

/// The problems of the first `n` slots that have a wrong shape.
pub open spec fn shape_problems(
    found: Seq<DiagnosticView>,
    slots: Seq<SlotView>,
    span: SourceSpan,
    n: int,
) -> Seq<DiagnosticView>
    decreases n,
{
    if n <= 0 {
        found
    } else {
        let before = shape_problems(found, slots, span, n - 1);
        if well_shaped(slots[n - 1], n - 1) {
            before
        } else {
            before.push(
                syntax::error_view(
                    "CRC8008"@,
                    "physical context slot has an invalid shape or identity"@,
                    span,
                ),
            )
        }
    }
}

/// The first member with the given identity and field, from `i` on.
pub open spec fn member_at(
    members: Seq<MemberView>,
    id: UnionMemberId,
    logical: LogicalFieldId,
    i: int,
) -> Option<MemberView>
    decreases members.len() - i,
{
    if i < 0 || i >= members.len() {
        None
    } else if members[i].id == id && members[i].logical == logical {
        Some(members[i])
    } else {
        member_at(members, id, logical, i + 1)
    }
}

/// Whether a path leads to a member of a slot.
pub open spec fn path_leads_to(path: PathView, slot: SlotView, member: MemberView) -> bool {
    match (slot.kind, path) {
        (PhysicalSlotKind::Direct, PathView::Direct { field }) => field == member.c_name,
        (PhysicalSlotKind::Union, PathView::UnionMember { slot: s, member: m }) => s == slot.c_name
            && m == member.c_name,
        _ => false,
    }
}

/// What is wrong with the placement of a field.
pub open spec fn placement_problem(
    slots: Seq<SlotView>,
    field: LogicalFieldId,
    placement: PlacementView,
    span: SourceSpan,
) -> Option<DiagnosticView> {
    if placement.slot.0 >= slots.len() {
        Some(
            syntax::error_view(
                "CRC8005"@,
                "context placement references a missing physical slot"@,
                span,
            ),
        )
    } else {
        let slot = slots[placement.slot.0 as int];
        match member_at(slot.members, placement.member, field, 0) {
            None => Some(
                syntax::error_view(
                    "CRC8006"@,
                    "context placement references a missing physical member"@,
                    span,
                ),
            ),
            Some(member) => if path_leads_to(placement.access_path, slot, member) {
                None
            } else {
                Some(
                    syntax::error_view(
                        "CRC8009"@,
                        "context placement has an invalid C access path"@,
                        span,
                    ),
                )
            },
        }
    }
}

/// The problems of the first `n` placements.
pub open spec fn placement_problems(
    found: Seq<DiagnosticView>,
    slots: Seq<SlotView>,
    fields: Seq<(LogicalFieldId, PlacementView)>,
    span: SourceSpan,
    n: int,
) -> Seq<DiagnosticView>
    decreases n,
{
    if n <= 0 {
        found
    } else {
        let before = placement_problems(found, slots, fields, span, n - 1);
        match placement_problem(slots, fields[n - 1].0, fields[n - 1].1, span) {
            Some(problem) => before.push(problem),
            None => before,
        }
    }
}

/// Whether the storage of every member can be shared.
pub open spec fn all_shareable(
    members: Seq<MemberView>,
    plan: Option<FunctionPlanView>,
    function: LivenessFunction,
) -> bool {
    forall|i: int|
        0 <= i < members.len() ==> storage_lifetimes::lifetime_of(
            (#[trigger] members[i]).logical,
            plan,
            function,
        ) is Some
}

/// Whether two members hold values at the same time.
pub open spec fn members_clash(
    first: MemberView,
    second: MemberView,
    plan: Option<FunctionPlanView>,
    function: LivenessFunction,
    lifetimes: SlotLivenessFunction,
) -> bool {
    match (
        storage_lifetimes::lifetime_of(first.logical, plan, function),
        storage_lifetimes::lifetime_of(second.logical, plan, function),
    ) {
        (Some(a), Some(b)) => storage_lifetimes::lifetimes_clash(a, b, function, lifetimes),
        _ => false,
    }
}

/// The problem of members that hold values at the same time.
pub open spec fn clash_problem(span: SourceSpan) -> DiagnosticView {
    syntax::error_view(
        "CRC8007"@,
        "interfering logical fields share one physical slot"@,
        span,
    )
}

/// The problems of member `i` with the members after it, up to `n`.
pub open spec fn clashes_with(
    found: Seq<DiagnosticView>,
    members: Seq<MemberView>,
    plan: Option<FunctionPlanView>,
    function: LivenessFunction,
    lifetimes: SlotLivenessFunction,
    i: int,
    n: int,
) -> Seq<DiagnosticView>
    decreases n - i,
{
    if n <= i + 1 {
        found
    } else {
        let before = clashes_with(found, members, plan, function, lifetimes, i, n - 1);
        if members_clash(members[i], members[n - 1], plan, function, lifetimes) {
            before.push(clash_problem(function.coroutine.cfg.span))
        } else {
            before
        }
    }
}

/// The problems of the first `n` members with the members after them.
pub open spec fn member_clashes(
    found: Seq<DiagnosticView>,
    members: Seq<MemberView>,
    plan: Option<FunctionPlanView>,
    function: LivenessFunction,
    lifetimes: SlotLivenessFunction,
    n: int,
) -> Seq<DiagnosticView>
    decreases n,
{
    if n <= 0 {
        found
    } else {
        clashes_with(
            member_clashes(found, members, plan, function, lifetimes, n - 1),
            members,
            plan,
            function,
            lifetimes,
            n - 1,
            members.len() as int,
        )
    }
}

/// The problems of a slot whose storage is shared.
pub open spec fn sharing_problems_of(
    found: Seq<DiagnosticView>,
    slot: SlotView,
    plan: Option<FunctionPlanView>,
    function: LivenessFunction,
    lifetimes: SlotLivenessFunction,
) -> Seq<DiagnosticView> {
    let own = if slot.kind == PhysicalSlotKind::Union && !all_shareable(
        slot.members,
        plan,
        function,
    ) {
        found.push(
            syntax::error_view(
                "CRC8010"@,
                "ineligible logical field is placed in reusable storage"@,
                function.coroutine.cfg.span,
            ),
        )
    } else {
        found
    };
    member_clashes(own, slot.members, plan, function, lifetimes, slot.members.len() as int)
}

/// The problems of the first `n` slots whose storage is shared.
pub open spec fn sharing_problems(
    found: Seq<DiagnosticView>,
    slots: Seq<SlotView>,
    plan: Option<FunctionPlanView>,
    function: LivenessFunction,
    lifetimes: SlotLivenessFunction,
    n: int,
) -> Seq<DiagnosticView>
    decreases n,
{
    if n <= 0 {
        found
    } else {
        sharing_problems_of(
            sharing_problems(found, slots, plan, function, lifetimes, n - 1),
            slots[n - 1],
            plan,
            function,
            lifetimes,
        )
    }
}

/// The problems of one layout, after those found before.
pub open spec fn layout_problems_of(
    found: Seq<DiagnosticView>,
    expected: Seq<(LogicalFieldId, PlacementView)>,
    actual: LayoutView,
    plan: Option<FunctionPlanView>,
    function: LivenessFunction,
    lifetimes: Option<SlotLivenessFunction>,
) -> Seq<DiagnosticView> {
    let span = function.coroutine.cfg.span;
    let missing = missing_fields(found, expected, actual.fields, span, expected.len() as int);
    let shapes = shape_problems(missing, actual.slots, span, actual.slots.len() as int);
    let places = placement_problems(
        shapes,
        actual.slots,
        actual.fields,
        span,
        actual.fields.len() as int,
    );
    match lifetimes {
        Some(own) => sharing_problems(
            places,
            actual.slots,
            plan,
            function,
            own,
            actual.slots.len() as int,
        ),
        None => places,
    }
}

/// The first function that starts at `start`, from `i` on.
pub open spec fn function_at(functions: Seq<LivenessFunction>, start: usize, i: int) -> Option<int>
    decreases functions.len() - i,
{
    if i < 0 || i >= functions.len() {
        None
    } else if functions[i].coroutine.cfg.span.start_byte == start {
        Some(i)
    } else {
        function_at(functions, start, i + 1)
    }
}

/// The problems after one more expected layout was looked for.
pub open spec fn check_layout(
    found: Seq<DiagnosticView>,
    expected: LayoutView,
    unit: LivenessUnit,
    static_plan: Option<&CStaticAwaitPlan>,
    slot_liveness: SlotLivenessUnit,
    layouts: Seq<(usize, LayoutView)>,
) -> Seq<DiagnosticView> {
    let functions = unit.functions@;
    match order::lookup(layouts, expected.source_start) {
        None => {
            let i = function_at(functions, expected.source_start, 0)->0;
            found.push(
                syntax::error_view(
                    "CRC8003"@,
                    "async function is missing a context layout"@,
                    functions[i].coroutine.cfg.span,
                ),
            )
        },
        Some(actual) => {
            let i = function_at(functions, actual.source_start, 0)->0;
            layout_problems_of(
                found,
                expected.fields,
                actual,
                identity_layout::planned_at(static_plan, actual.source_start),
                functions[i],
                identity_layout::lifetimes_of(slot_liveness.functions@, i, 0),
            )
        },
    }
}

/// The problems after the first `n` expected layouts were looked for.
pub open spec fn check_layouts(
    found: Seq<DiagnosticView>,
    expected: Seq<(usize, LayoutView)>,
    unit: LivenessUnit,
    static_plan: Option<&CStaticAwaitPlan>,
    slot_liveness: SlotLivenessUnit,
    layouts: Seq<(usize, LayoutView)>,
    n: int,
) -> Seq<DiagnosticView>
    decreases n,
{
    if n <= 0 {
        found
    } else {
        check_layout(
            check_layouts(found, expected, unit, static_plan, slot_liveness, layouts, n - 1),
            expected[n - 1].1,
            unit,
            static_plan,
            slot_liveness,
            layouts,
        )
    }
}

/// All problems of the layouts of a unit.
pub open spec fn layout_problems(
    unit: LivenessUnit,
    static_plan: Option<&CStaticAwaitPlan>,
    slot_liveness: SlotLivenessUnit,
    layouts: Seq<(usize, LayoutView)>,
) -> Seq<DiagnosticView> {
    let functions = unit.functions@;
    let expected = identity_layout::identity_layouts(
        functions,
        static_plan,
        slot_liveness,
        functions.len() as int,
    );
    check_layouts(
        identity_layout::identity_problems(functions, slot_liveness, functions.len() as int),
        expected,
        unit,
        static_plan,
        slot_liveness,
        layouts,
        expected.len() as int,
    )
}

/// Whether every layout that stands where a function with a context starts
/// names a function of the unit.
pub open spec fn layouts_belong(
    functions: Seq<LivenessFunction>,
    slot_liveness: SlotLivenessUnit,
    layouts: Seq<(usize, LayoutView)>,
) -> bool {
    forall|i: int|
        #![trigger functions[i]]
        0 <= i < functions.len() && identity_layout::has_context(functions, slot_liveness, i)
            ==> match order::lookup(layouts, functions[i].coroutine.cfg.span.start_byte) {
            Some(layout) => function_at(functions, layout.source_start, 0) is Some,
            None => true,
        }
}

fn push_problem(
    diagnostics: &mut Vec<Diagnostic>,
    code: &'static str,
    message: &str,
    span: &SourceSpan,
)
    ensures
        syntax::views(final(diagnostics)@) == syntax::views(old(diagnostics)@).push(
            syntax::error_view(code@, message@, *span),
        ),
{
    let diagnostic = error_diagnostic(code, message, span);
    proof {
        syntax::views_push(diagnostics@, diagnostic);
    }
    diagnostics.push(diagnostic);
}

fn check_missing_fields(
    expected: &Vec<(LogicalFieldId, FieldPlacement)>,
    actual: &Vec<(LogicalFieldId, FieldPlacement)>,
    span: &SourceSpan,
    diagnostics: &mut Vec<Diagnostic>,
)
    ensures
        syntax::views(final(diagnostics)@) == missing_fields(
            syntax::views(old(diagnostics)@),
            order::entry_views(expected@),
            order::entry_views(actual@),
            *span,
            expected@.len() as int,
        ),
{
    let mut i: usize = 0;
    while i < expected.len()
        invariant
            i <= expected@.len(),
            syntax::views(diagnostics@) == missing_fields(
                syntax::views(old(diagnostics)@),
                order::entry_views(expected@),
                order::entry_views(actual@),
                *span,
                i as int,
            ),
        decreases expected@.len() - i,
    {
        proof {
            order::lookup_views(actual@, expected@[i as int].0);
        }
        if find_value(actual, expected[i].0).is_none() {
            push_problem(
                diagnostics,
                "CRC8004",
                "logical context field is missing a physical placement",
                span,
            );
        }
        i += 1;
    }
}

fn check_shapes(slots: &Vec<PhysicalSlot>, span: &SourceSpan, diagnostics: &mut Vec<Diagnostic>)
    ensures
        syntax::views(final(diagnostics)@) == shape_problems(
            syntax::views(old(diagnostics)@),
            syntax::views(slots@),
            *span,
            slots@.len() as int,
        ),
{
    let mut i: usize = 0;
    while i < slots.len()
        invariant
            i <= slots@.len(),
            syntax::views(diagnostics@) == shape_problems(
                syntax::views(old(diagnostics)@),
                syntax::views(slots@),
                *span,
                i as int,
            ),
        decreases slots@.len() - i,
    {
        let slot = &slots[i];
        assert(syntax::views(slots@)[i as int] == slot@);
        let shaped = match slot.kind {
            PhysicalSlotKind::Direct => slot.members.len() == 1,
            PhysicalSlotKind::Union => slot.members.len() >= 2,
        };
        if slot.id != PhysicalSlotId(i as u32) || !shaped {
            push_problem(
                diagnostics,
                "CRC8008",
                "physical context slot has an invalid shape or identity",
                span,
            );
        }
        i += 1;
    }
}

fn find_member(members: &Vec<PhysicalMember>, id: UnionMemberId, logical: LogicalFieldId) -> (r:
    Option<&PhysicalMember>)
    ensures
        match r {
            Some(member) => member_at(syntax::views(members@), id, logical, 0) == Some(member@),
            None => member_at(syntax::views(members@), id, logical, 0) is None,
        },
{
    let ghost views = syntax::views(members@);
    let mut i: usize = 0;
    while i < members.len()
        invariant
            i <= members@.len(),
            views == syntax::views(members@),
            member_at(views, id, logical, 0) == member_at(views, id, logical, i as int),
        decreases members@.len() - i,
    {
        assert(views[i as int] == members@[i as int]@);
        if members[i].id == id && members[i].logical == logical {
            return Some(&members[i]);
        }
        i += 1;
    }
    None
}

fn check_placements(
    layout: &FunctionContextLayout,
    span: &SourceSpan,
    diagnostics: &mut Vec<Diagnostic>,
)
    ensures
        syntax::views(final(diagnostics)@) == placement_problems(
            syntax::views(old(diagnostics)@),
            layout@.slots,
            layout@.fields,
            *span,
            layout@.fields.len() as int,
        ),
{
    let ghost slots = layout@.slots;
    let ghost fields = layout@.fields;
    let mut i: usize = 0;
    while i < layout.fields.len()
        invariant
            i <= layout.fields@.len(),
            slots == syntax::views(layout.slots@),
            fields == order::entry_views(layout.fields@),
            syntax::views(diagnostics@) == placement_problems(
                syntax::views(old(diagnostics)@),
                slots,
                fields,
                *span,
                i as int,
            ),
        decreases layout.fields@.len() - i,
    {
        let field = layout.fields[i].0;
        let placement = &layout.fields[i].1;
        assert(fields[i as int] == (field, placement@));
        let position: usize = placement.slot.0 as usize;
        if position >= layout.slots.len() {
            push_problem(
                diagnostics,
                "CRC8005",
                "context placement references a missing physical slot",
                span,
            );
        } else {
            let slot = &layout.slots[position];
            assert(slots[position as int] == slot@);
            match find_member(&slot.members, placement.member, field) {
                None => {
                    push_problem(
                        diagnostics,
                        "CRC8006",
                        "context placement references a missing physical member",
                        span,
                    );
                },
                Some(member) => {
                    let valid = match (slot.kind, &placement.access_path) {
                        (PhysicalSlotKind::Direct, CAccessPath::Direct { field }) => str_eq(
                            field.as_str(),
                            member.c_name.as_str(),
                        ),
                        (
                            PhysicalSlotKind::Union,
                            CAccessPath::UnionMember { slot: s, member: m },
                        ) => str_eq(s.as_str(), slot.c_name.as_str()) && str_eq(
                            m.as_str(),
                            member.c_name.as_str(),
                        ),
                        _ => false,
                    };
                    if !valid {
                        push_problem(
                            diagnostics,
                            "CRC8009",
                            "context placement has an invalid C access path",
                            span,
                        );
                    }
                },
            }
        }
        i += 1;
    }
}

fn members_shareable(
    members: &Vec<PhysicalMember>,
    plan: Option<&CFunctionPlan>,
    function: &LivenessFunction,
) -> (r: bool)
    ensures
        r == all_shareable(
            syntax::views(members@),
            identity_layout::plan_view(plan),
            *function,
        ),
{
    let ghost views = syntax::views(members@);
    let mut i: usize = 0;
    while i < members.len()
        invariant
            i <= members@.len(),
            views == syntax::views(members@),
            forall|k: int|
                0 <= k < i ==> storage_lifetimes::lifetime_of(
                    (#[trigger] views[k]).logical,
                    identity_layout::plan_view(plan),
                    *function,
                ) is Some,
        decreases members@.len() - i,
    {
        assert(views[i as int] == members@[i as int]@);
        if size_lifetime(members[i].logical, plan, function).is_none() {
            return false;
        }
        i += 1;
    }
    true
}

fn check_clashes(
    members: &Vec<PhysicalMember>,
    plan: Option<&CFunctionPlan>,
    function: &LivenessFunction,
    lifetimes: &SlotLivenessFunction,
    diagnostics: &mut Vec<Diagnostic>,
)
    ensures
        syntax::views(final(diagnostics)@) == member_clashes(
            syntax::views(old(diagnostics)@),
            syntax::views(members@),
            identity_layout::plan_view(plan),
            *function,
            *lifetimes,
            members@.len() as int,
        ),
{
    let ghost views = syntax::views(members@);
    let ghost start = syntax::views(diagnostics@);
    let mut i: usize = 0;
    while i < members.len()
        invariant
            i <= members@.len(),
            views == syntax::views(members@),
            start == syntax::views(old(diagnostics)@),
            syntax::views(diagnostics@) == member_clashes(
                start,
                views,
                identity_layout::plan_view(plan),
                *function,
                *lifetimes,
                i as int,
            ),
        decreases members@.len() - i,
    {
        let ghost before = syntax::views(diagnostics@);
        let mut j: usize = i + 1;
        while j < members.len()
            invariant
                i < j <= members@.len(),
                views == syntax::views(members@),
                syntax::views(diagnostics@) == clashes_with(
                    before,
                    views,
                    identity_layout::plan_view(plan),
                    *function,
                    *lifetimes,
                    i as int,
                    j as int,
                ),
            decreases members@.len() - j,
        {
            assert(views[i as int] == members@[i as int]@);
            assert(views[j as int] == members@[j as int]@);
            let first = size_lifetime(members[i].logical, plan, function);
            let second = size_lifetime(members[j].logical, plan, function);
            let clash = match (first, second) {
                (Some(a), Some(b)) => size_lifetimes_interfere(a, b, function, lifetimes),
                _ => false,
            };
            if clash {
                push_problem(
                    diagnostics,
                    "CRC8007",
                    "interfering logical fields share one physical slot",
                    &function.coroutine.cfg.span,
                );
            }
            j += 1;
        }
        i += 1;
    }
}

fn check_sharing(
    slots: &Vec<PhysicalSlot>,
    plan: Option<&CFunctionPlan>,
    function: &LivenessFunction,
    lifetimes: &SlotLivenessFunction,
    diagnostics: &mut Vec<Diagnostic>,
)
    ensures
        syntax::views(final(diagnostics)@) == sharing_problems(
            syntax::views(old(diagnostics)@),
            syntax::views(slots@),
            identity_layout::plan_view(plan),
            *function,
            *lifetimes,
            slots@.len() as int,
        ),
{
    let mut i: usize = 0;
    while i < slots.len()
        invariant
            i <= slots@.len(),
            syntax::views(diagnostics@) == sharing_problems(
                syntax::views(old(diagnostics)@),
                syntax::views(slots@),
                identity_layout::plan_view(plan),
                *function,
                *lifetimes,
                i as int,
            ),
        decreases slots@.len() - i,
    {
        let slot = &slots[i];
        assert(syntax::views(slots@)[i as int] == slot@);
        if slot.kind == PhysicalSlotKind::Union && !members_shareable(
            &slot.members,
            plan,
            function,
        ) {
            push_problem(
                diagnostics,
                "CRC8010",
                "ineligible logical field is placed in reusable storage",
                &function.coroutine.cfg.span,
            );
        }
        check_clashes(&slot.members, plan, function, lifetimes, diagnostics);
        i += 1;
    }
}

/// Finds the first function that starts at `start`.
pub fn find_function(functions: &Vec<LivenessFunction>, start: usize) -> (r: Option<usize>)
    ensures
        match r {
            Some(i) => function_at(functions@, start, 0) == Some(i as int) && i < functions@.len(),
            None => function_at(functions@, start, 0) is None,
        },
{
    let mut i: usize = 0;
    while i < functions.len()
        invariant
            i <= functions@.len(),
            function_at(functions@, start, 0) == function_at(functions@, start, i as int),
        decreases functions@.len() - i,
    {
        if functions[i].coroutine.cfg.span.start_byte == start {
            return Some(i);
        }
        i += 1;
    }
    None
}

/// Verifies complete placement and physical-slot consistency before emission.
#[must_use]
pub fn verify_context_layout(
    unit: &LivenessUnit,
    static_plan: Option<&CStaticAwaitPlan>,
    slot_liveness: &SlotLivenessUnit,
    plan: &ContextLayoutPlan,
) -> (r: Vec<Diagnostic>)
    requires
        identity_layout::contexts_distinct(unit.functions@, static_plan, *slot_liveness),
        layouts_belong(unit.functions@, *slot_liveness, order::entry_views(plan.functions@)),
    ensures
        syntax::views(r@) == layout_problems(
            *unit,
            static_plan,
            *slot_liveness,
            order::entry_views(plan.functions@),
        ),
{
    let identity = build_identity_context_layout(unit, static_plan, slot_liveness);
    let ghost expected = order::entry_views(identity.functions@);
    let ghost layouts = order::entry_views(plan.functions@);
    let ghost start = syntax::views(identity.diagnostics@);
    proof {
        identity_starts(
            unit.functions@,
            static_plan,
            *slot_liveness,
            unit.functions@.len() as int,
        );
    }
    let mut diagnostics = identity.diagnostics;
    let mut i: usize = 0;
    while i < identity.functions.len()
        invariant
            i <= identity.functions@.len(),
            expected == order::entry_views(identity.functions@),
            layouts == order::entry_views(plan.functions@),
            layouts_belong(unit.functions@, *slot_liveness, layouts),
            forall|k: int|
                0 <= k < expected.len() ==> function_at(
                    unit.functions@,
                    (#[trigger] expected[k]).1.source_start,
                    0,
                ) is Some && context_starts(
                    unit.functions@,
                    *slot_liveness,
                    expected[k].1.source_start,
                ),
            syntax::views(diagnostics@) == check_layouts(
                start,
                expected,
                *unit,
                static_plan,
                *slot_liveness,
                layouts,
                i as int,
            ),
        decreases identity.functions@.len() - i,
    {
        let wanted = &identity.functions[i].1;
        assert(expected[i as int].1 == wanted@);
        proof {
            order::lookup_views(plan.functions@, wanted.source_start);
            order::key_point_bounds(plan.functions@, wanted.source_start, 0);
        }
        match find_value(&plan.functions, wanted.source_start) {
            None => {
                if let Some(f) = find_function(&unit.functions, wanted.source_start) {
                    push_problem(
                        &mut diagnostics,
                        "CRC8003",
                        "async function is missing a context layout",
                        &unit.functions[f].coroutine.cfg.span,
                    );
                }
            },
            Some(actual) => {
                proof {
                    let p = order::key_point(plan.functions@, wanted.source_start, 0);
                    assert(layouts[p].1 == actual@);
                    let k = choose|k: int|
                        0 <= k < unit.functions@.len() && identity_layout::has_context(
                            unit.functions@,
                            *slot_liveness,
                            k,
                        ) && (
                        #[trigger] unit.functions@[k]).coroutine.cfg.span.start_byte
                            == wanted.source_start;
                    assert(order::lookup(
                        layouts,
                        unit.functions@[k].coroutine.cfg.span.start_byte,
                    ) == Some(actual@));
                }
                if let Some(f) = find_function(&unit.functions, actual.source_start) {
                    let function = &unit.functions[f];
                    let span = &function.coroutine.cfg.span;
                    check_missing_fields(
                        &wanted.fields,
                        &actual.fields,
                        span,
                        &mut diagnostics,
                    );
                    check_shapes(&actual.slots, span, &mut diagnostics);
                    check_placements(actual, span, &mut diagnostics);
                    if let Some(lifetimes) = find_lifetimes(slot_liveness, f) {
                        check_sharing(
                            &actual.slots,
                            find_plan(static_plan, actual.source_start),
                            function,
                            lifetimes,
                            &mut diagnostics,
                        );
                    }
                }
            },
        }
        i += 1;
    }
    diagnostics
}

/// The position of a function is found by where it starts.
pub proof fn function_at_finds(functions: Seq<LivenessFunction>, i: int, k: int)
    requires
        0 <= i <= k < functions.len(),
    ensures
        function_at(functions, functions[k].coroutine.cfg.span.start_byte, i) is Some,
    decreases k - i,
{
    if i < k {
        function_at_finds(functions, i + 1, k);
    }
}

/// Whether a function with a context starts at a place.
pub open spec fn context_starts(
    functions: Seq<LivenessFunction>,
    slot_liveness: SlotLivenessUnit,
    start: usize,
) -> bool {
    exists|k: int|
        0 <= k < functions.len() && identity_layout::has_context(functions, slot_liveness, k) && (
        #[trigger] functions[k]).coroutine.cfg.span.start_byte == start
}

/// Identity layouts stand where functions with a context start, in ascending
/// order.
pub proof fn identity_starts(
    functions: Seq<LivenessFunction>,
    plan: Option<&CStaticAwaitPlan>,
    slot_liveness: SlotLivenessUnit,
    n: int,
)
    requires
        0 <= n <= functions.len(),
    ensures
        order::ascending(identity_layout::identity_layouts(functions, plan, slot_liveness, n)),
        forall|i: int|
            0 <= i < identity_layout::identity_layouts(functions, plan, slot_liveness, n).len() ==> {
                let entry = #[trigger] identity_layout::identity_layouts(
                    functions,
                    plan,
                    slot_liveness,
                    n,
                )[i];
                entry.0 == entry.1.source_start && function_at(
                    functions,
                    entry.1.source_start,
                    0,
                ) is Some && context_starts(functions, slot_liveness, entry.0)
            },
    decreases n,
{
    if n > 0 {
        identity_starts(functions, plan, slot_liveness, n - 1);
        let before = identity_layout::identity_layouts(functions, plan, slot_liveness, n - 1);
        let after = identity_layout::identity_layouts(functions, plan, slot_liveness, n);
        let function = functions[n - 1];
        let start = function.coroutine.cfg.span.start_byte;
        if after != before {
            let layout = identity_layout::identity_layout(
                function,
                identity_layout::planned_at(plan, start),
            );
            order::put_ascending(before, start, layout, start);
            function_at_finds(functions, 0, n - 1);
            order::key_point_bounds(before, start, 0);
            let p = order::key_point(before, start, 0);
            assert forall|i: int| 0 <= i < after.len() implies ({
                let entry = #[trigger] after[i];
                entry.0 == entry.1.source_start && function_at(
                    functions,
                    entry.1.source_start,
                    0,
                ) is Some && context_starts(functions, slot_liveness, entry.0)
            }) by {
                assert(functions[n - 1].coroutine.cfg.span.start_byte == start);
                if i != p {
                    if order::lookup(before, start) is Some || i < p {
                        assert(after[i] == before[i]);
                    } else {
                        assert(after[i] == before[i - 1]);
                    }
                }
            }
        }
    }
}

} // verus!
