//! What it means that the check of a context layout finds nothing.

use vstd::prelude::*;

use crate::c_instruction;
use crate::c_instruction::FunctionView;
use crate::c_source;
use crate::c_source::TaskView;
use crate::c_static_plan::{ChildPlanView, FunctionPlanView};
use crate::c_task;
use crate::context_layout::{
    LayoutView, LogicalFieldId, MemberView, PhysicalSlotKind, PlacementView, SlotView,
};
use crate::identity_layout;
use crate::identity_layout::FieldView;
use crate::layout_check;
use crate::layout_soundness;
use crate::liveness::{LiftedField, LivenessFunction};
use crate::order;
use crate::slot_liveness::SlotLivenessFunction;
use crate::syntax::{DiagnosticView, SourceSpan};
use crate::text;

verus! {

proof fn missing_fields_count(
    found: Seq<DiagnosticView>,
    expected: Seq<(LogicalFieldId, PlacementView)>,
    actual: Seq<(LogicalFieldId, PlacementView)>,
    span: SourceSpan,
    n: int,
)
    requires
        n <= expected.len(),
    ensures
        layout_check::missing_fields(found, expected, actual, span, n).len() >= found.len(),
        layout_check::missing_fields(found, expected, actual, span, n).len() == found.len() ==> (
        layout_check::missing_fields(found, expected, actual, span, n) == found && forall|i: int|
            0 <= i < n ==> order::lookup(actual, (#[trigger] expected[i]).0) is Some),
    decreases n,
{
    if n > 0 {
        missing_fields_count(found, expected, actual, span, n - 1);
    }
}

proof fn shape_problems_count(
    found: Seq<DiagnosticView>,
    slots: Seq<SlotView>,
    span: SourceSpan,
    n: int,
)
    requires
        n <= slots.len(),
    ensures
        layout_check::shape_problems(found, slots, span, n).len() >= found.len(),
        layout_check::shape_problems(found, slots, span, n).len() == found.len() ==> (
        layout_check::shape_problems(found, slots, span, n) == found && forall|i: int|
            0 <= i < n ==> layout_check::well_shaped(#[trigger] slots[i], i)),
    decreases n,
{
    if n > 0 {
        shape_problems_count(found, slots, span, n - 1);
    }
}

proof fn placement_problems_count(
    found: Seq<DiagnosticView>,
    slots: Seq<SlotView>,
    fields: Seq<(LogicalFieldId, PlacementView)>,
    span: SourceSpan,
    n: int,
)
    requires
        n <= fields.len(),
    ensures
        layout_check::placement_problems(found, slots, fields, span, n).len() >= found.len(),
        layout_check::placement_problems(found, slots, fields, span, n).len() == found.len() ==> (
        layout_check::placement_problems(found, slots, fields, span, n) == found && forall|i: int|
            0 <= i < n ==> layout_check::placement_problem(
                slots,
                (#[trigger] fields[i]).0,
                fields[i].1,
                span,
            ) is None),
    decreases n,
{
    if n > 0 {
        placement_problems_count(found, slots, fields, span, n - 1);
    }
}

proof fn pair_clashes_count(
    found: Seq<DiagnosticView>,
    members: Seq<MemberView>,
    plan: Option<FunctionPlanView>,
    function: LivenessFunction,
    lifetimes: SlotLivenessFunction,
    i: int,
    n: int,
)
    requires
        0 <= i,
        n <= members.len(),
    ensures
        layout_check::clashes_with(found, members, plan, function, lifetimes, i, n).len()
            >= found.len(),
        layout_check::clashes_with(found, members, plan, function, lifetimes, i, n).len()
            == found.len() ==> (layout_check::clashes_with(
            found,
            members,
            plan,
            function,
            lifetimes,
            i,
            n,
        ) == found && forall|j: int|
            i < j < n ==> !layout_check::members_clash(
                members[i],
                #[trigger] members[j],
                plan,
                function,
                lifetimes,
            )),
    decreases n - i,
{
    if n > i + 1 {
        pair_clashes_count(found, members, plan, function, lifetimes, i, n - 1);
    }
}

proof fn member_clashes_count(
    found: Seq<DiagnosticView>,
    members: Seq<MemberView>,
    plan: Option<FunctionPlanView>,
    function: LivenessFunction,
    lifetimes: SlotLivenessFunction,
    n: int,
)
    requires
        n <= members.len(),
    ensures
        layout_check::member_clashes(found, members, plan, function, lifetimes, n).len()
            >= found.len(),
        layout_check::member_clashes(found, members, plan, function, lifetimes, n).len()
            == found.len() ==> (layout_check::member_clashes(
            found,
            members,
            plan,
            function,
            lifetimes,
            n,
        ) == found && forall|i: int, j: int|
            0 <= i < n && i < j < members.len() ==> !layout_check::members_clash(
                #[trigger] members[i],
                #[trigger] members[j],
                plan,
                function,
                lifetimes,
            )),
    decreases n,
{
    if n > 0 {
        member_clashes_count(found, members, plan, function, lifetimes, n - 1);
        let before = layout_check::member_clashes(
            found,
            members,
            plan,
            function,
            lifetimes,
            n - 1,
        );
        pair_clashes_count(
            before,
            members,
            plan,
            function,
            lifetimes,
            n - 1,
            members.len() as int,
        );
    }
}

proof fn sharing_problems_count(
    found: Seq<DiagnosticView>,
    slots: Seq<SlotView>,
    plan: Option<FunctionPlanView>,
    function: LivenessFunction,
    lifetimes: SlotLivenessFunction,
    n: int,
)
    requires
        n <= slots.len(),
    ensures
        layout_check::sharing_problems(found, slots, plan, function, lifetimes, n).len()
            >= found.len(),
        layout_check::sharing_problems(found, slots, plan, function, lifetimes, n).len()
            == found.len() ==> (layout_check::sharing_problems(
            found,
            slots,
            plan,
            function,
            lifetimes,
            n,
        ) == found && forall|i: int|
            0 <= i < n ==> layout_soundness::slot_shares(
                #[trigger] slots[i],
                plan,
                function,
                lifetimes,
            )),
    decreases n,
{
    if n > 0 {
        sharing_problems_count(found, slots, plan, function, lifetimes, n - 1);
        let before = layout_check::sharing_problems(
            found,
            slots,
            plan,
            function,
            lifetimes,
            n - 1,
        );
        let slot = slots[n - 1];
        let own = if slot.kind == PhysicalSlotKind::Union && !layout_check::all_shareable(
            slot.members,
            plan,
            function,
        ) {
            before.push(
                crate::syntax::error_view(
                    "CRC8010"@,
                    "ineligible logical field is placed in reusable storage"@,
                    function.coroutine.cfg.span,
                ),
            )
        } else {
            before
        };
        member_clashes_count(
            own,
            slot.members,
            plan,
            function,
            lifetimes,
            slot.members.len() as int,
        );
    }
}

/// Whether a layout places what it should, has well-shaped slots, leads to
/// every member by its placement, and lets nothing share storage that can't.
pub open spec fn layout_passes(
    expected: Seq<(LogicalFieldId, PlacementView)>,
    layout: LayoutView,
    plan: Option<FunctionPlanView>,
    function: LivenessFunction,
    lifetimes: SlotLivenessFunction,
) -> bool {
    &&& forall|i: int|
        0 <= i < expected.len() ==> order::lookup(
            layout.fields,
            (#[trigger] expected[i]).0,
        ) is Some
    &&& forall|i: int|
        0 <= i < layout.slots.len() ==> layout_check::well_shaped(#[trigger] layout.slots[i], i)
    &&& forall|i: int|
        0 <= i < layout.fields.len() ==> layout_check::placement_problem(
            layout.slots,
            (#[trigger] layout.fields[i]).0,
            layout.fields[i].1,
            function.coroutine.cfg.span,
        ) is None
    &&& forall|i: int|
        0 <= i < layout.slots.len() ==> layout_soundness::slot_shares(
            #[trigger] layout.slots[i],
            plan,
            function,
            lifetimes,
        )
}

/// The check of a layout finds nothing exactly when the layout places every
/// field it should, each placement leads to its member, and no two members of
/// a slot hold values at the same time.
pub proof fn check_passes_iff(
    found: Seq<DiagnosticView>,
    expected: Seq<(LogicalFieldId, PlacementView)>,
    layout: LayoutView,
    plan: Option<FunctionPlanView>,
    function: LivenessFunction,
    lifetimes: SlotLivenessFunction,
)
    ensures
        layout_check::layout_problems_of(
            found,
            expected,
            layout,
            plan,
            function,
            Some(lifetimes),
        ) == found <==> layout_passes(expected, layout, plan, function, lifetimes),
{
    let span = function.coroutine.cfg.span;
    let missing = layout_check::missing_fields(
        found,
        expected,
        layout.fields,
        span,
        expected.len() as int,
    );
    missing_fields_count(found, expected, layout.fields, span, expected.len() as int);
    let shapes = layout_check::shape_problems(
        missing,
        layout.slots,
        span,
        layout.slots.len() as int,
    );
    shape_problems_count(missing, layout.slots, span, layout.slots.len() as int);
    let places = layout_check::placement_problems(
        shapes,
        layout.slots,
        layout.fields,
        span,
        layout.fields.len() as int,
    );
    placement_problems_count(
        shapes,
        layout.slots,
        layout.fields,
        span,
        layout.fields.len() as int,
    );
    sharing_problems_count(
        places,
        layout.slots,
        plan,
        function,
        lifetimes,
        layout.slots.len() as int,
    );
    if layout_passes(expected, layout, plan, function, lifetimes) {
        passing_stages(found, expected, layout, plan, function, lifetimes);
    }
}

proof fn passing_stages(
    found: Seq<DiagnosticView>,
    expected: Seq<(LogicalFieldId, PlacementView)>,
    layout: LayoutView,
    plan: Option<FunctionPlanView>,
    function: LivenessFunction,
    lifetimes: SlotLivenessFunction,
)
    requires
        layout_passes(expected, layout, plan, function, lifetimes),
    ensures
        layout_check::layout_problems_of(
            found,
            expected,
            layout,
            plan,
            function,
            Some(lifetimes),
        ) == found,
{
    let span = function.coroutine.cfg.span;
    none_missing(found, expected, layout.fields, span, expected.len() as int);
    none_misshapen(found, layout.slots, span, layout.slots.len() as int);
    none_misplaced(found, layout.slots, layout.fields, span, layout.fields.len() as int);
    layout_soundness::no_sharing_wrong(
        found,
        layout.slots,
        plan,
        function,
        lifetimes,
        layout.slots.len() as int,
    );
}

proof fn none_missing(
    found: Seq<DiagnosticView>,
    expected: Seq<(LogicalFieldId, PlacementView)>,
    actual: Seq<(LogicalFieldId, PlacementView)>,
    span: SourceSpan,
    n: int,
)
    requires
        n <= expected.len(),
        forall|i: int|
            0 <= i < expected.len() ==> order::lookup(actual, (#[trigger] expected[i]).0) is Some,
    ensures
        layout_check::missing_fields(found, expected, actual, span, n) == found,
    decreases n,
{
    if n > 0 {
        none_missing(found, expected, actual, span, n - 1);
        assert(order::lookup(actual, expected[n - 1].0) is Some);
    }
}

proof fn none_misshapen(
    found: Seq<DiagnosticView>,
    slots: Seq<SlotView>,
    span: SourceSpan,
    n: int,
)
    requires
        n <= slots.len(),
        forall|i: int| 0 <= i < slots.len() ==> layout_check::well_shaped(#[trigger] slots[i], i),
    ensures
        layout_check::shape_problems(found, slots, span, n) == found,
    decreases n,
{
    if n > 0 {
        none_misshapen(found, slots, span, n - 1);
        assert(layout_check::well_shaped(slots[n - 1], n - 1));
    }
}

proof fn none_misplaced(
    found: Seq<DiagnosticView>,
    slots: Seq<SlotView>,
    fields: Seq<(LogicalFieldId, PlacementView)>,
    span: SourceSpan,
    n: int,
)
    requires
        n <= fields.len(),
        forall|i: int|
            0 <= i < fields.len() ==> layout_check::placement_problem(
                slots,
                (#[trigger] fields[i]).0,
                fields[i].1,
                span,
            ) is None,
    ensures
        layout_check::placement_problems(found, slots, fields, span, n) == found,
    decreases n,
{
    if n > 0 {
        none_misplaced(found, slots, fields, span, n - 1);
        assert(layout_check::placement_problem(
            slots,
            fields[n - 1].0,
            fields[n - 1].1,
            span,
        ) is None);
    }
}

/// Whether a field is among the fields of a context.
pub open spec fn has_field(fields: Seq<FieldView>, field: LogicalFieldId) -> bool {
    exists|i: int| 0 <= i < fields.len() && (#[trigger] fields[i]).logical == field
}

proof fn has_field_pushed(fields: Seq<FieldView>, added: FieldView, field: LogicalFieldId)
    ensures
        has_field(fields, field) ==> has_field(fields.push(added), field),
        has_field(fields.push(added), added.logical),
{
    let more = fields.push(added);
    assert(more[fields.len() as int] == added);
    if has_field(fields, field) {
        let i = choose|i: int| 0 <= i < fields.len() && (#[trigger] fields[i]).logical == field;
        assert(more[i].logical == field);
    }
}

proof fn lifted_fields_hold(
    found: Seq<FieldView>,
    lifted: Seq<LiftedField>,
    plan: Option<FunctionPlanView>,
    n: int,
    field: LogicalFieldId,
)
    requires
        n <= lifted.len(),
    ensures
        has_field(found, field) ==> has_field(
            identity_layout::lifted_fields(found, lifted, plan, n),
            field,
        ),
        forall|i: int|
            0 <= i < n ==> {
                let after = identity_layout::lifted_fields(found, lifted, plan, n);
                let id = (#[trigger] lifted[i]).declaration;
                &&& has_field(after, LogicalFieldId::Lifted(id))
                &&& lifted[i].is_task ==> has_field(after, LogicalFieldId::BindingActive(id))
                    && has_field(after, LogicalFieldId::BindingGeneration(id))
            },
    decreases n,
{
    if n > 0 {
        lifted_fields_hold(found, lifted, plan, n - 1, field);
        let before = identity_layout::lifted_fields(found, lifted, plan, n - 1);
        let after = identity_layout::lifted_fields(found, lifted, plan, n);
        let last = lifted[n - 1];
        let value = identity_layout::lifted_field(last, plan);
        assert forall|other: LogicalFieldId| has_field(before, other) implies #[trigger] has_field(
            after,
            other,
        ) by {
            has_field_pushed(before, value, other);
            if last.is_task {
                let one = before.push(value);
                let two = one.push(after[one.len() as int]);
                has_field_pushed(one, after[one.len() as int], other);
                assert(after =~= two.push(after[two.len() as int]));
                has_field_pushed(two, after[two.len() as int], other);
            }
        }
        assert(has_field(after, LogicalFieldId::Lifted(last.declaration))) by {
            assert(after[before.len() as int].logical == LogicalFieldId::Lifted(
                last.declaration,
            ));
        }
        if last.is_task {
            assert(after[before.len() as int + 1].logical == LogicalFieldId::BindingActive(
                last.declaration,
            ));
            assert(after[before.len() as int + 2].logical == LogicalFieldId::BindingGeneration(
                last.declaration,
            ));
        }
    }
}

proof fn payload_fields_hold(
    found: Seq<FieldView>,
    children: Seq<(crate::await_plan::ChildInstanceId, ChildPlanView)>,
    n: int,
    field: LogicalFieldId,
)
    requires
        n <= children.len(),
    ensures
        has_field(found, field) ==> has_field(
            identity_layout::payload_fields(found, children, n),
            field,
        ),
        forall|i: int|
            0 <= i < n && c_instruction::direct_typed((#[trigger] children[i]).1) ==> {
                let after = identity_layout::payload_fields(found, children, n);
                let id = children[i].1.instance;
                &&& has_field(after, LogicalFieldId::DirectChildPayload(id))
                &&& has_field(after, LogicalFieldId::DirectChildActive(id))
            },
    decreases n,
{
    if n > 0 {
        payload_fields_hold(found, children, n - 1, field);
        let before = identity_layout::payload_fields(found, children, n - 1);
        let after = identity_layout::payload_fields(found, children, n);
        assert forall|other: LogicalFieldId| has_field(before, other) implies #[trigger] has_field(
            after,
            other,
        ) by {
            if let Some(own) = identity_layout::payload_field(children[n - 1].1) {
                let one = before.push(own);
                has_field_pushed(before, own, other);
                has_field_pushed(one, after[one.len() as int], other);
                assert(after =~= one.push(after[one.len() as int]));
            }
        }
        if let Some(own) = identity_layout::payload_field(children[n - 1].1) {
            let id = children[n - 1].1.instance;
            assert(after[before.len() as int].logical == LogicalFieldId::DirectChildPayload(id));
            assert(after[before.len() as int + 1].logical == LogicalFieldId::DirectChildActive(id));
        }
    }
}

proof fn slot_fields_hold(
    found: Seq<FieldView>,
    function: LivenessFunction,
    plan: Option<FunctionPlanView>,
    types: Seq<(crate::semantic::AwaitSlotId, Seq<char>)>,
    n: int,
    field: LogicalFieldId,
)
    requires
        n <= function.coroutine.await_slots@.len(),
    ensures
        ({
            let slots = function.coroutine.await_slots@;
            let edges = function.coroutine.await_plan.edges@;
            let after = identity_layout::slot_fields(found, slots, edges, plan, types, n);
            &&& has_field(found, field) ==> has_field(after, field)
            &&& forall|i: int|
                0 <= i < n && !identity_layout::typed_slot(
                    edges,
                    plan,
                    (#[trigger] slots[i]).id,
                ) ==> has_field(after, LogicalFieldId::Awaitable(slots[i].id)) && has_field(
                    after,
                    LogicalFieldId::AwaitableActive(slots[i].id),
                )
        }),
    decreases n,
{
    if n > 0 {
        slot_fields_hold(found, function, plan, types, n - 1, field);
        let slots = function.coroutine.await_slots@;
        let edges = function.coroutine.await_plan.edges@;
        let before = identity_layout::slot_fields(found, slots, edges, plan, types, n - 1);
        let after = identity_layout::slot_fields(found, slots, edges, plan, types, n);
        let slot = slots[n - 1].id;
        let typed = identity_layout::typed_slot(edges, plan, slot);
        assert forall|k: int| 0 <= k < before.len() implies #[trigger] after[k] == before[k] by {}
        assert forall|other: LogicalFieldId| has_field(before, other) implies #[trigger] has_field(
            after,
            other,
        ) by {
            let k = choose|k: int|
                0 <= k < before.len() && (#[trigger] before[k]).logical == other;
            assert(after[k].logical == other);
        }
        if !typed {
            assert(after[before.len() as int].logical == LogicalFieldId::Awaitable(slot));
            assert(after[before.len() as int + 1].logical == LogicalFieldId::AwaitableActive(slot));
        }
    }
}

/// The context of a function that returns a value has all the fields that its
/// C code uses whatever it does.
proof fn context_holds_fields(function: LivenessFunction, plan: Option<FunctionPlanView>)
    requires
        text::trimmed(function.coroutine.cfg.return_type.text@) != "void"@,
    ensures
        ({
            let fields = identity_layout::context_fields(function, plan);
            let lifted = function.lifted_fields@;
            let slots = function.coroutine.await_slots@;
            &&& has_field(fields, LogicalFieldId::State)
            &&& has_field(fields, LogicalFieldId::Status)
            &&& has_field(fields, LogicalFieldId::Error)
            &&& has_field(fields, LogicalFieldId::Cleanups)
            &&& has_field(fields, LogicalFieldId::Result)
            &&& has_field(fields, LogicalFieldId::Yielded)
            &&& forall|i: int|
                0 <= i < lifted.len() ==> {
                    let id = (#[trigger] lifted[i]).declaration;
                    &&& has_field(fields, LogicalFieldId::Lifted(id))
                    &&& lifted[i].is_task ==> has_field(fields, LogicalFieldId::BindingActive(id))
                        && has_field(fields, LogicalFieldId::BindingGeneration(id))
                }
            &&& match plan {
                Some(own) => forall|i: int|
                    0 <= i < own.children.len() && c_instruction::direct_typed(
                        (#[trigger] own.children[i]).1,
                    ) ==> {
                        let id = own.children[i].1.instance;
                        &&& has_field(fields, LogicalFieldId::DirectChildPayload(id))
                        &&& has_field(fields, LogicalFieldId::DirectChildActive(id))
                    },
                None => true,
            }
            &&& forall|i: int|
                0 <= i < slots.len() && !identity_layout::typed_slot(
                    function.coroutine.await_plan.edges@,
                    plan,
                    (#[trigger] slots[i]).id,
                ) ==> has_field(fields, LogicalFieldId::Awaitable(slots[i].id)) && has_field(
                    fields,
                    LogicalFieldId::AwaitableActive(slots[i].id),
                )
        }),
{
    let fields = identity_layout::context_fields(function, plan);
    let header = identity_layout::header_fields();
    let lifted = identity_layout::lifted_fields(
        header,
        function.lifted_fields@,
        plan,
        function.lifted_fields@.len() as int,
    );
    let payload = match plan {
        Some(own) => identity_layout::payload_fields(
            lifted,
            own.children,
            own.children.len() as int,
        ),
        None => lifted,
    };
    let types = crate::context_types::result_types_of(function);
    let slots = identity_layout::slot_fields(
        payload,
        function.coroutine.await_slots@,
        function.coroutine.await_plan.edges@,
        plan,
        types,
        function.coroutine.await_slots@.len() as int,
    );
    assert(header[0].logical == LogicalFieldId::State);
    assert(header[1].logical == LogicalFieldId::Status);
    assert(header[2].logical == LogicalFieldId::Error);
    assert(header[3].logical == LogicalFieldId::Cleanups);
    assert(fields[slots.len() as int].logical == LogicalFieldId::Result);
    assert(fields[slots.len() as int + 1].logical == LogicalFieldId::Yielded);
    assert forall|field: LogicalFieldId| has_field(slots, field) implies #[trigger] has_field(
        fields,
        field,
    ) by {
        let k = choose|k: int| 0 <= k < slots.len() && (#[trigger] slots[k]).logical == field;
        assert(fields[k].logical == field);
    }
    assert forall|field: LogicalFieldId| has_field(payload, field) implies #[trigger] has_field(
        fields,
        field,
    ) by {
        slot_fields_hold(
            payload,
            function,
            plan,
            types,
            function.coroutine.await_slots@.len() as int,
            field,
        );
        assert(has_field(slots, field));
    }
    assert forall|field: LogicalFieldId| has_field(lifted, field) implies #[trigger] has_field(
        fields,
        field,
    ) by {
        if let Some(own) = plan {
            payload_fields_hold(lifted, own.children, own.children.len() as int, field);
        }
        assert(has_field(payload, field));
    }
    assert forall|field: LogicalFieldId| has_field(header, field) implies #[trigger] has_field(
        fields,
        field,
    ) by {
        lifted_fields_hold(
            header,
            function.lifted_fields@,
            plan,
            function.lifted_fields@.len() as int,
            field,
        );
        assert(has_field(lifted, field));
    }
    lifted_fields_hold(
        header,
        function.lifted_fields@,
        plan,
        function.lifted_fields@.len() as int,
        LogicalFieldId::State,
    );
    if let Some(own) = plan {
        payload_fields_hold(
            lifted,
            own.children,
            own.children.len() as int,
            LogicalFieldId::State,
        );
    }
    slot_fields_hold(
        payload,
        function,
        plan,
        types,
        function.coroutine.await_slots@.len() as int,
        LogicalFieldId::State,
    );
    assert(has_field(header, LogicalFieldId::State));
    assert(has_field(header, LogicalFieldId::Status));
    assert(has_field(header, LogicalFieldId::Error));
    assert(has_field(header, LogicalFieldId::Cleanups));
}

/// A layout that passes the check has a place for every field that the C code
/// of a function uses whatever its body does: the state of the task, its
/// results, its lifted declarations and bindings, its children and its
/// awaitables.
pub proof fn checked_layouts_place_what_code_uses(
    view: FunctionView,
    task: TaskView,
    lifetimes: SlotLivenessFunction,
    found: Seq<DiagnosticView>,
)
    requires
        identity_layout::fields_distinct(
            identity_layout::context_fields(view.function, view.plan),
        ),
        text::trimmed(view.function.coroutine.cfg.return_type.text@) != "void"@,
        layout_check::layout_problems_of(
            found,
            identity_layout::identity_layout(view.function, view.plan).fields,
            task.layout,
            view.plan,
            view.function,
            Some(lifetimes),
        ) == found,
    ensures
        c_instruction::task_ready(task, view),
        c_task::slots_ready(view, task),
{
    let expected = identity_layout::identity_layout(view.function, view.plan);
    check_passes_iff(
        found,
        expected.fields,
        task.layout,
        view.plan,
        view.function,
        lifetimes,
    );
    context_holds_fields(view.function, view.plan);
    let fields = identity_layout::context_fields(view.function, view.plan);
    assert forall|field: LogicalFieldId| has_field(fields, field) implies #[trigger]
    c_source::placed(task, field) by {
        layout_soundness::identity_places(view.function, view.plan, field);
        order::lookup_finds(expected.fields, field);
        let value = order::lookup(expected.fields, field)->0;
        let k = choose|k: int|
            0 <= k < expected.fields.len() && expected.fields[k] == (field, value);
        assert(order::lookup(task.layout.fields, expected.fields[k].0) is Some);
    }
    let lifted = view.function.lifted_fields@;
    assert forall|i: int| 0 <= i < lifted.len() implies c_source::placed(
        task,
        LogicalFieldId::Lifted((#[trigger] lifted[i]).declaration),
    ) by {
        assert(has_field(fields, LogicalFieldId::Lifted(lifted[i].declaration)));
    }
}

} // verus!
