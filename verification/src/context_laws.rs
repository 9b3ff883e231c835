//! What contexts hold: which fields there are, of what types, and how they are
//! reached.

use vstd::prelude::*;

use crate::await_plan::{AwaitEdge, ChildInstanceId};
use crate::c_meaning;
use crate::c_source;
use crate::c_source::TaskView;
use crate::c_static_plan::{CChildStorage, ChildPlanView, ChildTargetView, FunctionPlanView};
use crate::context_layout;
use crate::context_layout::{
    Building, LayoutView, LogicalFieldId, MemberView, PathView, PhysicalSlotId, PlacementView,
    UnionMemberId,
};
use crate::context_types;
use crate::coroutine::CoroutineAwaitSlot;
use crate::identity_layout;
use crate::identity_layout::FieldView;
use crate::liveness::{LiftedField, LivenessFunction};
use crate::order;
use crate::semantic::AwaitSlotId;
use crate::text;

verus! {

/// Whether a field is among some, of a C type and under a name.
pub open spec fn has_field(
    fields: Seq<FieldView>,
    logical: LogicalFieldId,
    c_type: Seq<char>,
    c_name: Seq<char>,
) -> bool {
    exists|j: int|
        0 <= j < fields.len() && (#[trigger] fields[j]).logical == logical && fields[j].c_type
            == c_type && fields[j].c_name == c_name
}

/// Whether some fields stand first among others.
pub open spec fn comes_first(before: Seq<FieldView>, after: Seq<FieldView>) -> bool {
    before.len() <= after.len() && forall|j: int|
        0 <= j < before.len() ==> #[trigger] after[j] == before[j]
}

proof fn lifted_come_behind(
    found: Seq<FieldView>,
    lifted: Seq<LiftedField>,
    plan: Option<FunctionPlanView>,
    n: int,
    k: int,
)
    requires
        0 <= k <= n <= lifted.len(),
    ensures
        comes_first(
            identity_layout::lifted_fields(found, lifted, plan, k),
            identity_layout::lifted_fields(found, lifted, plan, n),
        ),
    decreases n - k,
{
    if k < n {
        lifted_come_behind(found, lifted, plan, n - 1, k);
        let a = identity_layout::lifted_fields(found, lifted, plan, k);
        let b = identity_layout::lifted_fields(found, lifted, plan, n - 1);
        let c = identity_layout::lifted_fields(found, lifted, plan, n);
        assert forall|j: int| 0 <= j < a.len() implies #[trigger] c[j] == a[j] by {
            assert(b[j] == a[j]);
            assert(c[j] == b[j]);
        }
    }
}

proof fn payloads_come_behind(
    found: Seq<FieldView>,
    children: Seq<(ChildInstanceId, ChildPlanView)>,
    n: int,
    k: int,
)
    requires
        0 <= k <= n <= children.len(),
    ensures
        comes_first(
            identity_layout::payload_fields(found, children, k),
            identity_layout::payload_fields(found, children, n),
        ),
    decreases n - k,
{
    if k < n {
        payloads_come_behind(found, children, n - 1, k);
        let a = identity_layout::payload_fields(found, children, k);
        let b = identity_layout::payload_fields(found, children, n - 1);
        let c = identity_layout::payload_fields(found, children, n);
        assert forall|j: int| 0 <= j < a.len() implies #[trigger] c[j] == a[j] by {
            assert(b[j] == a[j]);
            assert(c[j] == b[j]);
        }
    }
}

proof fn slots_come_behind(
    found: Seq<FieldView>,
    slots: Seq<CoroutineAwaitSlot>,
    edges: Seq<AwaitEdge>,
    plan: Option<FunctionPlanView>,
    types: Seq<(AwaitSlotId, Seq<char>)>,
    n: int,
    k: int,
)
    requires
        0 <= k <= n <= slots.len(),
    ensures
        comes_first(
            identity_layout::slot_fields(found, slots, edges, plan, types, k),
            identity_layout::slot_fields(found, slots, edges, plan, types, n),
        ),
    decreases n - k,
{
    if k < n {
        slots_come_behind(found, slots, edges, plan, types, n - 1, k);
        let a = identity_layout::slot_fields(found, slots, edges, plan, types, k);
        let b = identity_layout::slot_fields(found, slots, edges, plan, types, n - 1);
        let c = identity_layout::slot_fields(found, slots, edges, plan, types, n);
        assert forall|j: int| 0 <= j < a.len() implies #[trigger] c[j] == a[j] by {
            assert(b[j] == a[j]);
            assert(c[j] == b[j]);
        }
    }
}

/// The fields of a context up to those of its lifted declarations.
pub open spec fn up_to_lifted(function: LivenessFunction, plan: Option<FunctionPlanView>) -> Seq<
    FieldView,
> {
    identity_layout::lifted_fields(
        identity_layout::header_fields(),
        function.lifted_fields@,
        plan,
        function.lifted_fields@.len() as int,
    )
}

/// The fields of a context up to those of its children.
pub open spec fn up_to_children(function: LivenessFunction, plan: Option<FunctionPlanView>) -> Seq<
    FieldView,
> {
    match plan {
        Some(own) => identity_layout::payload_fields(
            up_to_lifted(function, plan),
            own.children,
            own.children.len() as int,
        ),
        None => up_to_lifted(function, plan),
    }
}

/// The fields of a context up to those of its suspensions.
pub open spec fn up_to_slots(function: LivenessFunction, plan: Option<FunctionPlanView>) -> Seq<
    FieldView,
> {
    identity_layout::slot_fields(
        up_to_children(function, plan),
        function.coroutine.await_slots@,
        function.coroutine.await_plan.edges@,
        plan,
        context_types::result_types_of(function),
        function.coroutine.await_slots@.len() as int,
    )
}

proof fn parts_come_first(function: LivenessFunction, plan: Option<FunctionPlanView>)
    ensures
        comes_first(identity_layout::header_fields(), up_to_lifted(function, plan)),
        comes_first(
            identity_layout::header_fields(),
            identity_layout::context_fields(function, plan),
        ),
        comes_first(
            up_to_lifted(function, plan),
            identity_layout::context_fields(function, plan),
        ),
        comes_first(
            up_to_children(function, plan),
            identity_layout::context_fields(function, plan),
        ),
        comes_first(up_to_slots(function, plan), identity_layout::context_fields(function, plan)),
{
    let lifted = function.lifted_fields@;
    let slots = function.coroutine.await_slots@;
    let all = identity_layout::context_fields(function, plan);
    lifted_come_behind(identity_layout::header_fields(), lifted, plan, lifted.len() as int, 0);
    if let Some(own) = plan {
        payloads_come_behind(
            up_to_lifted(function, plan),
            own.children,
            own.children.len() as int,
            0,
        );
    }
    slots_come_behind(
        up_to_children(function, plan),
        slots,
        function.coroutine.await_plan.edges@,
        plan,
        context_types::result_types_of(function),
        slots.len() as int,
        0,
    );
    let s = up_to_slots(function, plan);
    let c = up_to_children(function, plan);
    let l = up_to_lifted(function, plan);
    let h = identity_layout::header_fields();
    assert forall|j: int| 0 <= j < s.len() implies #[trigger] all[j] == s[j] by {
    }
    assert forall|j: int| 0 <= j < c.len() implies #[trigger] all[j] == c[j] by {
        assert(s[j] == c[j]);
    }
    assert forall|j: int| 0 <= j < l.len() implies #[trigger] all[j] == l[j] by {
        assert(c[j] == l[j]);
    }
    assert forall|j: int| 0 <= j < h.len() implies #[trigger] all[j] == h[j] by {
        assert(l[j] == h[j]);
    }
}

/// Every context holds a state, a status, an error and a stack of deferred calls,
/// each under its own name. One of a function with a value holds the result and
/// the value that was yielded, both of the type of the function, under theirs.
pub proof fn contexts_hold_what_every_task_has(
    function: LivenessFunction,
    plan: Option<FunctionPlanView>,
)
    ensures
        ({
            let fields = identity_layout::context_fields(function, plan);
            let returned = text::trimmed(function.coroutine.cfg.return_type.text@);
            let has = |field: LogicalFieldId, ty: Seq<char>|
                has_field(fields, field, ty, c_meaning::member_name(field));
            &&& has(LogicalFieldId::State, "uint32_t"@)
            &&& has(LogicalFieldId::Status, "cr_poll_status"@)
            &&& has(LogicalFieldId::Error, "cr_error"@)
            &&& has(LogicalFieldId::Cleanups, "cr_cleanup_stack"@)
            &&& returned != "void"@ ==> has(LogicalFieldId::Result, returned) && has(
                LogicalFieldId::Yielded,
                returned,
            )
        }),
{
    parts_come_first(function, plan);
    let fields = identity_layout::context_fields(function, plan);
    let header = identity_layout::header_fields();
    assert(header[0].logical == LogicalFieldId::State);
    assert(header[1].logical == LogicalFieldId::Status);
    assert(header[2].logical == LogicalFieldId::Error);
    assert(header[3].logical == LogicalFieldId::Cleanups);
    assert(fields[0] == header[0] && fields[1] == header[1] && fields[2] == header[2] && fields[3]
        == header[3]);
    let n = fields.len() as int;
    let returned = text::trimmed(function.coroutine.cfg.return_type.text@);
    if returned != "void"@ {
        assert(fields[n - 2].logical == LogicalFieldId::Result);
        assert(fields[n - 1].logical == LogicalFieldId::Yielded);
    }
}

/// Every lifted declaration has a field of its own name. Its type is that of the
/// declaration, or the task type of the function that a task was planned to be
/// of, or a pointer to one that lives on the heap. A task has a flag and a
/// generation besides.
pub proof fn lifted_declarations_have_fields(
    function: LivenessFunction,
    plan: Option<FunctionPlanView>,
    k: int,
)
    requires
        0 <= k < function.lifted_fields@.len(),
    ensures
        ({
            let fields = identity_layout::context_fields(function, plan);
            let lifted = function.lifted_fields@[k];
            let child = identity_layout::planned_binding(plan, lifted.declaration);
            let ty = match child {
                Some(own) => match (own.target, own.effective_storage) {
                    (
                        ChildTargetView::Static(callee),
                        CChildStorage::Embedded(slot),
                    ) => callee.task_type,
                    (ChildTargetView::Static(callee), CChildStorage::Boxed(slot)) => callee.task_type
                        + " *"@,
                    _ => text::trimmed(lifted.ty.text@),
                },
                None => text::trimmed(lifted.ty.text@),
            };
            &&& has_field(
                fields,
                LogicalFieldId::Lifted(lifted.declaration),
                ty,
                lifted.field_name@,
            )
            &&& lifted.is_task ==> has_field(
                fields,
                LogicalFieldId::BindingActive(lifted.declaration),
                "bool"@,
                lifted.field_name@ + "_active"@,
            )
            &&& lifted.is_task ==> has_field(
                fields,
                LogicalFieldId::BindingGeneration(lifted.declaration),
                "uint64_t"@,
                lifted.field_name@ + "_generation"@,
            )
        }),
{
    parts_come_first(function, plan);
    let all = identity_layout::context_fields(function, plan);
    let fields = function.lifted_fields@;
    let lifted = fields[k];
    let header = identity_layout::header_fields();
    let before = identity_layout::lifted_fields(header, fields, plan, k);
    let after = identity_layout::lifted_fields(header, fields, plan, k + 1);
    lifted_come_behind(header, fields, plan, fields.len() as int, k + 1);
    let own = identity_layout::lifted_field(lifted, plan);
    assert(after[before.len() as int] == own);
    let part = up_to_lifted(function, plan);
    assert(part[before.len() as int] == own);
    assert(all[before.len() as int] == own);
    if let Some(child) = identity_layout::planned_binding(plan, lifted.declaration) {
        if let ChildTargetView::Static(callee) = child.target {
            assert(Seq::<char>::empty() + callee.task_type + " *"@ =~= callee.task_type + " *"@);
        }
    }
    if lifted.is_task {
        let i = before.len() as int + 1;
        let name = lifted.field_name@;
        assert(Seq::<char>::empty() + name + "_active"@ =~= name + "_active"@);
        assert(Seq::<char>::empty() + name + "_generation"@ =~= name + "_generation"@);
        assert(after[i].logical == LogicalFieldId::BindingActive(lifted.declaration));
        assert(after[i + 1].logical == LogicalFieldId::BindingGeneration(lifted.declaration));
        assert(part[i] == after[i] && part[i + 1] == after[i + 1]);
        assert(all[i] == after[i] && all[i + 1] == after[i + 1]);
    }
}

/// Every directly awaited child of a known function has a field: of its task type
/// if it is embedded, and a pointer to it if it is boxed. It has a flag besides.
pub proof fn awaited_children_have_fields(
    function: LivenessFunction,
    plan: FunctionPlanView,
    k: int,
)
    requires
        0 <= k < plan.children.len(),
        plan.children[k].1.origin is Direct,
    ensures
        ({
            let fields = identity_layout::context_fields(function, Some(plan));
            let child = plan.children[k].1;
            match (child.target, child.effective_storage) {
                (ChildTargetView::Static(callee), CChildStorage::Embedded(slot)) => {
                    let name = "cr_child_"@ + text::dec(slot.0 as nat);
                    &&& has_field(
                        fields,
                        LogicalFieldId::DirectChildPayload(child.instance),
                        callee.task_type,
                        name,
                    )
                    &&& has_field(
                        fields,
                        LogicalFieldId::DirectChildActive(child.instance),
                        "bool"@,
                        name + "_active"@,
                    )
                },
                (ChildTargetView::Static(callee), CChildStorage::Boxed(slot)) => {
                    let name = "cr_boxed_"@ + text::dec(slot.0 as nat);
                    &&& has_field(
                        fields,
                        LogicalFieldId::DirectChildPayload(child.instance),
                        callee.task_type + " *"@,
                        name,
                    )
                    &&& has_field(
                        fields,
                        LogicalFieldId::DirectChildActive(child.instance),
                        "bool"@,
                        name + "_active"@,
                    )
                },
                _ => true,
            }
        }),
{
    parts_come_first(function, Some(plan));
    let all = identity_layout::context_fields(function, Some(plan));
    let found = up_to_lifted(function, Some(plan));
    let child = plan.children[k].1;
    let before = identity_layout::payload_fields(found, plan.children, k);
    let after = identity_layout::payload_fields(found, plan.children, k + 1);
    payloads_come_behind(found, plan.children, plan.children.len() as int, k + 1);
    let part = up_to_children(function, Some(plan));
    if let Some(own) = identity_layout::payload_field(child) {
        let i = before.len() as int;
        assert(after[i] == own);
        assert(after[i + 1].logical == LogicalFieldId::DirectChildActive(child.instance));
        assert(part[i] == after[i] && part[i + 1] == after[i + 1]);
        assert(all[i] == after[i] && all[i + 1] == after[i + 1]);
        let name = own.c_name;
        assert(Seq::<char>::empty() + name + "_active"@ =~= name + "_active"@);
        if let ChildTargetView::Static(callee) = child.target {
            assert(Seq::<char>::empty() + callee.task_type + " *"@ =~= callee.task_type + " *"@);
        }
        match child.effective_storage {
            CChildStorage::Embedded(slot) => {
                assert(Seq::<char>::empty() + "cr_child_"@ + text::dec(slot.0 as nat)
                    =~= "cr_child_"@ + text::dec(slot.0 as nat));
            },
            CChildStorage::Boxed(slot) => {
                assert(Seq::<char>::empty() + "cr_boxed_"@ + text::dec(slot.0 as nat)
                    =~= "cr_boxed_"@ + text::dec(slot.0 as nat));
            },
            _ => {},
        }
    }
}

/// Every suspension whose result has a type has a field for it. One that doesn't
/// wait for a child in typed storage has an awaitable and a flag.
pub proof fn suspensions_have_fields(
    function: LivenessFunction,
    plan: Option<FunctionPlanView>,
    k: int,
)
    requires
        0 <= k < function.coroutine.await_slots@.len(),
    ensures
        ({
            let fields = identity_layout::context_fields(function, plan);
            let slot = function.coroutine.await_slots@[k].id;
            let name = "cr_await_"@ + text::dec(slot.0 as nat);
            let ty = order::lookup(context_types::result_types_of(function), slot);
            &&& ty is Some ==> has_field(
                fields,
                LogicalFieldId::AwaitResult(slot),
                ty->0,
                name + "_result"@,
            )
            &&& !identity_layout::typed_slot(function.coroutine.await_plan.edges@, plan, slot) ==> {
                &&& has_field(fields, LogicalFieldId::Awaitable(slot), "cr_awaitable"@, name)
                &&& has_field(
                    fields,
                    LogicalFieldId::AwaitableActive(slot),
                    "bool"@,
                    name + "_active"@,
                )
            }
        }),
{
    parts_come_first(function, plan);
    let all = identity_layout::context_fields(function, plan);
    let found = up_to_children(function, plan);
    let slots = function.coroutine.await_slots@;
    let edges = function.coroutine.await_plan.edges@;
    let types = context_types::result_types_of(function);
    let slot = slots[k].id;
    let before = identity_layout::slot_fields(found, slots, edges, plan, types, k);
    let after = identity_layout::slot_fields(found, slots, edges, plan, types, k + 1);
    slots_come_behind(found, slots, edges, plan, types, slots.len() as int, k + 1);
    let part = up_to_slots(function, plan);
    let name = "cr_await_"@ + text::dec(slot.0 as nat);
    assert(identity_layout::slot_name("cr_await_"@, slot.0) =~= name);
    assert(Seq::<char>::empty() + name + "_active"@ =~= name + "_active"@);
    assert(Seq::<char>::empty() + name + "_result"@ =~= name + "_result"@);
    let i = before.len() as int;
    let typed = identity_layout::typed_slot(edges, plan, slot);
    if !typed {
        assert(after[i].logical == LogicalFieldId::Awaitable(slot));
        assert(after[i + 1].logical == LogicalFieldId::AwaitableActive(slot));
        assert(part[i] == after[i] && part[i + 1] == after[i + 1]);
        assert(all[i] == after[i] && all[i + 1] == after[i + 1]);
    }
    if order::lookup(types, slot) is Some {
        let r = after.len() as int - 1;
        assert(after[r].logical == LogicalFieldId::AwaitResult(slot));
        assert(part[r] == after[r]);
        assert(all[r] == after[r]);
    }
}

proof fn lone_fields_are_placed(fields: Seq<FieldView>, n: int, i: int)
    requires
        identity_layout::fields_distinct(fields),
        0 <= n <= fields.len(),
    ensures
        order::ascending(identity_layout::placed_directly(fields, n).fields),
        0 <= i < n ==> (order::lookup(
            identity_layout::placed_directly(fields, n).fields,
            fields[i].logical,
        ) matches Some(placement) && placement.access_path == (PathView::Direct {
            field: fields[i].c_name,
        })),
    decreases n,
{
    if n > 0 {
        lone_fields_are_placed(fields, n - 1, i);
        let before = identity_layout::placed_directly(fields, n - 1);
        let after = identity_layout::placed_directly(fields, n);
        let member = identity_layout::member_of(fields[n - 1]);
        let placement = order::lookup(after.fields, fields[n - 1].logical);
        order::put_ascending(
            before.fields,
            member.logical,
            PlacementView {
                slot: PhysicalSlotId(before.slots.len() as u32),
                member: UnionMemberId(0),
                access_path: PathView::Direct { field: member.c_name },
            },
            fields[i].logical,
        );
    }
}

/// In a context whose fields all stand alone, a field is reached by its name
/// behind the context.
pub proof fn lone_fields_are_reached_by_name(
    function: LivenessFunction,
    plan: Option<FunctionPlanView>,
    context: Seq<char>,
    logical: LogicalFieldId,
    c_type: Seq<char>,
    c_name: Seq<char>,
)
    requires
        identity_layout::fields_distinct(identity_layout::context_fields(function, plan)),
        has_field(identity_layout::context_fields(function, plan), logical, c_type, c_name),
    ensures
        c_source::path(
            TaskView { layout: identity_layout::identity_layout(function, plan), context },
            logical,
        ) == context + "->"@ + c_name,
{
    reveal(c_source::path);
    let fields = identity_layout::context_fields(function, plan);
    let i = choose|i: int|
        0 <= i < fields.len() && (#[trigger] fields[i]).logical == logical && fields[i].c_type
            == c_type && fields[i].c_name == c_name;
    lone_fields_are_placed(fields, fields.len() as int, i);
    assert(Seq::<char>::empty() + context + "->"@ + c_name =~= context + "->"@ + c_name);
}

/// In a context whose fields all stand alone, what every task has is reached by
/// the name that others read it by.
pub proof fn results_are_where_others_read_them(
    function: LivenessFunction,
    plan: Option<FunctionPlanView>,
    context: Seq<char>,
)
    requires
        identity_layout::fields_distinct(identity_layout::context_fields(function, plan)),
    ensures
        ({
            let task = TaskView {
                layout: identity_layout::identity_layout(function, plan),
                context,
            };
            let reached = |field: LogicalFieldId|
                c_source::path(task, field) == context + "->"@ + c_meaning::member_name(field);
            &&& reached(LogicalFieldId::State)
            &&& reached(LogicalFieldId::Status)
            &&& reached(LogicalFieldId::Error)
            &&& reached(LogicalFieldId::Cleanups)
            &&& text::trimmed(function.coroutine.cfg.return_type.text@) != "void"@ ==> reached(
                LogicalFieldId::Result,
            ) && reached(LogicalFieldId::Yielded)
        }),
{
    contexts_hold_what_every_task_has(function, plan);
    let returned = text::trimmed(function.coroutine.cfg.return_type.text@);
    lone_fields_are_reached_by_name(
        function,
        plan,
        context,
        LogicalFieldId::State,
        "uint32_t"@,
        "state"@,
    );
    lone_fields_are_reached_by_name(
        function,
        plan,
        context,
        LogicalFieldId::Status,
        "cr_poll_status"@,
        "status"@,
    );
    lone_fields_are_reached_by_name(
        function,
        plan,
        context,
        LogicalFieldId::Error,
        "cr_error"@,
        "error"@,
    );
    lone_fields_are_reached_by_name(
        function,
        plan,
        context,
        LogicalFieldId::Cleanups,
        "cr_cleanup_stack"@,
        "cleanups"@,
    );
    if returned != "void"@ {
        lone_fields_are_reached_by_name(
            function,
            plan,
            context,
            LogicalFieldId::Result,
            returned,
            "result"@,
        );
        lone_fields_are_reached_by_name(
            function,
            plan,
            context,
            LogicalFieldId::Yielded,
            returned,
            "yielded"@,
        );
    }
}

proof fn members_are_placed(
    fields: Seq<(LogicalFieldId, PlacementView)>,
    slot: PhysicalSlotId,
    name: Seq<char>,
    members: Seq<MemberView>,
    n: int,
    k: int,
)
    requires
        order::ascending(fields),
        0 <= n <= members.len(),
        0 <= k < members.len(),
        forall|i: int|
            0 <= i < members.len() && i != k ==> (#[trigger] members[i]).logical
                != members[k].logical,
    ensures
        order::ascending(context_layout::union_placements(fields, slot, name, members, n)),
        k < n ==> (order::lookup(
            context_layout::union_placements(fields, slot, name, members, n),
            members[k].logical,
        ) matches Some(placement) && placement.slot == slot && placement.member.0 == k as u32
            && placement.access_path == (PathView::UnionMember {
            slot: name,
            member: members[k].c_name,
        })),
    decreases n,
{
    if n > 0 {
        members_are_placed(fields, slot, name, members, n - 1, k);
        order::put_ascending(
            context_layout::union_placements(fields, slot, name, members, n - 1),
            members[n - 1].logical,
            PlacementView {
                slot,
                member: UnionMemberId((n - 1) as u32),
                access_path: PathView::UnionMember { slot: name, member: members[n - 1].c_name },
            },
            members[k].logical,
        );
    }
}

/// A field that shares a slot is reached through the slot, by its own name inside
/// it.
pub proof fn shared_fields_are_reached_through_their_slot(
    building: Building,
    members: Seq<MemberView>,
    name: Seq<char>,
    layout: LayoutView,
    context: Seq<char>,
    k: int,
)
    requires
        order::ascending(building.fields),
        layout.fields == context_layout::with_union(building, members, name).fields,
        0 <= k < members.len(),
        forall|i: int|
            0 <= i < members.len() && i != k ==> (#[trigger] members[i]).logical
                != members[k].logical,
    ensures
        c_source::path(TaskView { layout, context }, members[k].logical) == context + "->"@ + name
            + "."@ + members[k].c_name,
{
    reveal(c_source::path);
    members_are_placed(
        building.fields,
        PhysicalSlotId(building.slots.len() as u32),
        name,
        members,
        members.len() as int,
        k,
    );
    assert(Seq::<char>::empty() + context + "->"@ + name + "."@ + members[k].c_name =~= context
        + "->"@ + name + "."@ + members[k].c_name);
}

} // verus!
