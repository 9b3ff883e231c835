//! Direct, one-slot-per-field context layouts.

use vstd::prelude::*;

use crate::await_plan::{AwaitEdge, ChildInstanceId, ChildOrigin};
use crate::c_static_plan::{
    CChildPlan, CChildStorage, CChildTarget, CFunctionPlan, CStaticAwaitPlan, ChildPlanView,
    ChildTargetView, FunctionPlanView,
};
use crate::context_layout;
use crate::context_layout::{
    append_direct_slot_to, AggressiveDecisionView, AggressiveLayoutDecision, Building,
    ContextLayoutPlan, FieldPlacement, FunctionContextLayout, LayoutDecision, LayoutDecisionReason,
    LayoutView, LogicalFieldId, MemberView, PhysicalMember, PhysicalSlot, SizeDecisionView,
    SizeLayoutDecision, UnionMemberId,
};
use crate::context_types;
use crate::context_types::{await_result_types, render_typed_name};
use crate::control_flow::AwaitEdgeId;
use crate::coroutine::CoroutineAwaitSlot;
use crate::liveness::{LiftedField, LivenessFunction, LivenessUnit};
use crate::order;
use crate::order::{find_value, put_value};
use crate::semantic::{AwaitSlotId, DeclarationId};
use crate::slot_liveness::{SlotLivenessFunction, SlotLivenessUnit};
use crate::symbol_index::FunctionId;
use crate::syntax;
use crate::syntax::{error_diagnostic, DiagnosticView};
use crate::target_layout::{Known, LayoutKnowledge, LayoutUnknownReason, ReasonView};
use crate::text;
use crate::text::{put, put2, put3, put_dec, str_eq, trim};

verus! {

/// One private field of a context before it is placed.
pub struct ContextField {
    pub logical: LogicalFieldId,
    pub c_type: String,
    pub c_name: String,
    pub c_declaration: String,
    pub required: bool,
}

/// The contents of a field.
pub struct FieldView {
    pub logical: LogicalFieldId,
    pub c_type: Seq<char>,
    pub c_name: Seq<char>,
    pub c_declaration: Seq<char>,
    pub required: bool,
}

impl View for ContextField {
    type V = FieldView;

    open spec fn view(&self) -> FieldView {
        FieldView {
            logical: self.logical,
            c_type: self.c_type@,
            c_name: self.c_name@,
            c_declaration: self.c_declaration@,
            required: self.required,
        }
    }
}

/// The contents of an optional plan.
pub open spec fn plan_view(plan: Option<&CFunctionPlan>) -> Option<FunctionPlanView> {
    match plan {
        Some(plan) => Some(plan@),
        None => None,
    }
}

/// A field that C declares by its type and name.
pub open spec fn plain_field(
    logical: LogicalFieldId,
    c_type: Seq<char>,
    c_name: Seq<char>,
    required: bool,
) -> FieldView {
    FieldView {
        logical,
        c_type,
        c_name,
        c_declaration: context_types::declarator(c_type, c_name),
        required,
    }
}

fn new_field(logical: LogicalFieldId, c_type: &str, c_name: &str, required: bool) -> (r:
    ContextField)
    ensures
        r@ == plain_field(logical, c_type@, c_name@, required),
{
    ContextField {
        logical,
        c_type: c_type.to_owned(),
        c_name: c_name.to_owned(),
        c_declaration: render_typed_name(c_type, c_name),
        required,
    }
}

fn add_field(
    fields: &mut Vec<ContextField>,
    logical: LogicalFieldId,
    c_type: &str,
    c_name: &str,
    required: bool,
)
    ensures
        syntax::views(final(fields)@) == syntax::views(old(fields)@).push(
            plain_field(logical, c_type@, c_name@, required),
        ),
{
    let field = new_field(logical, c_type, c_name, required);
    proof {
        syntax::views_push(fields@, field);
    }
    fields.push(field);
}

/// Whether a child runs a known function in storage of its task type.
pub open spec fn typed_static(child: ChildPlanView) -> bool {
    child.target is Static && (child.effective_storage is Embedded || child.effective_storage is Boxed)
}

/// Tells whether a child runs a known function in storage of its task type.
pub fn is_typed_static_child(child: &CChildPlan) -> (r: bool)
    ensures
        r == typed_static(child@),
{
    match (&child.target, child.effective_storage) {
        (CChildTarget::Static(callee), CChildStorage::Embedded(slot)) => true,
        (CChildTarget::Static(callee), CChildStorage::Boxed(slot)) => true,
        _ => false,
    }
}

/// The first typed child of a task declaration, from `i` on.
pub open spec fn binding_child(
    children: Seq<(ChildInstanceId, ChildPlanView)>,
    declaration: DeclarationId,
    i: int,
) -> Option<ChildPlanView>
    decreases children.len() - i,
{
    if i < 0 || i >= children.len() {
        None
    } else if children[i].1.origin == ChildOrigin::Binding(declaration) && typed_static(
        children[i].1,
    ) {
        Some(children[i].1)
    } else {
        binding_child(children, declaration, i + 1)
    }
}

/// The first typed child of a task declaration in a plan.
pub open spec fn planned_binding(
    plan: Option<FunctionPlanView>,
    declaration: DeclarationId,
) -> Option<ChildPlanView> {
    match plan {
        Some(plan) => binding_child(plan.children, declaration, 0),
        None => None,
    }
}

/// Finds the first typed child of a task declaration.
pub fn typed_binding_child<'a>(plan: Option<&'a CFunctionPlan>, declaration: DeclarationId) -> (r:
    Option<&'a CChildPlan>)
    ensures
        match r {
            Some(child) => planned_binding(plan_view(plan), declaration) == Some(child@),
            None => planned_binding(plan_view(plan), declaration) is None,
        },
{
    match plan {
        None => None,
        Some(own) => {
            let ghost children = own@.children;
            let mut i: usize = 0;
            while i < own.children.len()
                invariant
                    plan == Some(own),
                    i <= own.children@.len(),
                    children == order::entry_views(own.children@),
                    binding_child(children, declaration, 0) == binding_child(
                        children,
                        declaration,
                        i as int,
                    ),
                decreases own.children@.len() - i,
            {
                let child = &own.children[i].1;
                assert(children[i as int].1 == child@);
                if child.origin == ChildOrigin::Binding(declaration) && is_typed_static_child(
                    child,
                ) {
                    return Some(child);
                }
                i += 1;
            }
            None
        },
    }
}

/// The field of a lifted declaration.
pub open spec fn lifted_field(field: LiftedField, plan: Option<FunctionPlanView>) -> FieldView {
    let ty = text::trimmed(field.ty.text@);
    let logical = LogicalFieldId::Lifted(field.declaration);
    let required = field.is_parameter || field.address_taken || field.is_task;
    let own = FieldView {
        logical,
        c_type: ty,
        c_name: field.field_name@,
        c_declaration: context_types::declarator(ty, field.field_name@),
        required,
    };
    match planned_binding(plan, field.declaration) {
        Some(child) => match (child.target, child.effective_storage) {
            (ChildTargetView::Static(callee), CChildStorage::Embedded(slot)) => FieldView {
                c_type: callee.task_type,
                c_declaration: Seq::<char>::empty() + callee.task_type + " "@ + field.field_name@,
                ..own
            },
            (ChildTargetView::Static(callee), CChildStorage::Boxed(slot)) => FieldView {
                c_type: Seq::<char>::empty() + callee.task_type + " *"@,
                c_declaration: Seq::<char>::empty() + callee.task_type + " *"@ + field.field_name@,
                ..own
            },
            _ => own,
        },
        None => own,
    }
}

fn joined_text(a: &str, b: &str) -> (r: String)
    ensures
        r@ == Seq::<char>::empty() + a@ + b@,
{
    let mut out = String::new();
    assert(out@ =~= Seq::empty());
    put2(&mut out, a, b);
    out
}

fn joined_text3(a: &str, b: &str, c: &str) -> (r: String)
    ensures
        r@ == Seq::<char>::empty() + a@ + b@ + c@,
{
    let mut out = String::new();
    assert(out@ =~= Seq::empty());
    put3(&mut out, a, b, c);
    out
}

fn build_lifted_field(field: &LiftedField, plan: Option<&CFunctionPlan>) -> (r: ContextField)
    ensures
        r@ == lifted_field(*field, plan_view(plan)),
{
    let logical = LogicalFieldId::Lifted(field.declaration);
    let required = field.is_parameter || field.address_taken || field.is_task;
    let ty = trim(field.ty.text.as_str());
    if let Some(child) = typed_binding_child(plan, field.declaration) {
        match (&child.target, child.effective_storage) {
            (CChildTarget::Static(callee), CChildStorage::Embedded(slot)) => {
                return ContextField {
                    logical,
                    c_type: callee.task_type.clone(),
                    c_name: field.field_name.clone(),
                    c_declaration: joined_text3(
                        callee.task_type.as_str(),
                        " ",
                        field.field_name.as_str(),
                    ),
                    required,
                };
            },
            (CChildTarget::Static(callee), CChildStorage::Boxed(slot)) => {
                return ContextField {
                    logical,
                    c_type: joined_text(callee.task_type.as_str(), " *"),
                    c_name: field.field_name.clone(),
                    c_declaration: joined_text3(
                        callee.task_type.as_str(),
                        " *",
                        field.field_name.as_str(),
                    ),
                    required,
                };
            },
            _ => {},
        }
    }
    ContextField {
        logical,
        c_type: ty.to_owned(),
        c_name: field.field_name.clone(),
        c_declaration: render_typed_name(ty, field.field_name.as_str()),
        required,
    }
}

/// The fields of the first `n` lifted declarations: each with its value, and
/// task declarations with a flag and a generation.
pub open spec fn lifted_fields(
    found: Seq<FieldView>,
    lifted: Seq<LiftedField>,
    plan: Option<FunctionPlanView>,
    n: int,
) -> Seq<FieldView>
    decreases n,
{
    if n <= 0 {
        found
    } else {
        let field = lifted[n - 1];
        let own = lifted_fields(found, lifted, plan, n - 1).push(lifted_field(field, plan));
        if field.is_task {
            own.push(
                plain_field(
                    LogicalFieldId::BindingActive(field.declaration),
                    "bool"@,
                    Seq::<char>::empty() + field.field_name@ + "_active"@,
                    true,
                ),
            ).push(
                plain_field(
                    LogicalFieldId::BindingGeneration(field.declaration),
                    "uint64_t"@,
                    Seq::<char>::empty() + field.field_name@ + "_generation"@,
                    true,
                ),
            )
        } else {
            own
        }
    }
}

fn add_lifted_fields(
    fields: &mut Vec<ContextField>,
    lifted: &Vec<LiftedField>,
    plan: Option<&CFunctionPlan>,
)
    ensures
        syntax::views(final(fields)@) == lifted_fields(
            syntax::views(old(fields)@),
            lifted@,
            plan_view(plan),
            lifted@.len() as int,
        ),
{
    let mut i: usize = 0;
    while i < lifted.len()
        invariant
            i <= lifted@.len(),
            syntax::views(fields@) == lifted_fields(
                syntax::views(old(fields)@),
                lifted@,
                plan_view(plan),
                i as int,
            ),
        decreases lifted@.len() - i,
    {
        let field = build_lifted_field(&lifted[i], plan);
        proof {
            syntax::views_push(fields@, field);
        }
        fields.push(field);
        if lifted[i].is_task {
            let active = joined_text(lifted[i].field_name.as_str(), "_active");
            let generation = joined_text(lifted[i].field_name.as_str(), "_generation");
            add_field(
                fields,
                LogicalFieldId::BindingActive(lifted[i].declaration),
                "bool",
                active.as_str(),
                true,
            );
            add_field(
                fields,
                LogicalFieldId::BindingGeneration(lifted[i].declaration),
                "uint64_t",
                generation.as_str(),
                true,
            );
        }
        i += 1;
    }
}

/// The name of a slot: a prefix and its number.
pub open spec fn slot_name(prefix: Seq<char>, number: u32) -> Seq<char> {
    Seq::<char>::empty() + prefix + text::dec(number as nat)
}

/// Names a slot by a prefix and its number.
pub fn numbered_name(prefix: &str, number: u32) -> (r: String)
    ensures
        r@ == slot_name(prefix@, number),
{
    let mut out = String::new();
    assert(out@ =~= Seq::empty());
    put(&mut out, prefix);
    put_dec(&mut out, number as u64);
    out
}

/// The payload field of a directly awaited child in typed storage.
pub open spec fn payload_field(child: ChildPlanView) -> Option<FieldView> {
    match (child.target, child.origin, child.effective_storage) {
        (
            ChildTargetView::Static(callee),
            ChildOrigin::Direct(edge),
            CChildStorage::Embedded(slot),
        ) => {
            let name = slot_name("cr_child_"@, slot.0);
            Some(
                FieldView {
                    logical: LogicalFieldId::DirectChildPayload(child.instance),
                    c_type: callee.task_type,
                    c_name: name,
                    c_declaration: Seq::<char>::empty() + callee.task_type + " "@ + name,
                    required: false,
                },
            )
        },
        (
            ChildTargetView::Static(callee),
            ChildOrigin::Direct(edge),
            CChildStorage::Boxed(slot),
        ) => {
            let name = slot_name("cr_boxed_"@, slot.0);
            Some(
                FieldView {
                    logical: LogicalFieldId::DirectChildPayload(child.instance),
                    c_type: Seq::<char>::empty() + callee.task_type + " *"@,
                    c_name: name,
                    c_declaration: Seq::<char>::empty() + callee.task_type + " *"@ + name,
                    required: false,
                },
            )
        },
        _ => None,
    }
}

fn build_payload_field(child: &CChildPlan) -> (r: Option<ContextField>)
    ensures
        match r {
            Some(field) => payload_field(child@) == Some(field@),
            None => payload_field(child@) is None,
        },
{
    match (&child.target, child.origin, child.effective_storage) {
        (
            CChildTarget::Static(callee),
            ChildOrigin::Direct(edge),
            CChildStorage::Embedded(slot),
        ) => {
            let name = numbered_name("cr_child_", slot.0);
            let declaration = joined_text3(callee.task_type.as_str(), " ", name.as_str());
            Some(
                ContextField {
                    logical: LogicalFieldId::DirectChildPayload(child.instance),
                    c_type: callee.task_type.clone(),
                    c_name: name,
                    c_declaration: declaration,
                    required: false,
                },
            )
        },
        (CChildTarget::Static(callee), ChildOrigin::Direct(edge), CChildStorage::Boxed(slot)) => {
            let name = numbered_name("cr_boxed_", slot.0);
            let declaration = joined_text3(callee.task_type.as_str(), " *", name.as_str());
            Some(
                ContextField {
                    logical: LogicalFieldId::DirectChildPayload(child.instance),
                    c_type: joined_text(callee.task_type.as_str(), " *"),
                    c_name: name,
                    c_declaration: declaration,
                    required: false,
                },
            )
        },
        _ => None,
    }
}

/// The fields of the first `n` children: payload and flag of those awaited
/// directly in typed storage.
pub open spec fn payload_fields(
    found: Seq<FieldView>,
    children: Seq<(ChildInstanceId, ChildPlanView)>,
    n: int,
) -> Seq<FieldView>
    decreases n,
{
    if n <= 0 {
        found
    } else {
        let before = payload_fields(found, children, n - 1);
        match payload_field(children[n - 1].1) {
            Some(field) => before.push(field).push(
                plain_field(
                    LogicalFieldId::DirectChildActive(children[n - 1].1.instance),
                    "bool"@,
                    Seq::<char>::empty() + field.c_name + "_active"@,
                    true,
                ),
            ),
            None => before,
        }
    }
}

fn add_payload_fields(fields: &mut Vec<ContextField>, plan: &CFunctionPlan)
    ensures
        syntax::views(final(fields)@) == payload_fields(
            syntax::views(old(fields)@),
            plan@.children,
            plan@.children.len() as int,
        ),
{
    let ghost children = plan@.children;
    let mut i: usize = 0;
    while i < plan.children.len()
        invariant
            i <= plan.children@.len(),
            children == order::entry_views(plan.children@),
            syntax::views(fields@) == payload_fields(
                syntax::views(old(fields)@),
                children,
                i as int,
            ),
        decreases plan.children@.len() - i,
    {
        let child = &plan.children[i].1;
        assert(children[i as int].1 == child@);
        if let Some(field) = build_payload_field(child) {
            let active = joined_text(field.c_name.as_str(), "_active");
            proof {
                syntax::views_push(fields@, field);
            }
            fields.push(field);
            add_field(
                fields,
                LogicalFieldId::DirectChildActive(child.instance),
                "bool",
                active.as_str(),
                true,
            );
        }
        i += 1;
    }
}

/// The slot of the first edge with identity `id`, from `i` on.
pub open spec fn edge_slot(edges: Seq<AwaitEdge>, id: AwaitEdgeId, i: int) -> Option<AwaitSlotId>
    decreases edges.len() - i,
{
    if i < 0 || i >= edges.len() {
        None
    } else if edges[i].id == id {
        Some(edges[i].slot)
    } else {
        edge_slot(edges, id, i + 1)
    }
}

fn find_edge_slot(edges: &Vec<AwaitEdge>, id: AwaitEdgeId) -> (r: Option<AwaitSlotId>)
    ensures
        r == edge_slot(edges@, id, 0),
{
    let mut i: usize = 0;
    while i < edges.len()
        invariant
            i <= edges@.len(),
            edge_slot(edges@, id, 0) == edge_slot(edges@, id, i as int),
        decreases edges@.len() - i,
    {
        if edges[i].id == id {
            return Some(edges[i].slot);
        }
        i += 1;
    }
    None
}

/// Whether the `k`-th polled child runs in typed storage and uses `slot`.
pub open spec fn polls_typed(
    edges: Seq<AwaitEdge>,
    plan: FunctionPlanView,
    slot: AwaitSlotId,
    k: int,
) -> bool {
    &&& edge_slot(edges, plan.edge_children[k].0, 0) == Some(slot)
    &&& order::lookup(plan.children, plan.edge_children[k].1) is Some
    &&& typed_static(order::lookup(plan.children, plan.edge_children[k].1)->0)
}

/// Whether `slot` belongs to a child of the plan in typed storage.
pub open spec fn plan_types_slot(
    edges: Seq<AwaitEdge>,
    plan: FunctionPlanView,
    slot: AwaitSlotId,
) -> bool {
    exists|k: int|
        0 <= k < plan.edge_children.len() && #[trigger] polls_typed(edges, plan, slot, k)
}

/// Whether `slot` belongs to a child in typed storage.
pub open spec fn typed_slot(
    edges: Seq<AwaitEdge>,
    plan: Option<FunctionPlanView>,
    slot: AwaitSlotId,
) -> bool {
    match plan {
        Some(own) => plan_types_slot(edges, own, slot),
        None => false,
    }
}

/// Tells whether `slot` belongs to a child in typed storage.
pub fn is_typed_slot(
    function: &LivenessFunction,
    plan: Option<&CFunctionPlan>,
    slot: AwaitSlotId,
) -> (r: bool)
    ensures
        r == typed_slot(function.coroutine.await_plan.edges@, plan_view(plan), slot),
{
    let edges = &function.coroutine.await_plan.edges;
    match plan {
        None => false,
        Some(own) => {
            let mut k: usize = 0;
            while k < own.edge_children.len()
                invariant
                    plan == Some(own),
                    edges@ == function.coroutine.await_plan.edges@,
                    k <= own.edge_children@.len(),
                    forall|j: int| 0 <= j < k ==> !polls_typed(edges@, own@, slot, j),
                decreases own.edge_children@.len() - k,
            {
                proof {
                    order::lookup_views(own.children@, own.edge_children@[k as int].1);
                }
                if let Some(child) = find_value(&own.children, own.edge_children[k].1) {
                    if is_typed_static_child(child) {
                        if let Some(used) = find_edge_slot(edges, own.edge_children[k].0) {
                            if used == slot {
                                assert(polls_typed(edges@, own@, slot, k as int));
                                return true;
                            }
                        }
                    }
                }
                k += 1;
            }
            false
        },
    }
}

/// The fields of the first `n` suspension slots: an awaitable and a flag for
/// those without typed storage, and a result where its type is known.
pub open spec fn slot_fields(
    found: Seq<FieldView>,
    slots: Seq<CoroutineAwaitSlot>,
    edges: Seq<AwaitEdge>,
    plan: Option<FunctionPlanView>,
    types: Seq<(AwaitSlotId, Seq<char>)>,
    n: int,
) -> Seq<FieldView>
    decreases n,
{
    if n <= 0 {
        found
    } else {
        let before = slot_fields(found, slots, edges, plan, types, n - 1);
        let slot = slots[n - 1].id;
        let name = slot_name("cr_await_"@, slot.0);
        let own = if typed_slot(edges, plan, slot) {
            before
        } else {
            before.push(
                plain_field(LogicalFieldId::Awaitable(slot), "cr_awaitable"@, name, false),
            ).push(
                plain_field(
                    LogicalFieldId::AwaitableActive(slot),
                    "bool"@,
                    Seq::<char>::empty() + name + "_active"@,
                    true,
                ),
            )
        };
        match order::lookup(types, slot) {
            Some(ty) => own.push(
                plain_field(
                    LogicalFieldId::AwaitResult(slot),
                    ty,
                    Seq::<char>::empty() + name + "_result"@,
                    false,
                ),
            ),
            None => own,
        }
    }
}

fn add_slot_fields(
    fields: &mut Vec<ContextField>,
    function: &LivenessFunction,
    plan: Option<&CFunctionPlan>,
    types: &Vec<(AwaitSlotId, String)>,
)
    ensures
        syntax::views(final(fields)@) == slot_fields(
            syntax::views(old(fields)@),
            function.coroutine.await_slots@,
            function.coroutine.await_plan.edges@,
            plan_view(plan),
            order::entry_views(types@),
            function.coroutine.await_slots@.len() as int,
        ),
{
    let slots = &function.coroutine.await_slots;
    let mut i: usize = 0;
    while i < slots.len()
        invariant
            i <= slots@.len(),
            slots@ == function.coroutine.await_slots@,
            syntax::views(fields@) == slot_fields(
                syntax::views(old(fields)@),
                slots@,
                function.coroutine.await_plan.edges@,
                plan_view(plan),
                order::entry_views(types@),
                i as int,
            ),
        decreases slots@.len() - i,
    {
        let slot = slots[i].id;
        let name = numbered_name("cr_await_", slot.0);
        if !is_typed_slot(function, plan, slot) {
            let active = joined_text(name.as_str(), "_active");
            add_field(
                fields,
                LogicalFieldId::Awaitable(slot),
                "cr_awaitable",
                name.as_str(),
                false,
            );
            add_field(
                fields,
                LogicalFieldId::AwaitableActive(slot),
                "bool",
                active.as_str(),
                true,
            );
        }
        proof {
            order::lookup_views(types@, slot);
        }
        if let Some(ty) = find_value(types, slot) {
            let result = joined_text(name.as_str(), "_result");
            add_field(
                fields,
                LogicalFieldId::AwaitResult(slot),
                ty.as_str(),
                result.as_str(),
                false,
            );
        }
        i += 1;
    }
}

/// The fields of every context.
pub open spec fn header_fields() -> Seq<FieldView> {
    Seq::<FieldView>::empty().push(
        plain_field(LogicalFieldId::State, "uint32_t"@, "state"@, true),
    ).push(plain_field(LogicalFieldId::Status, "cr_poll_status"@, "status"@, true)).push(
        plain_field(LogicalFieldId::Error, "cr_error"@, "error"@, true),
    ).push(plain_field(LogicalFieldId::Cleanups, "cr_cleanup_stack"@, "cleanups"@, true))
}

/// All private fields of a context, in declaration order.
pub open spec fn context_fields(
    function: LivenessFunction,
    plan: Option<FunctionPlanView>,
) -> Seq<FieldView> {
    let lifted = lifted_fields(
        header_fields(),
        function.lifted_fields@,
        plan,
        function.lifted_fields@.len() as int,
    );
    let payload = match plan {
        Some(plan) => payload_fields(lifted, plan.children, plan.children.len() as int),
        None => lifted,
    };
    let slots = slot_fields(
        payload,
        function.coroutine.await_slots@,
        function.coroutine.await_plan.edges@,
        plan,
        context_types::result_types_of(function),
        function.coroutine.await_slots@.len() as int,
    );
    let returned = text::trimmed(function.coroutine.cfg.return_type.text@);
    if returned == "void"@ {
        slots
    } else {
        slots.push(plain_field(LogicalFieldId::Result, returned, "result"@, true)).push(
            plain_field(LogicalFieldId::Yielded, returned, "yielded"@, true),
        )
    }
}

/// Lists all private fields of a context.
fn list_context_fields(
    function: &LivenessFunction,
    plan: Option<&CFunctionPlan>,
    types: &Vec<(AwaitSlotId, String)>,
) -> (r: Vec<ContextField>)
    requires
        order::entry_views(types@) == context_types::result_types_of(*function),
    ensures
        syntax::views(r@) == context_fields(*function, plan_view(plan)),
{
    let mut fields: Vec<ContextField> = Vec::new();
    assert(syntax::views(fields@) =~= Seq::empty());
    add_field(&mut fields, LogicalFieldId::State, "uint32_t", "state", true);
    add_field(&mut fields, LogicalFieldId::Status, "cr_poll_status", "status", true);
    add_field(&mut fields, LogicalFieldId::Error, "cr_error", "error", true);
    add_field(&mut fields, LogicalFieldId::Cleanups, "cr_cleanup_stack", "cleanups", true);
    add_lifted_fields(&mut fields, &function.lifted_fields, plan);
    if let Some(plan) = plan {
        add_payload_fields(&mut fields, plan);
    }
    add_slot_fields(&mut fields, function, plan, types);
    let returned = trim(function.coroutine.cfg.return_type.text.as_str());
    if !str_eq(returned, "void") {
        add_field(&mut fields, LogicalFieldId::Result, returned, "result", true);
        add_field(&mut fields, LogicalFieldId::Yielded, returned, "yielded", true);
    }
    fields
}

/// Whether no logical field occurs twice.
pub open spec fn fields_distinct(fields: Seq<FieldView>) -> bool {
    forall|i: int, j: int|
        0 <= i < j < fields.len() ==> (#[trigger] fields[i]).logical != (
        #[trigger] fields[j]).logical
}

/// The member that a field becomes.
pub open spec fn member_of(field: FieldView) -> MemberView {
    MemberView {
        id: UnionMemberId(0),
        logical: field.logical,
        c_type: text::trimmed(field.c_type),
        c_name: field.c_name,
        c_declaration: field.c_declaration,
    }
}

/// The building after the first `n` fields got slots of their own.
pub open spec fn placed_directly(fields: Seq<FieldView>, n: int) -> Building
    decreases n,
{
    if n <= 0 {
        Building { slots: Seq::empty(), fields: Seq::empty() }
    } else {
        context_layout::with_direct(placed_directly(fields, n - 1), member_of(fields[n - 1]))
    }
}

/// The decision for a field with a slot of its own.
pub open spec fn direct_decision(field: FieldView) -> LayoutDecision {
    LayoutDecision {
        field: field.logical,
        reason: if field.required {
            LayoutDecisionReason::RequiredIndependent
        } else {
            LayoutDecisionReason::IdentityBaseline
        },
    }
}

/// The layout of a function in which every field stands alone.
pub open spec fn identity_layout(
    function: LivenessFunction,
    plan: Option<FunctionPlanView>,
) -> LayoutView {
    let fields = context_fields(function, plan);
    let building = placed_directly(fields, fields.len() as int);
    LayoutView {
        source_start: function.coroutine.cfg.span.start_byte,
        function_name: function.coroutine.cfg.name@,
        task_type: function.coroutine.task_type@,
        fields: building.fields,
        slots: building.slots,
        decisions: Seq::new(fields.len(), |i: int| direct_decision(fields[i])),
        await_result_types: context_types::result_types_of(function),
        layout_knowledge: Known::Unknown(ReasonView::UnsupportedTarget),
        size_decision: SizeDecisionView::NotRequested,
        aggressive_decision: AggressiveDecisionView::NotRequested,
    }
}

/// Builds the layout of a function in which every field stands alone.
fn build_function_layout(function: &LivenessFunction, plan: Option<&CFunctionPlan>) -> (r:
    FunctionContextLayout)
    requires
        fields_distinct(context_fields(*function, plan_view(plan))),
    ensures
        r@ == identity_layout(*function, plan_view(plan)),
{
    let types = await_result_types(function);
    let list = list_context_fields(function, plan, &types);
    let ghost views = syntax::views(list@);
    let ghost reasons = Seq::new(views.len(), |i: int| direct_decision(views[i]));
    let mut fields: Vec<(LogicalFieldId, FieldPlacement)> = Vec::new();
    let mut slots: Vec<PhysicalSlot> = Vec::new();
    let mut decisions: Vec<LayoutDecision> = Vec::new();
    assert(syntax::views(slots@) =~= Seq::empty());
    assert(order::entry_views(fields@) =~= Seq::empty());
    let mut i: usize = 0;
    while i < list.len()
        invariant
            i <= list@.len(),
            views == syntax::views(list@),
            reasons == Seq::new(views.len(), |i: int| direct_decision(views[i])),
            context_layout::building_of(slots@, fields@) == placed_directly(views, i as int),
            decisions@ =~= reasons.take(i as int),
        decreases list@.len() - i,
    {
        let field = &list[i];
        assert(views[i as int] == field@);
        let member = PhysicalMember {
            id: UnionMemberId(0),
            logical: field.logical,
            c_type: trim(field.c_type.as_str()).to_owned(),
            c_name: field.c_name.clone(),
            c_declaration: field.c_declaration.clone(),
        };
        append_direct_slot_to(&mut slots, &mut fields, member);
        let reason = if field.required {
            LayoutDecisionReason::RequiredIndependent
        } else {
            LayoutDecisionReason::IdentityBaseline
        };
        decisions.push(LayoutDecision { field: field.logical, reason });
        i += 1;
    }
    assert(reasons.take(i as int) =~= reasons);
    FunctionContextLayout {
        source_start: function.coroutine.cfg.span.start_byte,
        function_name: function.coroutine.cfg.name.clone(),
        task_type: function.coroutine.task_type.clone(),
        fields,
        slots,
        decisions,
        await_result_types: types,
        layout_knowledge: LayoutKnowledge::Unknown(LayoutUnknownReason::UnsupportedTarget),
        size_decision: SizeLayoutDecision::NotRequested,
        aggressive_decision: AggressiveLayoutDecision::NotRequested,
    }
}

/// The first plan whose function starts at `start`, from `i` on.
pub open spec fn plan_at(
    functions: Seq<(FunctionId, FunctionPlanView)>,
    start: usize,
    i: int,
) -> Option<FunctionPlanView>
    decreases functions.len() - i,
{
    if i < 0 || i >= functions.len() {
        None
    } else if functions[i].1.source_start == start {
        Some(functions[i].1)
    } else {
        plan_at(functions, start, i + 1)
    }
}

/// The plan of the function that starts at `start`.
pub open spec fn planned_at(plan: Option<&CStaticAwaitPlan>, start: usize) -> Option<
    FunctionPlanView,
> {
    match plan {
        Some(plan) => plan_at(order::entry_views(plan.functions@), start, 0),
        None => None,
    }
}

/// Finds the plan of the function that starts at `start`.
pub fn find_plan<'a>(plan: Option<&'a CStaticAwaitPlan>, start: usize) -> (r: Option<
    &'a CFunctionPlan,
>)
    ensures
        plan_view(r) == planned_at(plan, start),
{
    match plan {
        None => None,
        Some(own) => {
            let ghost views = order::entry_views(own.functions@);
            let mut i: usize = 0;
            while i < own.functions.len()
                invariant
                    plan == Some(own),
                    i <= own.functions@.len(),
                    views == order::entry_views(own.functions@),
                    plan_at(views, start, 0) == plan_at(views, start, i as int),
                decreases own.functions@.len() - i,
            {
                assert(views[i as int].1 == own.functions@[i as int].1@);
                if own.functions[i].1.source_start == start {
                    return Some(&own.functions[i].1);
                }
                i += 1;
            }
            None
        },
    }
}

/// The lifetimes of the function at position `index`, from `i` on.
pub open spec fn lifetimes_of(
    functions: Seq<SlotLivenessFunction>,
    index: int,
    i: int,
) -> Option<SlotLivenessFunction>
    decreases functions.len() - i,
{
    if i < 0 || i >= functions.len() {
        None
    } else if functions[i].function_index == index {
        Some(functions[i])
    } else {
        lifetimes_of(functions, index, i + 1)
    }
}

/// Finds the lifetimes of the function at position `index`.
pub fn find_lifetimes(unit: &SlotLivenessUnit, index: usize) -> (r: Option<&SlotLivenessFunction>)
    ensures
        match r {
            Some(function) => lifetimes_of(unit.functions@, index as int, 0) == Some(*function),
            None => lifetimes_of(unit.functions@, index as int, 0) is None,
        },
{
    let mut i: usize = 0;
    while i < unit.functions.len()
        invariant
            i <= unit.functions@.len(),
            lifetimes_of(unit.functions@, index as int, 0) == lifetimes_of(
                unit.functions@,
                index as int,
                i as int,
            ),
        decreases unit.functions@.len() - i,
    {
        if unit.functions[i].function_index == index {
            return Some(&unit.functions[i]);
        }
        i += 1;
    }
    None
}

/// What keeps the function at position `i` from having a layout.
pub open spec fn identity_problem(
    functions: Seq<LivenessFunction>,
    slot_liveness: SlotLivenessUnit,
    i: int,
) -> Option<DiagnosticView> {
    match lifetimes_of(slot_liveness.functions@, i, 0) {
        None => Some(
            syntax::error_view(
                "CRC8001"@,
                "async function is missing slot-liveness input"@,
                functions[i].coroutine.cfg.span,
            ),
        ),
        Some(lifetimes) => if lifetimes.function_name@ != functions[i].coroutine.cfg.name@ {
            Some(
                syntax::error_view(
                    "CRC8002"@,
                    "slot-liveness function identity doesn't match layout input"@,
                    functions[i].coroutine.cfg.span,
                ),
            )
        } else {
            None
        },
    }
}

/// The problems of the asynchronous functions among the first `n`.
pub open spec fn identity_problems(
    functions: Seq<LivenessFunction>,
    slot_liveness: SlotLivenessUnit,
    n: int,
) -> Seq<DiagnosticView>
    decreases n,
{
    if n <= 0 {
        Seq::empty()
    } else {
        let before = identity_problems(functions, slot_liveness, n - 1);
        match identity_problem(functions, slot_liveness, n - 1) {
            Some(problem) => if functions[n - 1].coroutine.cfg.is_async {
                before.push(problem)
            } else {
                before
            },
            None => before,
        }
    }
}

/// The identity layouts of the asynchronous functions among the first `n`, by
/// source position.
pub open spec fn identity_layouts(
    functions: Seq<LivenessFunction>,
    plan: Option<&CStaticAwaitPlan>,
    slot_liveness: SlotLivenessUnit,
    n: int,
) -> Seq<(usize, LayoutView)>
    decreases n,
{
    if n <= 0 {
        Seq::empty()
    } else {
        let before = identity_layouts(functions, plan, slot_liveness, n - 1);
        let function = functions[n - 1];
        let start = function.coroutine.cfg.span.start_byte;
        if has_context(functions, slot_liveness, n - 1) {
            order::put(before, start, identity_layout(function, planned_at(plan, start)))
        } else {
            before
        }
    }
}

/// Whether a function gets a context: it is asynchronous, and its lifetimes are
/// known by its name.
pub open spec fn has_context(
    functions: Seq<LivenessFunction>,
    slot_liveness: SlotLivenessUnit,
    i: int,
) -> bool {
    functions[i].coroutine.cfg.is_async && identity_problem(functions, slot_liveness, i) is None
}

/// Whether no context of a unit holds a logical field twice.
pub open spec fn contexts_distinct(
    functions: Seq<LivenessFunction>,
    plan: Option<&CStaticAwaitPlan>,
    slot_liveness: SlotLivenessUnit,
) -> bool {
    forall|i: int|
        #![trigger functions[i]]
        0 <= i < functions.len() && has_context(functions, slot_liveness, i) ==> fields_distinct(
            context_fields(
                functions[i],
                planned_at(plan, functions[i].coroutine.cfg.span.start_byte),
            ),
        )
}

/// Builds a direct, one-slot-per-field identity layout.
#[must_use]
pub fn build_identity_context_layout(
    unit: &LivenessUnit,
    static_plan: Option<&CStaticAwaitPlan>,
    slot_liveness: &SlotLivenessUnit,
) -> (r: ContextLayoutPlan)
    requires
        contexts_distinct(unit.functions@, static_plan, *slot_liveness),
    ensures
        order::entry_views(r.functions@) == identity_layouts(
            unit.functions@,
            static_plan,
            *slot_liveness,
            unit.functions@.len() as int,
        ),
        syntax::views(r.diagnostics@) == identity_problems(
            unit.functions@,
            *slot_liveness,
            unit.functions@.len() as int,
        ),
{
    let mut plan = ContextLayoutPlan::default();
    let mut i: usize = 0;
    while i < unit.functions.len()
        invariant
            i <= unit.functions@.len(),
            contexts_distinct(unit.functions@, static_plan, *slot_liveness),
            order::entry_views(plan.functions@) == identity_layouts(
                unit.functions@,
                static_plan,
                *slot_liveness,
                i as int,
            ),
            syntax::views(plan.diagnostics@) == identity_problems(
                unit.functions@,
                *slot_liveness,
                i as int,
            ),
        decreases unit.functions@.len() - i,
    {
        let function = &unit.functions[i];
        assert(unit.functions@[i as int] == *function);
        if function.coroutine.cfg.is_async {
            match find_lifetimes(slot_liveness, i) {
                None => {
                    let diagnostic = error_diagnostic(
                        "CRC8001",
                        "async function is missing slot-liveness input",
                        &function.coroutine.cfg.span,
                    );
                    proof {
                        syntax::views_push(plan.diagnostics@, diagnostic);
                    }
                    plan.diagnostics.push(diagnostic);
                },
                Some(lifetimes) => {
                    if !str_eq(
                        lifetimes.function_name.as_str(),
                        function.coroutine.cfg.name.as_str(),
                    ) {
                        let diagnostic = error_diagnostic(
                            "CRC8002",
                            "slot-liveness function identity doesn't match layout input",
                            &function.coroutine.cfg.span,
                        );
                        proof {
                            syntax::views_push(plan.diagnostics@, diagnostic);
                        }
                        plan.diagnostics.push(diagnostic);
                    } else {
                        let start = function.coroutine.cfg.span.start_byte;
                        let layout = build_function_layout(
                            function,
                            find_plan(static_plan, start),
                        );
                        proof {
                            order::put_views(plan.functions@, start, layout);
                        }
                        put_value(&mut plan.functions, start, layout);
                    }
                },
            }
        }
        i += 1;
    }
    plan
}

} // verus!
