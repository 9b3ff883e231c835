//! Validated logical-to-physical coroutine context layouts.

use vstd::prelude::*;

use crate::await_plan::ChildInstanceId;
use crate::context_types::await_result_types;
use crate::order;
use crate::order::{find_value, put_value, Key};
use crate::semantic::{AwaitSlotId, DeclarationId};
use crate::syntax;
use crate::syntax::{Diagnostic, DiagnosticView};
use crate::target_layout;
use crate::target_layout::{
    clone_knowledge, AggregateLayout, AggregateView, Known, LayoutKnowledge, LayoutUnknownReason,
    ReasonView,
};
use crate::text;
use crate::text::{put3, put4};

pub use crate::identity_layout::build_identity_context_layout;
pub use crate::layout_check::verify_context_layout;
pub use crate::layout_passes::build_context_layout;

verus! {

/// Identity of one physical slot: its position in the context.
#[derive(Debug, Clone, Copy, PartialEq, Eq, PartialOrd, Ord, Hash, Structural)]
pub struct PhysicalSlotId(pub u32);

/// Identity of one member of a slot: its position in the slot.
#[derive(Debug, Clone, Copy, PartialEq, Eq, PartialOrd, Ord, Hash, Structural)]
pub struct UnionMemberId(pub u32);

/// Stable identity for every private field in one coroutine context.
#[derive(Debug, Clone, Copy, PartialEq, Eq, PartialOrd, Ord, Hash, Structural)]
pub enum LogicalFieldId {
    State,
    Status,
    Error,
    Cleanups,
    Lifted(DeclarationId),
    BindingActive(DeclarationId),
    BindingGeneration(DeclarationId),
    DirectChildPayload(ChildInstanceId),
    DirectChildActive(ChildInstanceId),
    Awaitable(AwaitSlotId),
    AwaitableActive(AwaitSlotId),
    AwaitResult(AwaitSlotId),
    Result,
    Yielded,
}

impl Key for LogicalFieldId {
    open spec fn rank_spec(&self) -> u64 {
        match self {
            LogicalFieldId::State => 0u64,
            LogicalFieldId::Status => 0x1_0000_0000u64,
            LogicalFieldId::Error => 0x2_0000_0000u64,
            LogicalFieldId::Cleanups => 0x3_0000_0000u64,
            LogicalFieldId::Lifted(id) => (0x4_0000_0000u64 + id.0) as u64,
            LogicalFieldId::BindingActive(id) => (0x5_0000_0000u64 + id.0) as u64,
            LogicalFieldId::BindingGeneration(id) => (0x6_0000_0000u64 + id.0) as u64,
            LogicalFieldId::DirectChildPayload(id) => (0x7_0000_0000u64 + id.0) as u64,
            LogicalFieldId::DirectChildActive(id) => (0x8_0000_0000u64 + id.0) as u64,
            LogicalFieldId::Awaitable(id) => (0x9_0000_0000u64 + id.0) as u64,
            LogicalFieldId::AwaitableActive(id) => (0xa_0000_0000u64 + id.0) as u64,
            LogicalFieldId::AwaitResult(id) => (0xb_0000_0000u64 + id.0) as u64,
            LogicalFieldId::Result => 0xc_0000_0000u64,
            LogicalFieldId::Yielded => 0xd_0000_0000u64,
        }
    }

    fn rank(&self) -> (r: u64) {
        match self {
            LogicalFieldId::State => 0u64,
            LogicalFieldId::Status => 0x1_0000_0000u64,
            LogicalFieldId::Error => 0x2_0000_0000u64,
            LogicalFieldId::Cleanups => 0x3_0000_0000u64,
            LogicalFieldId::Lifted(id) => 0x4_0000_0000u64 + id.0 as u64,
            LogicalFieldId::BindingActive(id) => 0x5_0000_0000u64 + id.0 as u64,
            LogicalFieldId::BindingGeneration(id) => 0x6_0000_0000u64 + id.0 as u64,
            LogicalFieldId::DirectChildPayload(id) => 0x7_0000_0000u64 + id.0 as u64,
            LogicalFieldId::DirectChildActive(id) => 0x8_0000_0000u64 + id.0 as u64,
            LogicalFieldId::Awaitable(id) => 0x9_0000_0000u64 + id.0 as u64,
            LogicalFieldId::AwaitableActive(id) => 0xa_0000_0000u64 + id.0 as u64,
            LogicalFieldId::AwaitResult(id) => 0xb_0000_0000u64 + id.0 as u64,
            LogicalFieldId::Result => 0xc_0000_0000u64,
            LogicalFieldId::Yielded => 0xd_0000_0000u64,
        }
    }

    proof fn injective(a: Self, b: Self) {
    }
}

/// A validated C lvalue path relative to one task-context pointer.
#[derive(Debug, PartialEq, Eq)]
pub enum CAccessPath {
    Direct { field: String },
    UnionMember { slot: String, member: String },
}

/// The contents of a path.
pub enum PathView {
    Direct { field: Seq<char> },
    UnionMember { slot: Seq<char>, member: Seq<char> },
}

impl View for CAccessPath {
    type V = PathView;

    open spec fn view(&self) -> PathView {
        match self {
            CAccessPath::Direct { field } => PathView::Direct { field: field@ },
            CAccessPath::UnionMember { slot, member } => PathView::UnionMember {
                slot: slot@,
                member: member@,
            },
        }
    }
}

impl Clone for CAccessPath {
    fn clone(&self) -> (r: Self)
        ensures
            r == *self,
    {
        match self {
            CAccessPath::Direct { field } => CAccessPath::Direct { field: field.clone() },
            CAccessPath::UnionMember { slot, member } => CAccessPath::UnionMember {
                slot: slot.clone(),
                member: member.clone(),
            },
        }
    }
}

/// A path as C writes it.
pub open spec fn path_text(path: PathView, context: Seq<char>) -> Seq<char> {
    match path {
        PathView::Direct { field } => Seq::<char>::empty() + context + "->"@ + field,
        PathView::UnionMember { slot, member } => Seq::<char>::empty() + context + "->"@ + slot
            + "."@ + member,
    }
}

impl CAccessPath {
    /// Renders one access through the supplied context pointer expression.
    #[must_use]
    pub fn render(&self, context: &str) -> (r: String)
        ensures
            r@ == path_text(self@, context@),
    {
        let mut out = String::new();
        assert(out@ =~= Seq::empty());
        match self {
            CAccessPath::Direct { field } => {
                put3(&mut out, context, "->", field.as_str());
            },
            CAccessPath::UnionMember { slot, member } => {
                put4(&mut out, context, "->", slot.as_str(), ".");
                text::put(&mut out, member.as_str());
            },
        }
        out
    }

    /// Returns the direct declaration name for an independent field.
    #[must_use]
    pub fn direct_field(&self) -> (r: Option<&str>)
        ensures
            match r {
                Some(field) => self@ == (PathView::Direct { field: field@ }),
                None => self@ is UnionMember,
            },
    {
        match self {
            CAccessPath::Direct { field } => Some(field.as_str()),
            CAccessPath::UnionMember { slot, member } => None,
        }
    }
}

/// One declarator-aware physical member.
#[derive(Debug, PartialEq, Eq)]
pub struct PhysicalMember {
    pub id: UnionMemberId,
    pub logical: LogicalFieldId,
    pub c_type: String,
    pub c_name: String,
    pub c_declaration: String,
}

/// The contents of a member.
pub struct MemberView {
    pub id: UnionMemberId,
    pub logical: LogicalFieldId,
    pub c_type: Seq<char>,
    pub c_name: Seq<char>,
    pub c_declaration: Seq<char>,
}

impl View for PhysicalMember {
    type V = MemberView;

    open spec fn view(&self) -> MemberView {
        MemberView {
            id: self.id,
            logical: self.logical,
            c_type: self.c_type@,
            c_name: self.c_name@,
            c_declaration: self.c_declaration@,
        }
    }
}

impl Clone for PhysicalMember {
    fn clone(&self) -> (r: Self)
        ensures
            r == *self,
    {
        PhysicalMember {
            id: self.id,
            logical: self.logical,
            c_type: self.c_type.clone(),
            c_name: self.c_name.clone(),
            c_declaration: self.c_declaration.clone(),
        }
    }
}

/// The physical form of one context slot.
#[derive(Debug, Clone, Copy, PartialEq, Eq, Structural)]
pub enum PhysicalSlotKind {
    Direct,
    Union,
}

/// One deterministic physical declaration in context order.
#[derive(Debug, PartialEq, Eq)]
pub struct PhysicalSlot {
    pub id: PhysicalSlotId,
    pub kind: PhysicalSlotKind,
    pub c_name: String,
    pub members: Vec<PhysicalMember>,
}

/// The contents of a slot.
pub struct SlotView {
    pub id: PhysicalSlotId,
    pub kind: PhysicalSlotKind,
    pub c_name: Seq<char>,
    pub members: Seq<MemberView>,
}

impl View for PhysicalSlot {
    type V = SlotView;

    open spec fn view(&self) -> SlotView {
        SlotView {
            id: self.id,
            kind: self.kind,
            c_name: self.c_name@,
            members: syntax::views(self.members@),
        }
    }
}

impl Clone for PhysicalSlot {
    fn clone(&self) -> (r: Self)
        ensures
            r@ == self@,
    {
        let members = self.members.clone();
        assert(members@ =~= self.members@);
        PhysicalSlot { id: self.id, kind: self.kind, c_name: self.c_name.clone(), members }
    }
}

/// The complete placement of one logical field.
#[derive(Debug, PartialEq, Eq)]
pub struct FieldPlacement {
    pub slot: PhysicalSlotId,
    pub member: UnionMemberId,
    pub access_path: CAccessPath,
}

/// The contents of a placement.
pub struct PlacementView {
    pub slot: PhysicalSlotId,
    pub member: UnionMemberId,
    pub access_path: PathView,
}

impl View for FieldPlacement {
    type V = PlacementView;

    open spec fn view(&self) -> PlacementView {
        PlacementView { slot: self.slot, member: self.member, access_path: self.access_path@ }
    }
}

impl Clone for FieldPlacement {
    fn clone(&self) -> (r: Self)
        ensures
            r == *self,
    {
        FieldPlacement {
            slot: self.slot,
            member: self.member,
            access_path: self.access_path.clone(),
        }
    }
}

/// Why a field stands alone or shares its storage.
#[derive(Debug, Clone, Copy, PartialEq, Eq, Structural)]
pub enum LayoutDecisionReason {
    IdentityBaseline,
    RequiredIndependent,
    ReusedSameType,
    ReusedCrossType,
    ExcludedParameter,
    ExcludedAddressTaken,
    ExcludedCleanupRetained,
    ExcludedTaskBinding,
    ExcludedVolatileOrAtomic,
    RetainedSpeedUnknown,
    RetainedSpeedLarger,
}

/// One stable layout decision.
#[derive(Debug, Clone, Copy, PartialEq, Eq, Structural)]
pub struct LayoutDecision {
    pub field: LogicalFieldId,
    pub reason: LayoutDecisionReason,
}

/// The complete-function outcome of the `Size` placement pass.
#[derive(Debug, PartialEq, Eq)]
pub enum SizeLayoutDecision {
    NotRequested,
    NoCandidate,
    Accepted { speed_size: u64, size_size: u64 },
    RetainedUnknown(LayoutUnknownReason),
    RetainedLarger { speed_size: u64, candidate_size: u64 },
}

/// The contents of a size decision.
pub enum SizeDecisionView {
    NotRequested,
    NoCandidate,
    Accepted { speed_size: u64, size_size: u64 },
    RetainedUnknown(ReasonView),
    RetainedLarger { speed_size: u64, candidate_size: u64 },
}

impl View for SizeLayoutDecision {
    type V = SizeDecisionView;

    open spec fn view(&self) -> SizeDecisionView {
        match self {
            SizeLayoutDecision::NotRequested => SizeDecisionView::NotRequested,
            SizeLayoutDecision::NoCandidate => SizeDecisionView::NoCandidate,
            SizeLayoutDecision::Accepted {
                speed_size,
                size_size,
            } => SizeDecisionView::Accepted { speed_size: *speed_size, size_size: *size_size },
            SizeLayoutDecision::RetainedUnknown(reason) => SizeDecisionView::RetainedUnknown(
                reason@,
            ),
            SizeLayoutDecision::RetainedLarger {
                speed_size,
                candidate_size,
            } => SizeDecisionView::RetainedLarger {
                speed_size: *speed_size,
                candidate_size: *candidate_size,
            },
        }
    }
}

impl Clone for SizeLayoutDecision {
    fn clone(&self) -> (r: Self)
        ensures
            r == *self,
    {
        match self {
            SizeLayoutDecision::NotRequested => SizeLayoutDecision::NotRequested,
            SizeLayoutDecision::NoCandidate => SizeLayoutDecision::NoCandidate,
            SizeLayoutDecision::Accepted {
                speed_size,
                size_size,
            } => SizeLayoutDecision::Accepted { speed_size: *speed_size, size_size: *size_size },
            SizeLayoutDecision::RetainedUnknown(reason) => SizeLayoutDecision::RetainedUnknown(
                reason.clone(),
            ),
            SizeLayoutDecision::RetainedLarger {
                speed_size,
                candidate_size,
            } => SizeLayoutDecision::RetainedLarger {
                speed_size: *speed_size,
                candidate_size: *candidate_size,
            },
        }
    }
}

/// The complete-function outcome of the bounded `Aggressive` placement pass.
#[derive(Debug, PartialEq, Eq)]
pub enum AggressiveLayoutDecision {
    NotRequested,
    RetainedSize { size_size: u64, explored_nodes: u64 },
    Accepted { size_size: u64, aggressive_size: u64, explored_nodes: u64 },
    BudgetExhausted { size_size: u64, explored_nodes: u64 },
    RetainedUnknown(LayoutUnknownReason),
}

/// The contents of an aggressive decision.
pub enum AggressiveDecisionView {
    NotRequested,
    RetainedSize { size_size: u64, explored_nodes: u64 },
    Accepted { size_size: u64, aggressive_size: u64, explored_nodes: u64 },
    BudgetExhausted { size_size: u64, explored_nodes: u64 },
    RetainedUnknown(ReasonView),
}

impl View for AggressiveLayoutDecision {
    type V = AggressiveDecisionView;

    open spec fn view(&self) -> AggressiveDecisionView {
        match self {
            AggressiveLayoutDecision::NotRequested => AggressiveDecisionView::NotRequested,
            AggressiveLayoutDecision::RetainedSize {
                size_size,
                explored_nodes,
            } => AggressiveDecisionView::RetainedSize {
                size_size: *size_size,
                explored_nodes: *explored_nodes,
            },
            AggressiveLayoutDecision::Accepted {
                size_size,
                aggressive_size,
                explored_nodes,
            } => AggressiveDecisionView::Accepted {
                size_size: *size_size,
                aggressive_size: *aggressive_size,
                explored_nodes: *explored_nodes,
            },
            AggressiveLayoutDecision::BudgetExhausted {
                size_size,
                explored_nodes,
            } => AggressiveDecisionView::BudgetExhausted {
                size_size: *size_size,
                explored_nodes: *explored_nodes,
            },
            AggressiveLayoutDecision::RetainedUnknown(
                reason,
            ) => AggressiveDecisionView::RetainedUnknown(reason@),
        }
    }
}

impl Clone for AggressiveLayoutDecision {
    fn clone(&self) -> (r: Self)
        ensures
            r == *self,
    {
        match self {
            AggressiveLayoutDecision::NotRequested => AggressiveLayoutDecision::NotRequested,
            AggressiveLayoutDecision::RetainedSize {
                size_size,
                explored_nodes,
            } => AggressiveLayoutDecision::RetainedSize {
                size_size: *size_size,
                explored_nodes: *explored_nodes,
            },
            AggressiveLayoutDecision::Accepted {
                size_size,
                aggressive_size,
                explored_nodes,
            } => AggressiveLayoutDecision::Accepted {
                size_size: *size_size,
                aggressive_size: *aggressive_size,
                explored_nodes: *explored_nodes,
            },
            AggressiveLayoutDecision::BudgetExhausted {
                size_size,
                explored_nodes,
            } => AggressiveLayoutDecision::BudgetExhausted {
                size_size: *size_size,
                explored_nodes: *explored_nodes,
            },
            AggressiveLayoutDecision::RetainedUnknown(
                reason,
            ) => AggressiveLayoutDecision::RetainedUnknown(reason.clone()),
        }
    }
}

/// A validated layout for one async function.
#[derive(Debug, PartialEq, Eq)]
pub struct FunctionContextLayout {
    pub source_start: usize,
    pub function_name: String,
    pub task_type: String,
    pub fields: Vec<(LogicalFieldId, FieldPlacement)>,
    pub slots: Vec<PhysicalSlot>,
    pub decisions: Vec<LayoutDecision>,
    pub await_result_types: Vec<(AwaitSlotId, String)>,
    pub layout_knowledge: LayoutKnowledge<AggregateLayout>,
    pub size_decision: SizeLayoutDecision,
    pub aggressive_decision: AggressiveLayoutDecision,
}

/// The contents of a layout.
#[verifier::ext_equal]
pub struct LayoutView {
    pub source_start: usize,
    pub function_name: Seq<char>,
    pub task_type: Seq<char>,
    pub fields: Seq<(LogicalFieldId, PlacementView)>,
    pub slots: Seq<SlotView>,
    pub decisions: Seq<LayoutDecision>,
    pub await_result_types: Seq<(AwaitSlotId, Seq<char>)>,
    pub layout_knowledge: Known<AggregateView>,
    pub size_decision: SizeDecisionView,
    pub aggressive_decision: AggressiveDecisionView,
}

impl View for FunctionContextLayout {
    type V = LayoutView;

    open spec fn view(&self) -> LayoutView {
        LayoutView {
            source_start: self.source_start,
            function_name: self.function_name@,
            task_type: self.task_type@,
            fields: order::entry_views(self.fields@),
            slots: syntax::views(self.slots@),
            decisions: self.decisions@,
            await_result_types: order::entry_views(self.await_result_types@),
            layout_knowledge: target_layout::known_aggregate(self.layout_knowledge),
            size_decision: self.size_decision@,
            aggressive_decision: self.aggressive_decision@,
        }
    }
}

/// The path by which C reaches a field.
pub open spec fn access_text(
    layout: LayoutView,
    field: LogicalFieldId,
    context: Seq<char>,
) -> Option<Seq<char>> {
    match order::lookup(layout.fields, field) {
        Some(placement) => Some(path_text(placement.access_path, context)),
        None => None,
    }
}

impl FunctionContextLayout {
    /// Returns one required placement.
    #[must_use]
    pub fn placement(&self, field: LogicalFieldId) -> (r: Option<&FieldPlacement>)
        ensures
            match r {
                Some(placement) => order::lookup(self@.fields, field) == Some(placement@),
                None => order::lookup(self@.fields, field) is None,
            },
    {
        proof {
            order::lookup_views(self.fields@, field);
        }
        find_value(&self.fields, field)
    }

    /// Renders one required logical field through a context pointer.
    #[must_use]
    pub fn access(&self, field: LogicalFieldId, context: &str) -> (r: Option<String>)
        ensures
            match r {
                Some(path) => access_text(self@, field, context@) == Some(path@),
                None => access_text(self@, field, context@) is None,
            },
    {
        match self.placement(field) {
            Some(placement) => Some(placement.access_path.render(context)),
            None => None,
        }
    }
}

fn clone_types(types: &Vec<(AwaitSlotId, String)>) -> (r: Vec<(AwaitSlotId, String)>)
    ensures
        order::entry_views(r@) == order::entry_views(types@),
{
    let ghost views = order::entry_views(types@);
    let mut r: Vec<(AwaitSlotId, String)> = Vec::new();
    let mut i: usize = 0;
    while i < types.len()
        invariant
            i <= types@.len(),
            views == order::entry_views(types@),
            order::entry_views(r@) =~= views.take(i as int),
        decreases types@.len() - i,
    {
        let entry = (types[i].0, types[i].1.clone());
        let ghost before = r@;
        r.push(entry);
        assert(order::entry_views(r@) =~= order::entry_views(before).push((entry.0, entry.1@)));
        i += 1;
    }
    assert(views.take(i as int) =~= views);
    r
}

fn clone_fields(fields: &Vec<(LogicalFieldId, FieldPlacement)>) -> (r: Vec<
    (LogicalFieldId, FieldPlacement),
>)
    ensures
        order::entry_views(r@) == order::entry_views(fields@),
{
    let ghost views = order::entry_views(fields@);
    let mut r: Vec<(LogicalFieldId, FieldPlacement)> = Vec::new();
    let mut i: usize = 0;
    while i < fields.len()
        invariant
            i <= fields@.len(),
            views == order::entry_views(fields@),
            order::entry_views(r@) =~= views.take(i as int),
        decreases fields@.len() - i,
    {
        let entry = (fields[i].0, fields[i].1.clone());
        let ghost before = r@;
        r.push(entry);
        assert(order::entry_views(r@) =~= order::entry_views(before).push((entry.0, entry.1@)));
        i += 1;
    }
    assert(views.take(i as int) =~= views);
    r
}

fn clone_slots(slots: &Vec<PhysicalSlot>) -> (r: Vec<PhysicalSlot>)
    ensures
        syntax::views(r@) == syntax::views(slots@),
{
    let ghost views = syntax::views(slots@);
    let mut r: Vec<PhysicalSlot> = Vec::new();
    let mut i: usize = 0;
    while i < slots.len()
        invariant
            i <= slots@.len(),
            views == syntax::views(slots@),
            syntax::views(r@) =~= views.take(i as int),
        decreases slots@.len() - i,
    {
        let slot = slots[i].clone();
        proof {
            syntax::views_push(r@, slot);
        }
        r.push(slot);
        i += 1;
    }
    assert(views.take(i as int) =~= views);
    r
}

impl Clone for FunctionContextLayout {
    fn clone(&self) -> (r: Self)
        ensures
            r@ == self@,
    {
        let decisions = self.decisions.clone();
        assert(decisions@ =~= self.decisions@);
        FunctionContextLayout {
            source_start: self.source_start,
            function_name: self.function_name.clone(),
            task_type: self.task_type.clone(),
            fields: clone_fields(&self.fields),
            slots: clone_slots(&self.slots),
            decisions,
            await_result_types: clone_types(&self.await_result_types),
            layout_knowledge: clone_knowledge(&self.layout_knowledge),
            size_decision: self.size_decision.clone(),
            aggressive_decision: self.aggressive_decision.clone(),
        }
    }
}

/// All validated function layouts in one translation unit, by source position.
#[derive(Debug, Clone, PartialEq, Eq)]
pub struct ContextLayoutPlan {
    pub functions: Vec<(usize, FunctionContextLayout)>,
    pub diagnostics: Vec<Diagnostic>,
}

impl ContextLayoutPlan {
    /// Whether layouts, and the fields of each, stand in ascending order of their
    /// keys.
    pub open spec fn ordered(&self) -> bool {
        order::ascending(self.functions@) && forall|i: int|
            0 <= i < self.functions@.len() ==> order::ascending(
                (#[trigger] self.functions@[i]).1.fields@,
            )
    }
}

impl Default for ContextLayoutPlan {
    fn default() -> (r: Self)
        ensures
            order::entry_views(r.functions@) == Seq::<(usize, LayoutView)>::empty(),
            syntax::views(r.diagnostics@) == Seq::<DiagnosticView>::empty(),
    {
        let r = ContextLayoutPlan { functions: Vec::new(), diagnostics: Vec::new() };
        assert(order::entry_views(r.functions@) =~= Seq::<(usize, LayoutView)>::empty());
        assert(syntax::views(r.diagnostics@) =~= Seq::<DiagnosticView>::empty());
        r
    }
}

/// Slots and placements of a layout that is being put together.
pub struct Building {
    pub slots: Seq<SlotView>,
    pub fields: Seq<(LogicalFieldId, PlacementView)>,
}

/// The building after one more field with a slot of its own.
pub open spec fn with_direct(building: Building, member: MemberView) -> Building {
    let slot = PhysicalSlotId(building.slots.len() as u32);
    let own = MemberView { id: UnionMemberId(0), ..member };
    Building {
        slots: building.slots.push(
            SlotView {
                id: slot,
                kind: PhysicalSlotKind::Direct,
                c_name: own.c_name,
                members: seq![own],
            },
        ),
        fields: order::put(
            building.fields,
            own.logical,
            PlacementView {
                slot,
                member: UnionMemberId(0),
                access_path: PathView::Direct { field: own.c_name },
            },
        ),
    }
}

/// Members numbered by their positions.
pub open spec fn numbered(members: Seq<MemberView>) -> Seq<MemberView> {
    Seq::new(members.len(), |i: int| MemberView { id: UnionMemberId(i as u32), ..members[i] })
}

/// The placements after the first `n` members of a union were placed.
pub open spec fn union_placements(
    fields: Seq<(LogicalFieldId, PlacementView)>,
    slot: PhysicalSlotId,
    name: Seq<char>,
    members: Seq<MemberView>,
    n: int,
) -> Seq<(LogicalFieldId, PlacementView)>
    decreases n,
{
    if n <= 0 {
        fields
    } else {
        order::put(
            union_placements(fields, slot, name, members, n - 1),
            members[n - 1].logical,
            PlacementView {
                slot,
                member: UnionMemberId((n - 1) as u32),
                access_path: PathView::UnionMember {
                    slot: name,
                    member: members[n - 1].c_name,
                },
            },
        )
    }
}

/// The building after several fields that share one slot.
pub open spec fn with_union(
    building: Building,
    members: Seq<MemberView>,
    name: Seq<char>,
) -> Building {
    let slot = PhysicalSlotId(building.slots.len() as u32);
    Building {
        slots: building.slots.push(
            SlotView {
                id: slot,
                kind: PhysicalSlotKind::Union,
                c_name: name,
                members: numbered(members),
            },
        ),
        fields: union_placements(building.fields, slot, name, members, members.len() as int),
    }
}

/// The contents of a building.
pub open spec fn building_of(
    slots: Seq<PhysicalSlot>,
    fields: Seq<(LogicalFieldId, FieldPlacement)>,
) -> Building {
    Building { slots: syntax::views(slots), fields: order::entry_views(fields) }
}

/// Places one field in a slot of its own.
pub fn append_direct_slot_to(
    slots: &mut Vec<PhysicalSlot>,
    fields: &mut Vec<(LogicalFieldId, FieldPlacement)>,
    member: PhysicalMember,
)
    ensures
        building_of(final(slots)@, final(fields)@) == with_direct(
            building_of(old(slots)@, old(fields)@),
            member@,
        ),
{
    let slot = PhysicalSlotId(slots.len() as u32);
    let mut own = member;
    own.id = UnionMemberId(0);
    let placement = FieldPlacement {
        slot,
        member: own.id,
        access_path: CAccessPath::Direct { field: own.c_name.clone() },
    };
    proof {
        order::put_views(fields@, own.logical, placement);
    }
    put_value(fields, own.logical, placement);
    let c_name = own.c_name.clone();
    let mut members: Vec<PhysicalMember> = Vec::new();
    members.push(own);
    let physical = PhysicalSlot { id: slot, kind: PhysicalSlotKind::Direct, c_name, members };
    assert(physical@.members =~= seq![own@]);
    proof {
        syntax::views_push(slots@, physical);
    }
    slots.push(physical);
}

/// Places several fields in one slot.
pub fn append_union_slot_to(
    slots: &mut Vec<PhysicalSlot>,
    fields: &mut Vec<(LogicalFieldId, FieldPlacement)>,
    members: &Vec<PhysicalMember>,
    slot_name: String,
)
    ensures
        building_of(final(slots)@, final(fields)@) == with_union(
            building_of(old(slots)@, old(fields)@),
            syntax::views(members@),
            slot_name@,
        ),
{
    let slot = PhysicalSlotId(slots.len() as u32);
    let ghost views = syntax::views(members@);
    let ghost start = order::entry_views(fields@);
    let mut placed: Vec<PhysicalMember> = Vec::new();
    let mut i: usize = 0;
    while i < members.len()
        invariant
            i <= members@.len(),
            views == syntax::views(members@),
            syntax::views(placed@) =~= numbered(views).take(i as int),
            order::entry_views(fields@) == union_placements(
                start,
                slot,
                slot_name@,
                views,
                i as int,
            ),
        decreases members@.len() - i,
    {
        let mut member = members[i].clone();
        member.id = UnionMemberId(i as u32);
        let placement = FieldPlacement {
            slot,
            member: member.id,
            access_path: CAccessPath::UnionMember {
                slot: slot_name.clone(),
                member: member.c_name.clone(),
            },
        };
        proof {
            order::put_views(fields@, member.logical, placement);
            syntax::views_push(placed@, member);
        }
        put_value(fields, member.logical, placement);
        placed.push(member);
        i += 1;
    }
    let physical = PhysicalSlot {
        id: slot,
        kind: PhysicalSlotKind::Union,
        c_name: slot_name,
        members: placed,
    };
    assert(physical@.members =~= numbered(views));
    proof {
        syntax::views_push(slots@, physical);
    }
    slots.push(physical);
}

} // verus!
