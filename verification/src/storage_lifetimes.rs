//! Which context fields can share storage.

use vstd::prelude::*;

use crate::await_plan::{AwaitEdge, ChildInstanceId, ChildOrigin};
use crate::c_static_plan::{
    CChildStorage, CChildTarget, CFunctionPlan, ChildPlanView, FunctionPlanView,
};
use crate::context_layout::LogicalFieldId;
use crate::control_flow::BlockId;
use crate::identity_layout;
use crate::liveness::{LiftedField, LivenessFunction};
use crate::order;
use crate::order::has_key;
use crate::semantic::{AwaitSlotId, DeclarationId};
use crate::slot_liveness;
use crate::slot_liveness::{LogicalStorage, ProgramPoint, SlotLivenessFunction};

verus! {

/// When a context field holds a value.
#[derive(Debug, Clone, Copy, PartialEq, Eq, PartialOrd, Ord, Structural)]
pub enum SizeLifetime {
    Storage(LogicalStorage),
    Lifted(DeclarationId),
}

/// Whether a child is awaited directly through an awaitable in `slot`.
pub open spec fn awaits_in(child: ChildPlanView, slot: AwaitSlotId) -> bool {
    child.origin is Direct && child.target is Dynamic && child.effective_storage
        == CChildStorage::Opaque(slot)
}

/// The first child that is awaited directly through an awaitable in `slot`,
/// from `i` on.
pub open spec fn awaitable_child(
    children: Seq<(ChildInstanceId, ChildPlanView)>,
    slot: AwaitSlotId,
    i: int,
) -> Option<ChildInstanceId>
    decreases children.len() - i,
{
    if i < 0 || i >= children.len() {
        None
    } else if awaits_in(children[i].1, slot) {
        Some(children[i].1.instance)
    } else {
        awaitable_child(children, slot, i + 1)
    }
}

/// The child of a plan that is awaited directly through an awaitable in
/// `slot`.
pub open spec fn planned_awaitable(
    plan: Option<FunctionPlanView>,
    slot: AwaitSlotId,
) -> Option<ChildInstanceId> {
    match plan {
        Some(own) => awaitable_child(own.children, slot, 0),
        None => None,
    }
}

fn find_awaitable(plan: Option<&CFunctionPlan>, slot: AwaitSlotId) -> (r: Option<ChildInstanceId>)
    ensures
        r == planned_awaitable(identity_layout::plan_view(plan), slot),
{
    match plan {
        None => None,
        Some(own) => {
            let ghost children = own@.children;
            let mut i: usize = 0;
            while i < own.children.len()
                invariant
                    plan == Some(own),
                    i <= own.children@.len(),
                    children == order::entry_views(own.children@),
                    awaitable_child(children, slot, 0) == awaitable_child(
                        children,
                        slot,
                        i as int,
                    ),
                decreases own.children@.len() - i,
            {
                let child = &own.children[i].1;
                assert(children[i as int].1 == child@);
                let direct = match child.origin {
                    ChildOrigin::Direct(edge) => true,
                    ChildOrigin::Binding(declaration) => false,
                };
                let dynamic = match &child.target {
                    CChildTarget::Dynamic(value) => true,
                    CChildTarget::Static(callee) => false,
                };
                if direct && dynamic && child.effective_storage == CChildStorage::Opaque(slot) {
                    return Some(child.instance);
                }
                i += 1;
            }
            None
        },
    }
}

/// The storage of a field that is only needed while something is awaited.
pub open spec fn storage_of(
    field: LogicalFieldId,
    plan: Option<FunctionPlanView>,
) -> Option<LogicalStorage> {
    match field {
        LogicalFieldId::AwaitResult(slot) => Some(LogicalStorage::AwaitResult(slot)),
        LogicalFieldId::DirectChildPayload(child) => Some(LogicalStorage::DirectChild(child)),
        LogicalFieldId::Awaitable(slot) => match planned_awaitable(plan, slot) {
            Some(child) => Some(LogicalStorage::DirectChild(child)),
            None => None,
        },
        _ => None,
    }
}

/// Returns the storage of a field that is only needed while something is
/// awaited.
pub fn reusable_storage(field: LogicalFieldId, plan: Option<&CFunctionPlan>) -> (r: Option<
    LogicalStorage,
>)
    ensures
        r == storage_of(field, identity_layout::plan_view(plan)),
{
    match field {
        LogicalFieldId::AwaitResult(slot) => Some(LogicalStorage::AwaitResult(slot)),
        LogicalFieldId::DirectChildPayload(child) => Some(LogicalStorage::DirectChild(child)),
        LogicalFieldId::Awaitable(slot) => match find_awaitable(plan, slot) {
            Some(child) => Some(LogicalStorage::DirectChild(child)),
            None => None,
        },
        _ => None,
    }
}

/// Whether two results are alive at one point.
pub open spec fn alive_together(
    live: Seq<(ProgramPoint, Vec<AwaitSlotId>)>,
    first: AwaitSlotId,
    second: AwaitSlotId,
) -> bool {
    exists|p: int|
        0 <= p < live.len() && (#[trigger] live[p]).1@.contains(first) && live[p].1@.contains(
            second,
        )
}

/// Whether two storages can't be one.
pub open spec fn storages_clash(
    lifetimes: SlotLivenessFunction,
    first: LogicalStorage,
    second: LogicalStorage,
) -> bool {
    ||| first == second
    ||| match (first, second) {
        (LogicalStorage::AwaitResult(a), LogicalStorage::AwaitResult(b)) => alive_together(
            lifetimes.live@,
            a,
            b,
        ),
        _ => false,
    }
    ||| slot_liveness::interfering(lifetimes.interference@, first, second)
}

fn results_alive_together(
    live: &Vec<(ProgramPoint, Vec<AwaitSlotId>)>,
    first: AwaitSlotId,
    second: AwaitSlotId,
) -> (r: bool)
    ensures
        r == alive_together(live@, first, second),
{
    let mut p: usize = 0;
    while p < live.len()
        invariant
            p <= live@.len(),
            forall|k: int|
                0 <= k < p ==> !((#[trigger] live@[k]).1@.contains(first)
                    && live@[k].1@.contains(second)),
        decreases live@.len() - p,
    {
        if has_key(&live[p].1, first) && has_key(&live[p].1, second) {
            assert(live@[p as int].1@.contains(first));
            return true;
        }
        p += 1;
    }
    false
}

/// Tells whether two storages can't be one.
pub fn storages_interfere(
    lifetimes: &SlotLivenessFunction,
    first: LogicalStorage,
    second: LogicalStorage,
) -> (r: bool)
    ensures
        r == storages_clash(*lifetimes, first, second),
{
    if first == second {
        return true;
    }
    if let (LogicalStorage::AwaitResult(a), LogicalStorage::AwaitResult(b)) = (first, second) {
        if results_alive_together(&lifetimes.live, a, b) {
            return true;
        }
    }
    lifetimes.interferes(first, second)
}

/// The first lifted field of a declaration, from `i` on.
pub open spec fn lifted_at(fields: Seq<LiftedField>, declaration: DeclarationId, i: int) -> Option<
    int,
>
    decreases fields.len() - i,
{
    if i < 0 || i >= fields.len() {
        None
    } else if fields[i].declaration == declaration {
        Some(i)
    } else {
        lifted_at(fields, declaration, i + 1)
    }
}

/// Whether nothing but the code of its scope can see a lifted field.
pub open spec fn freely_lifted(field: LiftedField) -> bool {
    !field.is_parameter && !field.is_task && !field.address_taken && !field.cleanup_retained
        && !field.volatile_or_atomic
}

/// When a field holds a value, if its storage can be shared.
pub open spec fn lifetime_of(
    logical: LogicalFieldId,
    plan: Option<FunctionPlanView>,
    function: LivenessFunction,
) -> Option<SizeLifetime> {
    match logical {
        LogicalFieldId::Lifted(declaration) => match lifted_at(
            function.lifted_fields@,
            declaration,
            0,
        ) {
            Some(i) => if freely_lifted(function.lifted_fields@[i]) {
                Some(SizeLifetime::Lifted(declaration))
            } else {
                None
            },
            None => None,
        },
        _ => match storage_of(logical, plan) {
            Some(storage) => Some(SizeLifetime::Storage(storage)),
            None => None,
        },
    }
}

/// Returns when a field holds a value, if its storage can be shared.
pub fn size_lifetime(
    logical: LogicalFieldId,
    plan: Option<&CFunctionPlan>,
    function: &LivenessFunction,
) -> (r: Option<SizeLifetime>)
    ensures
        r == lifetime_of(logical, identity_layout::plan_view(plan), *function),
{
    if let LogicalFieldId::Lifted(declaration) = logical {
        let mut i: usize = 0;
        while i < function.lifted_fields.len()
            invariant
                i <= function.lifted_fields@.len(),
                logical == LogicalFieldId::Lifted(declaration),
                lifted_at(function.lifted_fields@, declaration, 0) == lifted_at(
                    function.lifted_fields@,
                    declaration,
                    i as int,
                ),
            decreases function.lifted_fields@.len() - i,
        {
            let field = &function.lifted_fields[i];
            if field.declaration == declaration {
                if !field.is_parameter && !field.is_task && !field.address_taken
                    && !field.cleanup_retained && !field.volatile_or_atomic {
                    return Some(SizeLifetime::Lifted(declaration));
                }
                return None;
            }
            i += 1;
        }
        return None;
    }
    match reusable_storage(logical, plan) {
        Some(storage) => Some(SizeLifetime::Storage(storage)),
        None => None,
    }
}

/// The declarations alive at a point, from entry `i` on.
pub open spec fn alive_at(
    live_points: Seq<(ProgramPoint, Vec<DeclarationId>)>,
    point: ProgramPoint,
    i: int,
) -> Option<Seq<DeclarationId>>
    decreases live_points.len() - i,
{
    if i < 0 || i >= live_points.len() {
        None
    } else if live_points[i].0 == point {
        Some(live_points[i].1@)
    } else {
        alive_at(live_points, point, i + 1)
    }
}

/// Whether a declaration is alive at a point.
pub open spec fn is_alive(
    live_points: Seq<(ProgramPoint, Vec<DeclarationId>)>,
    point: ProgramPoint,
    declaration: DeclarationId,
) -> bool {
    match alive_at(live_points, point, 0) {
        Some(declarations) => declarations.contains(declaration),
        None => false,
    }
}

fn declaration_is_alive(
    live_points: &Vec<(ProgramPoint, Vec<DeclarationId>)>,
    point: ProgramPoint,
    declaration: DeclarationId,
) -> (r: bool)
    ensures
        r == is_alive(live_points@, point, declaration),
{
    let mut i: usize = 0;
    while i < live_points.len()
        invariant
            i <= live_points@.len(),
            alive_at(live_points@, point, 0) == alive_at(live_points@, point, i as int),
        decreases live_points@.len() - i,
    {
        if live_points[i].0 == point {
            return has_key(&live_points[i].1, declaration);
        }
        i += 1;
    }
    false
}

/// Whether two declarations are alive at one point.
pub open spec fn lifted_together(
    live_points: Seq<(ProgramPoint, Vec<DeclarationId>)>,
    first: DeclarationId,
    second: DeclarationId,
) -> bool {
    exists|p: int|
        0 <= p < live_points.len() && (#[trigger] live_points[p]).1@.contains(first)
            && live_points[p].1@.contains(second)
}

fn declarations_alive_together(
    live_points: &Vec<(ProgramPoint, Vec<DeclarationId>)>,
    first: DeclarationId,
    second: DeclarationId,
) -> (r: bool)
    ensures
        r == lifted_together(live_points@, first, second),
{
    let mut p: usize = 0;
    while p < live_points.len()
        invariant
            p <= live_points@.len(),
            forall|k: int|
                0 <= k < p ==> !((#[trigger] live_points@[k]).1@.contains(first)
                    && live_points@[k].1@.contains(second)),
        decreases live_points@.len() - p,
    {
        if has_key(&live_points[p].1, first) && has_key(&live_points[p].1, second) {
            assert(live_points@[p as int].1@.contains(first));
            return true;
        }
        p += 1;
    }
    false
}

/// The block of the first edge that polls `child`, from `i` on.
pub open spec fn polling_block(edges: Seq<AwaitEdge>, child: ChildInstanceId, i: int) -> Option<
    BlockId,
>
    decreases edges.len() - i,
{
    if i < 0 || i >= edges.len() {
        None
    } else if edges[i].instance == child {
        Some(edges[i].block)
    } else {
        polling_block(edges, child, i + 1)
    }
}

fn find_polling_block(edges: &Vec<AwaitEdge>, child: ChildInstanceId) -> (r: Option<BlockId>)
    ensures
        r == polling_block(edges@, child, 0),
{
    let mut i: usize = 0;
    while i < edges.len()
        invariant
            i <= edges@.len(),
            polling_block(edges@, child, 0) == polling_block(edges@, child, i as int),
        decreases edges@.len() - i,
    {
        if edges[i].instance == child {
            return Some(edges[i].block);
        }
        i += 1;
    }
    None
}

/// Whether a declaration is alive where a result is.
pub open spec fn lifted_with_result(
    live: Seq<(ProgramPoint, Vec<AwaitSlotId>)>,
    live_points: Seq<(ProgramPoint, Vec<DeclarationId>)>,
    slot: AwaitSlotId,
    declaration: DeclarationId,
) -> bool {
    exists|p: int|
        0 <= p < live.len() && (#[trigger] live[p]).1@.contains(slot) && is_alive(
            live_points,
            live[p].0,
            declaration,
        )
}

fn alive_with_result(
    live: &Vec<(ProgramPoint, Vec<AwaitSlotId>)>,
    live_points: &Vec<(ProgramPoint, Vec<DeclarationId>)>,
    slot: AwaitSlotId,
    declaration: DeclarationId,
) -> (r: bool)
    ensures
        r == lifted_with_result(live@, live_points@, slot, declaration),
{
    let mut p: usize = 0;
    while p < live.len()
        invariant
            p <= live@.len(),
            forall|k: int|
                0 <= k < p ==> !((#[trigger] live@[k]).1@.contains(slot) && is_alive(
                    live_points@,
                    live@[k].0,
                    declaration,
                )),
        decreases live@.len() - p,
    {
        if has_key(&live[p].1, slot) && declaration_is_alive(live_points, live[p].0, declaration) {
            assert(live@[p as int].1@.contains(slot));
            return true;
        }
        p += 1;
    }
    false
}

/// Whether a declaration is alive while a storage is needed.
pub open spec fn lifted_clash(
    declaration: DeclarationId,
    storage: LogicalStorage,
    function: LivenessFunction,
    lifetimes: SlotLivenessFunction,
) -> bool {
    match storage {
        LogicalStorage::AwaitResult(slot) => lifted_with_result(
            lifetimes.live@,
            function.live_points@,
            slot,
            declaration,
        ),
        LogicalStorage::DirectChild(child) => match polling_block(
            function.coroutine.await_plan.edges@,
            child,
            0,
        ) {
            Some(block) => is_alive(
                function.live_points@,
                ProgramPoint::BeforeTerminator(block),
                declaration,
            ),
            None => false,
        },
    }
}

/// Whether two fields hold values at the same time.
pub open spec fn lifetimes_clash(
    first: SizeLifetime,
    second: SizeLifetime,
    function: LivenessFunction,
    lifetimes: SlotLivenessFunction,
) -> bool {
    match (first, second) {
        (SizeLifetime::Storage(a), SizeLifetime::Storage(b)) => storages_clash(lifetimes, a, b),
        (SizeLifetime::Lifted(a), SizeLifetime::Lifted(b)) => lifted_together(
            function.live_points@,
            a,
            b,
        ),
        (SizeLifetime::Lifted(declaration), SizeLifetime::Storage(storage)) => lifted_clash(
            declaration,
            storage,
            function,
            lifetimes,
        ),
        (SizeLifetime::Storage(storage), SizeLifetime::Lifted(declaration)) => lifted_clash(
            declaration,
            storage,
            function,
            lifetimes,
        ),
    }
}

fn lifted_interferes(
    declaration: DeclarationId,
    storage: LogicalStorage,
    function: &LivenessFunction,
    lifetimes: &SlotLivenessFunction,
) -> (r: bool)
    ensures
        r == lifted_clash(declaration, storage, *function, *lifetimes),
{
    match storage {
        LogicalStorage::AwaitResult(slot) => alive_with_result(
            &lifetimes.live,
            &function.live_points,
            slot,
            declaration,
        ),
        LogicalStorage::DirectChild(child) => match find_polling_block(
            &function.coroutine.await_plan.edges,
            child,
        ) {
            Some(block) => declaration_is_alive(
                &function.live_points,
                ProgramPoint::BeforeTerminator(block),
                declaration,
            ),
            None => false,
        },
    }
}

/// Tells whether two fields hold values at the same time.
pub fn size_lifetimes_interfere(
    first: SizeLifetime,
    second: SizeLifetime,
    function: &LivenessFunction,
    lifetimes: &SlotLivenessFunction,
) -> (r: bool)
    ensures
        r == lifetimes_clash(first, second, *function, *lifetimes),
{
    match (first, second) {
        (SizeLifetime::Storage(a), SizeLifetime::Storage(b)) => storages_interfere(
            lifetimes,
            a,
            b,
        ),
        (SizeLifetime::Lifted(a), SizeLifetime::Lifted(b)) => declarations_alive_together(
            &function.live_points,
            a,
            b,
        ),
        (SizeLifetime::Lifted(declaration), SizeLifetime::Storage(storage)) => lifted_interferes(
            declaration,
            storage,
            function,
            lifetimes,
        ),
        (SizeLifetime::Storage(storage), SizeLifetime::Lifted(declaration)) => lifted_interferes(
            declaration,
            storage,
            function,
            lifetimes,
        ),
    }
}

} // verus!
