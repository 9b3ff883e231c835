//! Source-preserving C11 emitter.

use vstd::prelude::*;

use crate::c_function_text;
use crate::c_function_text::write_prototypes;
use crate::c_instruction;
use crate::c_static_plan::{
    CChildPlan, CChildStorage, CChildTarget, CFunctionPlan, CStaticAwaitPlan, CalleeView,
    ChildPlanView, ChildTargetView, FunctionPlanView, IslandView, LayoutIsland, StaticCallee,
};
use crate::c_task;
use crate::c_task::{
    emit_async_function, emit_sync_function, is_accessor_stem, is_heap_stem, write_async_layout,
};
use crate::context_layout::{ContextLayoutPlan, FunctionContextLayout, LayoutView};
use crate::context_types;
use crate::context_types::render_typed_name;
use crate::identity_layout;
use crate::layout_check;
use crate::layout_check::verify_context_layout;
use crate::liveness::{LivenessFunction, LivenessUnit};
use crate::order;
use crate::order::{find_value, has_key, put_value, sort_order};
use crate::slot_liveness::SlotLivenessUnit;
use crate::symbol_index::{AsyncLinkageKey, AsyncParameter, FunctionId, LayoutVisibility};
use crate::syntax;
use crate::syntax::{clone_diagnostics, Diagnostic, DiagnosticSeverity, DiagnosticView};
use crate::text;
use crate::text::{
    chars_of, concat2, contains, copied, match_at, number, put, put2, replace_all, slice_bytes,
    string_of, trim,
};

pub use crate::c_task::{CBackend, CEmitterConfig};

verus! {

/// Generated source and diagnostics from one translation unit.
#[derive(Debug, Clone, PartialEq, Eq)]
pub struct CEmission {
    pub source: String,
    pub diagnostics: Vec<Diagnostic>,
}

/// The contents of an emission.
pub struct EmissionView {
    pub source: Seq<char>,
    pub diagnostics: Seq<DiagnosticView>,
}

impl View for CEmission {
    type V = EmissionView;

    open spec fn view(&self) -> EmissionView {
        EmissionView { source: self.source@, diagnostics: syntax::views(self.diagnostics@) }
    }
}

/// The functions of a plan.
pub open spec fn planned_functions(plan: Option<&CStaticAwaitPlan>) -> Seq<
    (FunctionId, FunctionPlanView),
> {
    match plan {
        Some(own) => order::entry_views(own.functions@),
        None => Seq::empty(),
    }
}

/// The children of the first `n` functions, one function after another.
pub open spec fn all_children(functions: Seq<(FunctionId, FunctionPlanView)>, n: int) -> Seq<
    ChildPlanView,
>
    decreases n,
{
    if n <= 0 {
        Seq::empty()
    } else {
        let own = functions[n - 1].1.children;
        all_children(functions, n - 1) + Seq::new(own.len(), |i: int| own[i].1)
    }
}

/// All children of a plan.
pub open spec fn plan_children(plan: Option<&CStaticAwaitPlan>) -> Seq<ChildPlanView> {
    let functions = planned_functions(plan);
    all_children(functions, functions.len() as int)
}

fn collect_children<'a>(plan: Option<&'a CStaticAwaitPlan>) -> (r: Vec<&'a CChildPlan>)
    ensures
        syntax::views(r@) == plan_children(plan),
{
    let mut found: Vec<&'a CChildPlan> = Vec::new();
    assert(syntax::views(found@) =~= Seq::empty());
    if let Some(own) = plan {
        let ghost functions = order::entry_views(own.functions@);
        let mut n: usize = 0;
        while n < own.functions.len()
            invariant
                n <= own.functions@.len(),
                functions == order::entry_views(own.functions@),
                syntax::views(found@) == all_children(functions, n as int),
            decreases own.functions@.len() - n,
        {
            let children = &own.functions[n].1.children;
            let ghost before = syntax::views(found@);
            let ghost listed = functions[n as int].1.children;
            let ghost added = Seq::new(listed.len(), |i: int| listed[i].1);
            assert(listed == order::entry_views(children@));
            let mut i: usize = 0;
            while i < children.len()
                invariant
                    i <= children@.len(),
                    listed == order::entry_views(children@),
                    added == Seq::new(listed.len(), |i: int| listed[i].1),
                    syntax::views(found@) =~= before + added.take(i as int),
                decreases children@.len() - i,
            {
                let child: &'a CChildPlan = &children[i].1;
                proof {
                    syntax::views_push(found@, child);
                }
                found.push(child);
                i += 1;
            }
            assert(added.take(i as int) =~= added);
            n += 1;
        }
    }
    found
}

/// The plan of the last of the first `n` functions that starts at `start`.
pub open spec fn plan_last(
    functions: Seq<(FunctionId, FunctionPlanView)>,
    start: usize,
    n: int,
) -> Option<FunctionPlanView>
    decreases n,
{
    if n <= 0 {
        None
    } else if functions[n - 1].1.source_start == start {
        Some(functions[n - 1].1)
    } else {
        plan_last(functions, start, n - 1)
    }
}

/// The plan that the C code of a function follows.
pub open spec fn plan_for(plan: Option<&CStaticAwaitPlan>, start: usize) -> Option<
    FunctionPlanView,
> {
    let functions = planned_functions(plan);
    plan_last(functions, start, functions.len() as int)
}

fn find_plan_for<'a>(plan: Option<&'a CStaticAwaitPlan>, start: usize) -> (r: Option<
    &'a CFunctionPlan,
>)
    ensures
        identity_layout::plan_view(r) == plan_for(plan, start),
{
    match plan {
        None => None,
        Some(own) => {
            let ghost functions = order::entry_views(own.functions@);
            let mut n: usize = own.functions.len();
            while n > 0
                invariant
                    plan == Some(own),
                    n <= own.functions@.len(),
                    functions == order::entry_views(own.functions@),
                    plan_last(functions, start, own.functions@.len() as int) == plan_last(
                        functions,
                        start,
                        n as int,
                    ),
                decreases n,
            {
                assert(functions[n - 1].1 == own.functions@[n - 1].1@);
                if own.functions[n - 1].1.source_start == start {
                    return Some(&own.functions[n - 1].1);
                }
                n -= 1;
            }
            None
        },
    }
}

/// Whether a child has the complete type of its callee at hand.
pub open spec fn same_unit_typed(child: ChildPlanView) -> bool {
    match child.target {
        ChildTargetView::Static(callee) => child.effective_storage is Embedded || (
        child.effective_storage is Boxed && callee.layout_visibility == LayoutVisibility::Visible),
        ChildTargetView::Dynamic(value) => false,
    }
}

/// Whether a child needs the declarations of a function before `anchor`.
pub open spec fn child_requires(
    functions: Seq<(FunctionId, FunctionPlanView)>,
    child: ChildPlanView,
    anchor: usize,
    id: FunctionId,
) -> bool {
    same_unit_typed(child) && child.target->Static_0.function == id && match order::lookup(
        functions,
        id,
    ) {
        Some(plan) => plan.source_start >= anchor,
        None => true,
    }
}

/// Whether a layout needs the declarations of a function before `anchor`.
pub open spec fn layout_requires(
    functions: Seq<(FunctionId, FunctionPlanView)>,
    layout: FunctionId,
    anchor: usize,
    id: FunctionId,
) -> bool {
    match order::lookup(functions, layout) {
        Some(plan) => plan.required_prototypes.contains(id) || exists|i: int|
            0 <= i < plan.children.len() && child_requires(
                functions,
                (#[trigger] plan.children[i]).1,
                anchor,
                id,
            ),
        None => false,
    }
}

/// Whether the layouts of an island need the declarations of a function.
pub open spec fn island_requires(
    functions: Seq<(FunctionId, FunctionPlanView)>,
    island: IslandView,
    id: FunctionId,
) -> bool {
    exists|k: int|
        0 <= k < island.layouts.len() && layout_requires(
            functions,
            #[trigger] island.layouts[k],
            island.anchor,
            id,
        )
}

/// The callees among the first `n` children that an island needs, by identity;
/// of several with one identity the first.
pub open spec fn required_callees(
    functions: Seq<(FunctionId, FunctionPlanView)>,
    island: IslandView,
    children: Seq<ChildPlanView>,
    n: int,
) -> Seq<(FunctionId, CalleeView)>
    decreases n,
{
    if n <= 0 {
        Seq::empty()
    } else {
        let before = required_callees(functions, island, children, n - 1);
        match children[n - 1].target {
            ChildTargetView::Static(callee) => if island_requires(
                functions,
                island,
                callee.function,
            ) && order::lookup(before, callee.function) is None {
                order::put(before, callee.function, callee)
            } else {
                before
            },
            ChildTargetView::Dynamic(value) => before,
        }
    }
}

fn child_needs(
    plan: &CStaticAwaitPlan,
    child: &CChildPlan,
    anchor: usize,
    id: FunctionId,
) -> (r: bool)
    ensures
        r == child_requires(order::entry_views(plan.functions@), child@, anchor, id),
{
    if let CChildTarget::Static(callee) = &child.target {
        let typed = match child.effective_storage {
            CChildStorage::Embedded(slot) => true,
            CChildStorage::Boxed(slot) => callee.layout_visibility == LayoutVisibility::Visible,
            CChildStorage::Opaque(slot) => false,
        };
        if typed && callee.function == id {
            proof {
                order::lookup_views(plan.functions@, id);
            }
            return match find_value(&plan.functions, id) {
                Some(own) => own.source_start >= anchor,
                None => true,
            };
        }
    }
    false
}

fn layout_needs(
    plan: &CStaticAwaitPlan,
    layout: FunctionId,
    anchor: usize,
    id: FunctionId,
) -> (r: bool)
    ensures
        r == layout_requires(order::entry_views(plan.functions@), layout, anchor, id),
{
    let ghost functions = order::entry_views(plan.functions@);
    proof {
        order::lookup_views(plan.functions@, layout);
    }
    match find_value(&plan.functions, layout) {
        None => false,
        Some(own) => {
            if has_key(&own.required_prototypes, id) {
                return true;
            }
            let ghost children = own@.children;
            let mut i: usize = 0;
            while i < own.children.len()
                invariant
                    i <= own.children@.len(),
                    functions == order::entry_views(plan.functions@),
                    order::lookup(functions, layout) == Some(own@),
                    children == own@.children,
                    forall|k: int|
                        0 <= k < i ==> !child_requires(
                            functions,
                            (#[trigger] children[k]).1,
                            anchor,
                            id,
                        ),
                decreases own.children@.len() - i,
            {
                assert(children[i as int].1 == own.children@[i as int].1@);
                if child_needs(plan, &own.children[i].1, anchor, id) {
                    return true;
                }
                i += 1;
            }
            false
        },
    }
}

fn island_needs(plan: &CStaticAwaitPlan, island: &LayoutIsland, id: FunctionId) -> (r: bool)
    ensures
        r == island_requires(order::entry_views(plan.functions@), island@, id),
{
    let ghost functions = order::entry_views(plan.functions@);
    let mut k: usize = 0;
    while k < island.layouts.len()
        invariant
            k <= island.layouts@.len(),
            functions == order::entry_views(plan.functions@),
            forall|j: int|
                0 <= j < k ==> !layout_requires(
                    functions,
                    #[trigger] island@.layouts[j],
                    island.anchor,
                    id,
                ),
        decreases island.layouts@.len() - k,
    {
        assert(island@.layouts[k as int] == island.layouts@[k as int]);
        if layout_needs(plan, island.layouts[k], island.anchor, id) {
            return true;
        }
        k += 1;
    }
    false
}

/// The first `n` parameters of a callee, as C declares them.
pub open spec fn typed_parameters(parameters: Seq<AsyncParameter>, n: int) -> Seq<char>
    decreases n,
{
    if n <= 0 {
        Seq::empty()
    } else {
        let before = typed_parameters(parameters, n - 1);
        let separated = if n > 1 {
            before + ", "@
        } else {
            before
        };
        separated + context_types::declarator(
            parameters[n - 1].adjusted_type@,
            "cr_arg_"@ + text::dec((n - 1) as nat),
        )
    }
}

fn typed_parameter_declarations(callee: &StaticCallee) -> (r: String)
    ensures
        r@ == typed_parameters(callee.parameters@, callee.parameters@.len() as int),
{
    let mut out = String::new();
    assert(out@ =~= Seq::empty());
    let mut n: usize = 0;
    while n < callee.parameters.len()
        invariant
            n <= callee.parameters@.len(),
            out@ == typed_parameters(callee.parameters@, n as int),
        decreases callee.parameters@.len() - n,
    {
        if n > 0 {
            put(&mut out, ", ");
        }
        let name = concat2("cr_arg_", number(n as u64).as_str());
        let declared = render_typed_name(
            callee.parameters[n].adjusted_type.as_str(),
            name.as_str(),
        );
        put(&mut out, declared.as_str());
        n += 1;
    }
    out
}

/// The declarations of one callee.
pub open spec fn callee_text(
    out: Seq<char>,
    callee: CalleeView,
    children: Seq<ChildPlanView>,
) -> Seq<char> {
    let internal = callee.linkage is Internal;
    c_function_text::prototypes_text(
        out,
        callee.stem,
        callee.task_type,
        text::trimmed(callee.result_type),
        typed_parameters(callee.parameters, callee.parameters.len() as int),
        internal,
        callee.layout_visibility == LayoutVisibility::Visible,
        !internal || c_task::heap_stem(children, callee.stem),
        !internal || c_task::accessor_stem(children, callee.stem),
    )
}

/// The declarations of the first `n` callees.
pub open spec fn callees_text(
    out: Seq<char>,
    callees: Seq<(FunctionId, CalleeView)>,
    children: Seq<ChildPlanView>,
    n: int,
) -> Seq<char>
    decreases n,
{
    if n <= 0 {
        out
    } else {
        callee_text(callees_text(out, callees, children, n - 1), callees[n - 1].1, children)
    }
}

/// The declarations that an island needs.
pub open spec fn prototypes_of(
    functions: Seq<(FunctionId, FunctionPlanView)>,
    island: IslandView,
) -> Seq<char> {
    let children = all_children(functions, functions.len() as int);
    let callees = required_callees(functions, island, children, children.len() as int);
    callees_text(Seq::empty(), callees, children, callees.len() as int)
}

fn emit_required_static_prototypes(
    plan: &CStaticAwaitPlan,
    island: &LayoutIsland,
    children: &Vec<&CChildPlan>,
) -> (r: String)
    requires
        syntax::views(children@) == plan_children(Some(plan)),
    ensures
        r@ == prototypes_of(order::entry_views(plan.functions@), island@),
{
    let ghost functions = order::entry_views(plan.functions@);
    let ghost all = syntax::views(children@);
    let mut callees: Vec<(FunctionId, &StaticCallee)> = Vec::new();
    assert(order::entry_views(callees@) =~= Seq::empty());
    let mut n: usize = 0;
    while n < children.len()
        invariant
            n <= children@.len(),
            functions == order::entry_views(plan.functions@),
            all == syntax::views(children@),
            order::entry_views(callees@) == required_callees(functions, island@, all, n as int),
        decreases children@.len() - n,
    {
        let child = children[n];
        assert(all[n as int] == child@);
        if let CChildTarget::Static(callee) = &child.target {
            proof {
                order::lookup_views(callees@, callee.function);
                order::put_views(callees@, callee.function, callee);
            }
            if island_needs(plan, island, callee.function) && find_value(
                &callees,
                callee.function,
            ).is_none() {
                put_value(&mut callees, callee.function, callee);
            }
        }
        n += 1;
    }
    let ghost listed = order::entry_views(callees@);
    let mut out = String::new();
    assert(out@ =~= Seq::empty());
    let mut n: usize = 0;
    while n < callees.len()
        invariant
            n <= callees@.len(),
            listed == order::entry_views(callees@),
            all == syntax::views(children@),
            out@ == callees_text(Seq::empty(), listed, all, n as int),
        decreases callees@.len() - n,
    {
        let callee = callees[n].1;
        assert(listed[n as int].1 == callee@);
        let stem = callee.stem.as_str();
        let internal = matches!(callee.linkage, AsyncLinkageKey::Internal { .. });
        let parameters = typed_parameter_declarations(callee);
        write_prototypes(
            &mut out,
            stem,
            callee.task_type.as_str(),
            trim(callee.result_type.as_str()),
            parameters.as_str(),
            internal,
            callee.layout_visibility == LayoutVisibility::Visible,
            !internal || is_heap_stem(children, stem),
            !internal || is_accessor_stem(children, stem),
        );
        n += 1;
    }
    out
}

/// The first asynchronous function that starts at `start`, from `i` on.
pub open spec fn async_at(functions: Seq<LivenessFunction>, start: usize, i: int) -> Option<int>
    decreases functions.len() - i,
{
    if i < 0 || i >= functions.len() {
        None
    } else if functions[i].coroutine.cfg.is_async
        && functions[i].coroutine.cfg.span.start_byte == start {
        Some(i)
    } else {
        async_at(functions, start, i + 1)
    }
}

fn find_async(functions: &Vec<LivenessFunction>, start: usize) -> (r: Option<usize>)
    ensures
        match r {
            Some(i) => async_at(functions@, start, 0) == Some(i as int) && i < functions@.len()
                && functions@[i as int].coroutine.cfg.is_async
                && functions@[i as int].coroutine.cfg.span.start_byte == start,
            None => async_at(functions@, start, 0) is None,
        },
{
    let mut i: usize = 0;
    while i < functions.len()
        invariant
            i <= functions@.len(),
            async_at(functions@, start, 0) == async_at(functions@, start, i as int),
        decreases functions@.len() - i,
    {
        if functions[i].coroutine.cfg.is_async && functions[i].coroutine.cfg.span.start_byte
            == start {
            return Some(i);
        }
        i += 1;
    }
    None
}

/// The task type of a function.
pub open spec fn task_type_text(
    out: Seq<char>,
    function: LivenessFunction,
    layouts: Seq<(usize, LayoutView)>,
) -> Seq<char> {
    c_task::layout_text(
        out,
        function.coroutine.task_type@,
        (order::lookup(layouts, function.coroutine.cfg.span.start_byte)->0).slots,
    )
}

/// The first `n` task types of an island.
pub open spec fn island_layouts(
    out: Seq<char>,
    functions: Seq<(FunctionId, FunctionPlanView)>,
    unit: Seq<LivenessFunction>,
    layouts: Seq<(usize, LayoutView)>,
    island: IslandView,
    n: int,
) -> Seq<char>
    decreases n,
{
    if n <= 0 {
        out
    } else {
        let before = island_layouts(out, functions, unit, layouts, island, n - 1);
        match order::lookup(functions, island.layouts[n - 1]) {
            Some(plan) => match async_at(unit, plan.source_start, 0) {
                Some(i) => task_type_text(before, unit[i], layouts),
                None => before,
            },
            None => before,
        }
    }
}

/// The declarations and task types of an island.
pub open spec fn island_text(
    functions: Seq<(FunctionId, FunctionPlanView)>,
    unit: Seq<LivenessFunction>,
    layouts: Seq<(usize, LayoutView)>,
    island: IslandView,
) -> Seq<char> {
    island_layouts(
        prototypes_of(functions, island),
        functions,
        unit,
        layouts,
        island,
        island.layouts.len() as int,
    )
}

/// Insertions after one more at a position.
pub open spec fn with_insertion(
    insertions: Seq<(usize, Seq<char>)>,
    at: usize,
    added: Seq<char>,
) -> Seq<(usize, Seq<char>)> {
    order::put(
        insertions,
        at,
        match order::lookup(insertions, at) {
            Some(before) => before + added,
            None => added,
        },
    )
}

/// The insertions for the first `n` islands.
pub open spec fn island_insertions(
    functions: Seq<(FunctionId, FunctionPlanView)>,
    unit: Seq<LivenessFunction>,
    layouts: Seq<(usize, LayoutView)>,
    islands: Seq<IslandView>,
    n: int,
) -> Seq<(usize, Seq<char>)>
    decreases n,
{
    if n <= 0 {
        Seq::empty()
    } else {
        with_insertion(
            island_insertions(functions, unit, layouts, islands, n - 1),
            islands[n - 1].anchor,
            island_text(functions, unit, layouts, islands[n - 1]),
        )
    }
}

/// The insertions before the asynchronous functions among the first `n`.
pub open spec fn plain_insertions(
    unit: Seq<LivenessFunction>,
    layouts: Seq<(usize, LayoutView)>,
    n: int,
) -> Seq<(usize, Seq<char>)>
    decreases n,
{
    if n <= 0 {
        Seq::empty()
    } else {
        let before = plain_insertions(unit, layouts, n - 1);
        if unit[n - 1].coroutine.cfg.is_async {
            with_insertion(
                before,
                unit[n - 1].coroutine.cfg.span.start_byte,
                task_type_text(Seq::empty(), unit[n - 1], layouts),
            )
        } else {
            before
        }
    }
}

/// What is inserted before functions.
pub open spec fn insertions_of(
    plan: Option<&CStaticAwaitPlan>,
    unit: Seq<LivenessFunction>,
    layouts: Seq<(usize, LayoutView)>,
) -> Seq<(usize, Seq<char>)> {
    match plan {
        Some(own) => island_insertions(
            order::entry_views(own.functions@),
            unit,
            layouts,
            syntax::views(own.layout_islands@),
            own.layout_islands@.len() as int,
        ),
        None => plain_insertions(unit, layouts, unit.len() as int),
    }
}

/// Whether every asynchronous function has a layout whose slots have members.
pub open spec fn layouts_there(
    unit: Seq<LivenessFunction>,
    layouts: Seq<(usize, LayoutView)>,
) -> bool {
    forall|i: int|
        #![trigger unit[i]]
        0 <= i < unit.len() && unit[i].coroutine.cfg.is_async ==> match order::lookup(
            layouts,
            unit[i].coroutine.cfg.span.start_byte,
        ) {
            Some(layout) => c_task::direct_filled(layout.slots),
            None => false,
        }
}

fn write_task_type(
    out: &mut String,
    function: &LivenessFunction,
    layouts: &Vec<(usize, FunctionContextLayout)>,
)
    requires
        match order::lookup(
            order::entry_views(layouts@),
            function.coroutine.cfg.span.start_byte,
        ) {
            Some(layout) => c_task::direct_filled(layout.slots),
            None => false,
        },
    ensures
        final(out)@ == task_type_text(old(out)@, *function, order::entry_views(layouts@)),
{
    proof {
        order::lookup_views(layouts@, function.coroutine.cfg.span.start_byte);
    }
    if let Some(layout) = find_value(layouts, function.coroutine.cfg.span.start_byte) {
        write_async_layout(out, function.coroutine.task_type.as_str(), &layout.slots);
    }
}

fn insert_text(insertions: &mut Vec<(usize, String)>, at: usize, added: &str)
    ensures
        order::entry_views(final(insertions)@) == with_insertion(
            order::entry_views(old(insertions)@),
            at,
            added@,
        ),
{
    proof {
        order::lookup_views(insertions@, at);
    }
    let value = match find_value(insertions, at) {
        Some(before) => concat2(before.as_str(), added),
        None => copied(added),
    };
    proof {
        order::put_views(insertions@, at, value);
    }
    put_value(insertions, at, value);
}

fn emit_island(
    plan: &CStaticAwaitPlan,
    island: &LayoutIsland,
    children: &Vec<&CChildPlan>,
    unit: &LivenessUnit,
    layouts: &Vec<(usize, FunctionContextLayout)>,
) -> (r: String)
    requires
        syntax::views(children@) == plan_children(Some(plan)),
        layouts_there(unit.functions@, order::entry_views(layouts@)),
    ensures
        r@ == island_text(
            order::entry_views(plan.functions@),
            unit.functions@,
            order::entry_views(layouts@),
            island@,
        ),
{
    let ghost functions = order::entry_views(plan.functions@);
    let ghost views = order::entry_views(layouts@);
    let mut out = emit_required_static_prototypes(plan, island, children);
    let ghost start = out@;
    let mut n: usize = 0;
    while n < island.layouts.len()
        invariant
            n <= island.layouts@.len(),
            functions == order::entry_views(plan.functions@),
            views == order::entry_views(layouts@),
            layouts_there(unit.functions@, views),
            out@ == island_layouts(
                start,
                functions,
                unit.functions@,
                views,
                island@,
                n as int,
            ),
        decreases island.layouts@.len() - n,
    {
        proof {
            order::lookup_views(plan.functions@, island.layouts@[n as int]);
        }
        if let Some(own) = find_value(&plan.functions, island.layouts[n]) {
            if let Some(i) = find_async(&unit.functions, own.source_start) {
                assert(unit.functions@[i as int].coroutine.cfg.is_async);
                write_task_type(&mut out, &unit.functions[i], layouts);
            }
        }
        n += 1;
    }
    out
}

fn collect_insertions(
    plan: Option<&CStaticAwaitPlan>,
    children: &Vec<&CChildPlan>,
    unit: &LivenessUnit,
    layouts: &Vec<(usize, FunctionContextLayout)>,
) -> (r: Vec<(usize, String)>)
    requires
        syntax::views(children@) == plan_children(plan),
        layouts_there(unit.functions@, order::entry_views(layouts@)),
    ensures
        order::entry_views(r@) == insertions_of(
            plan,
            unit.functions@,
            order::entry_views(layouts@),
        ),
{
    let ghost views = order::entry_views(layouts@);
    let mut insertions: Vec<(usize, String)> = Vec::new();
    assert(order::entry_views(insertions@) =~= Seq::empty());
    match plan {
        Some(own) => {
            let ghost functions = order::entry_views(own.functions@);
            let ghost islands = syntax::views(own.layout_islands@);
            let mut n: usize = 0;
            while n < own.layout_islands.len()
                invariant
                    plan == Some(own),
                    n <= own.layout_islands@.len(),
                    functions == order::entry_views(own.functions@),
                    islands == syntax::views(own.layout_islands@),
                    views == order::entry_views(layouts@),
                    syntax::views(children@) == plan_children(plan),
                    layouts_there(unit.functions@, views),
                    order::entry_views(insertions@) == island_insertions(
                        functions,
                        unit.functions@,
                        views,
                        islands,
                        n as int,
                    ),
                decreases own.layout_islands@.len() - n,
            {
                let island = &own.layout_islands[n];
                assert(islands[n as int] == island@);
                let layout = emit_island(own, island, children, unit, layouts);
                insert_text(&mut insertions, island.anchor, layout.as_str());
                n += 1;
            }
        },
        None => {
            let mut n: usize = 0;
            while n < unit.functions.len()
                invariant
                    n <= unit.functions@.len(),
                    views == order::entry_views(layouts@),
                    layouts_there(unit.functions@, views),
                    order::entry_views(insertions@) == plain_insertions(
                        unit.functions@,
                        views,
                        n as int,
                    ),
                decreases unit.functions@.len() - n,
            {
                let function = &unit.functions[n];
                assert(unit.functions@[n as int] == *function);
                if function.coroutine.cfg.is_async {
                    let mut layout = String::new();
                    assert(layout@ =~= Seq::empty());
                    write_task_type(&mut layout, function, layouts);
                    insert_text(
                        &mut insertions,
                        function.coroutine.cfg.span.start_byte,
                        layout.as_str(),
                    );
                }
                n += 1;
            }
        },
    }
    insertions
}

/// What stands for a function in the generated source.
pub struct ReplacementView {
    pub start: usize,
    pub end: usize,
    pub body: Seq<char>,
}

/// What stands for a function in the generated source.
#[derive(Debug)]
pub struct Replacement {
    pub start: usize,
    pub end: usize,
    pub body: String,
}

impl View for Replacement {
    type V = ReplacementView;

    open spec fn view(&self) -> ReplacementView {
        ReplacementView { start: self.start, end: self.end, body: self.body@ }
    }
}

/// Whether a function before number `n` starts at `start`.
pub open spec fn starts_before(unit: Seq<LivenessFunction>, start: usize, n: int) -> bool {
    exists|i: int|
        0 <= i < n && (#[trigger] unit[i]).coroutine.cfg.span.start_byte == start
}

/// What is inserted before function `n`: each insertion once.
pub open spec fn inserted_before(
    unit: Seq<LivenessFunction>,
    insertions: Seq<(usize, Seq<char>)>,
    n: int,
) -> Seq<char> {
    let start = unit[n].coroutine.cfg.span.start_byte;
    if starts_before(unit, start, n) {
        Seq::empty()
    } else {
        match order::lookup(insertions, start) {
            Some(added) => added,
            None => Seq::empty(),
        }
    }
}

/// Everything that the C code of a unit is made from.
pub struct Source<'a> {
    pub original: Seq<char>,
    pub unit: Seq<LivenessFunction>,
    pub plan: Option<&'a CStaticAwaitPlan>,
    pub layouts: Seq<(usize, LayoutView)>,
    pub config: CEmitterConfig,
}

/// The C code of function `n` and the errors after it.
pub open spec fn function_text(
    source: Source<'_>,
    problems: Seq<DiagnosticView>,
    n: int,
) -> c_instruction::Emitted {
    let function = source.unit[n];
    let start = function.coroutine.cfg.span.start_byte;
    let plan = plan_for(source.plan, start);
    let children = plan_children(source.plan);
    if function.coroutine.cfg.is_async {
        c_task::async_text(
            problems,
            c_task::async_view(
                function,
                plan,
                order::lookup(source.layouts, start)->0,
                children,
                source.config,
            ),
            source.config.backend,
        )
    } else {
        c_task::sync_text(
            problems,
            c_task::sync_view(function, plan, children, source.config),
            source.original,
        )
    }
}

/// Whether everything that the C code of function `n` refers to is there.
pub open spec fn function_emittable(source: Source<'_>, n: int) -> bool {
    let function = source.unit[n];
    let start = function.coroutine.cfg.span.start_byte;
    let plan = plan_for(source.plan, start);
    let children = plan_children(source.plan);
    if function.coroutine.cfg.is_async {
        match order::lookup(source.layouts, start) {
            Some(layout) => c_task::direct_filled(layout.slots) && c_task::async_ready(
                c_task::async_view(function, plan, layout, children, source.config),
            ),
            None => false,
        }
    } else {
        c_task::sync_ready(
            c_task::sync_view(function, plan, children, source.config),
            source.original,
        )
    }
}

/// A text in which every header name that ends in `.hr` before a quote or a
/// bracket is that of the generated header.
pub open spec fn with_generated_names(s: Seq<char>) -> Seq<char> {
    text::replaced(text::replaced(s, ".hr\""@, ".h\""@), ".hr>"@, ".h>"@)
}

/// Replacements and errors that were collected so far.
pub struct Replaced {
    pub list: Seq<ReplacementView>,
    pub problems: Seq<DiagnosticView>,
}

/// The replacements of the first `n` functions. All their text names generated
/// headers.
pub open spec fn replacements_of(
    source: Source<'_>,
    problems: Seq<DiagnosticView>,
    n: int,
) -> Replaced
    decreases n,
{
    if n <= 0 {
        Replaced { list: Seq::empty(), problems }
    } else {
        let before = replacements_of(source, problems, n - 1);
        let insertions = insertions_of(source.plan, source.unit, source.layouts);
        let emitted = function_text(source, before.problems, n - 1);
        let span = source.unit[n - 1].coroutine.cfg.span;
        Replaced {
            list: before.list.push(
                ReplacementView {
                    start: span.start_byte,
                    end: span.end_byte,
                    body: with_generated_names(
                        inserted_before(source.unit, insertions, n - 1) + emitted.out,
                    ),
                },
            ),
            problems: emitted.problems,
        }
    }
}

/// The order of replacements in the source.
pub open spec fn replacement_keys(list: Seq<ReplacementView>) -> Seq<Seq<u64>> {
    Seq::new(list.len(), |i: int| seq![list[i].start as u64])
}

/// Generated source and the byte of the original that comes next.
pub struct Splicing {
    pub out: Seq<char>,
    pub cursor: int,
}

/// Whether a replacement overlaps what was replaced before, or the end.
pub open spec fn left_out(
    original: Seq<char>,
    splicing: Splicing,
    replacement: ReplacementView,
) -> bool {
    replacement.start < splicing.cursor || replacement.end > text::byte_len(original)
}

/// The source after the first `n` replacements.
pub open spec fn spliced(
    out: Seq<char>,
    original: Seq<char>,
    list: Seq<ReplacementView>,
    n: int,
) -> Splicing
    decreases n,
{
    if n <= 0 {
        Splicing { out, cursor: 0 }
    } else {
        let before = spliced(out, original, list, n - 1);
        let replacement = list[n - 1];
        if left_out(original, before, replacement) {
            before
        } else {
            Splicing {
                out: before.out + text::byte_slice(
                    original,
                    before.cursor,
                    replacement.start as int,
                ) + replacement.body,
                cursor: replacement.end as int,
            }
        }
    }
}

/// Whether replacements start and end between characters.
pub open spec fn splice_ready(
    out: Seq<char>,
    original: Seq<char>,
    list: Seq<ReplacementView>,
) -> bool {
    forall|n: int|
        0 <= n < list.len() && !left_out(
            original,
            spliced(out, original, list, n),
            #[trigger] list[n],
        ) ==> text::is_boundary(original, list[n].start as int) && text::is_boundary(
            original,
            list[n].end as int,
        )
}

/// The start of the generated source.
pub open spec fn source_head(original: Seq<char>, replaced: bool) -> Seq<char> {
    if replaced && !text::occurs(original, "cr_runtime.h"@) {
        "#include \"cr_runtime.h\"\n\n"@
    } else {
        Seq::empty()
    }
}

/// The first position from `i` on that holds no blank.
pub open spec fn after_blanks(line: Seq<char>, i: int) -> int
    decreases line.len() - i,
{
    if 0 <= i < line.len() && (line[i] == ' ' || line[i] == '\t') {
        after_blanks(line, i + 1)
    } else {
        i
    }
}

/// Whether a line is a directive that includes a header.
pub open spec fn includes_header(line: Seq<char>) -> bool {
    let mark = after_blanks(line, 0);
    0 <= mark < line.len() && line[mark] == '#' && text::occurs_at(
        line,
        "include"@,
        after_blanks(line, mark + 1),
    )
}

/// A line of generated source: a directive that includes a header names the
/// generated one, and every other line is as it was.
pub open spec fn with_header(line: Seq<char>) -> Seq<char> {
    if includes_header(line) {
        with_generated_names(line)
    } else {
        line
    }
}

/// The generated source, line by line, with the names of generated headers in
/// the directives that include them.
pub open spec fn with_headers(out: Seq<char>) -> Seq<char>
    decreases out.len(),
{
    let end = text::line_end(out, 0);
    if 0 <= end < out.len() {
        with_header(out.take(end)) + seq!['\n'] + with_headers(out.skip(end + 1))
    } else {
        with_header(out)
    }
}

fn skip_blanks(line: &Vec<char>, start: usize) -> (r: usize)
    requires
        start <= line@.len(),
    ensures
        r == after_blanks(line@, start as int),
        start <= r <= line@.len(),
{
    let mut i: usize = start;
    while i < line.len() && (line[i] == ' ' || line[i] == '\t')
        invariant
            start <= i <= line@.len(),
            after_blanks(line@, start as int) == after_blanks(line@, i as int),
        decreases line@.len() - i,
    {
        i += 1;
    }
    i
}

fn is_include(line: &str) -> (r: bool)
    ensures
        r == includes_header(line@),
{
    let chars = chars_of(line);
    let mark = skip_blanks(&chars, 0);
    if mark >= chars.len() || chars[mark] != '#' {
        return false;
    }
    let word = skip_blanks(&chars, mark + 1);
    match_at(&chars, &chars_of("include"), word)
}

/// Names generated headers wherever a text names headers.
fn rename_all(source: &str) -> (r: String)
    ensures
        r@ == with_generated_names(source@),
{
    proof {
        reveal_strlit(".hr\"");
        reveal_strlit(".hr>");
    }
    let quoted = replace_all(source, ".hr\"", ".h\"");
    replace_all(quoted.as_str(), ".hr>", ".h>")
}

/// Names the generated header where a line includes one.
fn rename_header(line: &str) -> (r: String)
    ensures
        r@ == with_header(line@),
{
    if is_include(line) {
        rename_all(line)
    } else {
        copied(line)
    }
}

/// Names generated headers in the directives that include them.
fn rename_headers(source: &str) -> (r: String)
    ensures
        r@ == with_headers(source@),
{
    let v = chars_of(source);
    let mut out = String::new();
    let mut start: usize = 0;
    assert(out@ + with_headers(v@.skip(0)) =~= with_headers(v@)) by {
        assert(v@.skip(0) =~= v@);
    }
    loop
        invariant_except_break
            start <= v@.len(),
            out@ + with_headers(v@.skip(start as int)) == with_headers(v@),
        ensures
            out@ == with_headers(v@),
        decreases v@.len() - start,
    {
        let ghost rest = v@.skip(start as int);
        let mut end: usize = start;
        while end < v.len() && v[end] != '\n'
            invariant
                start <= end <= v@.len(),
                rest == v@.skip(start as int),
                text::line_end(rest, 0) == text::line_end(rest, end - start),
            decreases v@.len() - end,
        {
            end += 1;
        }
        let line = string_of(&v, start, end);
        assert(line@ =~= rest.take(end - start));
        let renamed = rename_header(line.as_str());
        put(&mut out, renamed.as_str());
        if end == v.len() {
            assert(rest.take(end - start) =~= rest);
            break;
        }
        put(&mut out, "\n");
        proof {
            reveal_strlit("\n");
            assert("\n"@ =~= seq!['\n']);
            assert(rest.skip(end - start + 1) =~= v@.skip(end + 1));
        }
        start = end + 1;
        assert(out@ + with_headers(v@.skip(start as int)) =~= with_headers(v@));
    }
    out
}

/// The replacements in the order of the source.
pub open spec fn ordered_replacements(list: Seq<ReplacementView>) -> Seq<ReplacementView> {
    order::sorted_by(list, replacement_keys(list))
}

/// The C code of a unit.
pub open spec fn unit_text(source: Source<'_>, list: Seq<ReplacementView>) -> Seq<char> {
    let ordered = ordered_replacements(list);
    let end = spliced(
        source_head(source.original, list.len() > 0),
        source.original,
        ordered,
        ordered.len() as int,
    );
    with_headers(
        end.out + source.original.skip(text::chars_before(source.original, end.cursor)),
    )
}

/// Whether a list of diagnostics holds an error.
pub open spec fn holds_error(list: Seq<DiagnosticView>) -> bool {
    exists|i: int|
        0 <= i < list.len() && (#[trigger] list[i]).severity == DiagnosticSeverity::Error
}

/// What an emission consists of.
pub open spec fn emission_of(
    source: Source<'_>,
    unit: LivenessUnit,
    layout_diagnostics: Seq<DiagnosticView>,
) -> EmissionView {
    if holds_error(layout_diagnostics) {
        EmissionView {
            source: Seq::empty(),
            diagnostics: syntax::views(unit.diagnostics@) + layout_diagnostics,
        }
    } else {
        let replaced = replacements_of(
            source,
            syntax::views(unit.diagnostics@),
            source.unit.len() as int,
        );
        EmissionView {
            source: unit_text(source, replaced.list),
            diagnostics: replaced.problems,
        }
    }
}

/// Whether everything that the C code of a unit refers to is there.
pub open spec fn unit_emittable(source: Source<'_>, unit: LivenessUnit) -> bool {
    let replaced = replacements_of(
        source,
        syntax::views(unit.diagnostics@),
        source.unit.len() as int,
    );
    &&& forall|i: int|
        #![trigger source.unit[i]]
        0 <= i < source.unit.len() ==> function_emittable(source, i)
    &&& splice_ready(
        source_head(source.original, replaced.list.len() > 0),
        source.original,
        ordered_replacements(replaced.list),
    )
}

fn has_error(list: &Vec<Diagnostic>) -> (r: bool)
    ensures
        r == holds_error(syntax::views(list@)),
{
    let ghost views = syntax::views(list@);
    let mut i: usize = 0;
    while i < list.len()
        invariant
            i <= list@.len(),
            views == syntax::views(list@),
            forall|k: int|
                0 <= k < i ==> (#[trigger] views[k]).severity != DiagnosticSeverity::Error,
        decreases list@.len() - i,
    {
        assert(views[i as int] == list@[i as int]@);
        if list[i].severity == DiagnosticSeverity::Error {
            return true;
        }
        i += 1;
    }
    false
}

fn append_diagnostics(list: &mut Vec<Diagnostic>, added: Vec<Diagnostic>)
    ensures
        syntax::views(final(list)@) == syntax::views(old(list)@) + syntax::views(added@),
{
    let mut rest = added;
    proof {
        syntax::views_add(list@, rest@);
    }
    list.append(&mut rest);
}

fn emit_function(
    problems: &mut Vec<Diagnostic>,
    original: &Vec<char>,
    unit: &LivenessUnit,
    n: usize,
    plan: Option<&CStaticAwaitPlan>,
    children: &Vec<&CChildPlan>,
    layouts: &Vec<(usize, FunctionContextLayout)>,
    config: &CEmitterConfig,
    Ghost(source): Ghost<Source<'_>>,
) -> (r: String)
    requires
        n < unit.functions@.len(),
        source.original == original@,
        source.unit == unit.functions@,
        source.plan == plan,
        source.layouts == order::entry_views(layouts@),
        source.config == *config,
        syntax::views(children@) == plan_children(plan),
        function_emittable(source, n as int),
    ensures
        c_instruction::emitted_of(r, *final(problems)) == function_text(
            source,
            syntax::views(old(problems)@),
            n as int,
        ),
{
    let function = &unit.functions[n];
    let start = function.coroutine.cfg.span.start_byte;
    let own = find_plan_for(plan, start);
    if function.coroutine.cfg.is_async {
        proof {
            order::lookup_views(layouts@, start);
        }
        if let Some(layout) = find_value(layouts, start) {
            return emit_async_function(problems, function, own, layout, children, config);
        }
    } else {
        return emit_sync_function(problems, original, function, own, children, config);
    }
    String::new()
}

fn is_first_start(unit: &LivenessUnit, n: usize) -> (r: bool)
    requires
        n < unit.functions@.len(),
    ensures
        r == !starts_before(
            unit.functions@,
            unit.functions@[n as int].coroutine.cfg.span.start_byte,
            n as int,
        ),
{
    let start = unit.functions[n].coroutine.cfg.span.start_byte;
    let mut i: usize = 0;
    while i < n
        invariant
            i <= n < unit.functions@.len(),
            start == unit.functions@[n as int].coroutine.cfg.span.start_byte,
            forall|k: int|
                0 <= k < i ==> (#[trigger] unit.functions@[k]).coroutine.cfg.span.start_byte
                    != start,
        decreases n - i,
    {
        if unit.functions[i].coroutine.cfg.span.start_byte == start {
            return false;
        }
        i += 1;
    }
    true
}

fn collect_replacements(
    problems: &mut Vec<Diagnostic>,
    original: &Vec<char>,
    unit: &LivenessUnit,
    plan: Option<&CStaticAwaitPlan>,
    layouts: &Vec<(usize, FunctionContextLayout)>,
    config: &CEmitterConfig,
    Ghost(source): Ghost<Source<'_>>,
) -> (r: Vec<Replacement>)
    requires
        source.original == original@,
        source.unit == unit.functions@,
        source.plan == plan,
        source.layouts == order::entry_views(layouts@),
        source.config == *config,
        forall|i: int|
            #![trigger source.unit[i]]
            0 <= i < source.unit.len() ==> function_emittable(source, i),
    ensures
        (Replaced { list: syntax::views(r@), problems: syntax::views(final(problems)@) })
            == replacements_of(
            source,
            syntax::views(old(problems)@),
            unit.functions@.len() as int,
        ),
{
    let ghost start = syntax::views(problems@);
    let children = collect_children(plan);
    assert(layouts_there(unit.functions@, source.layouts)) by {
        assert forall|i: int|
            #![trigger unit.functions@[i]]
            0 <= i < unit.functions@.len() && unit.functions@[i].coroutine.cfg.is_async implies (
        match order::lookup(source.layouts, unit.functions@[i].coroutine.cfg.span.start_byte) {
            Some(layout) => c_task::direct_filled(layout.slots),
            None => false,
        }) by {
            assert(source.unit[i] == unit.functions@[i]);
            assert(function_emittable(source, i));
        }
    }
    let insertions = collect_insertions(plan, &children, unit, layouts);
    let ghost inserted = order::entry_views(insertions@);
    let mut list: Vec<Replacement> = Vec::new();
    assert(syntax::views(list@) =~= Seq::empty());
    let mut n: usize = 0;
    while n < unit.functions.len()
        invariant
            n <= unit.functions@.len(),
            source.original == original@,
            source.unit == unit.functions@,
            source.plan == plan,
            source.layouts == order::entry_views(layouts@),
            source.config == *config,
            forall|i: int|
                #![trigger source.unit[i]]
                0 <= i < source.unit.len() ==> function_emittable(source, i),
            syntax::views(children@) == plan_children(plan),
            inserted == order::entry_views(insertions@),
            inserted == insertions_of(source.plan, source.unit, source.layouts),
            (Replaced { list: syntax::views(list@), problems: syntax::views(problems@) })
                == replacements_of(source, start, n as int),
        decreases unit.functions@.len() - n,
    {
        assert(source.unit[n as int] == unit.functions@[n as int]);
        let span = &unit.functions[n].coroutine.cfg.span;
        let code = emit_function(
            problems,
            original,
            unit,
            n,
            plan,
            &children,
            layouts,
            config,
            Ghost(source),
        );
        proof {
            order::lookup_views(insertions@, span.start_byte);
        }
        let mut body = String::new();
        assert(body@ =~= Seq::empty());
        if is_first_start(unit, n) {
            if let Some(added) = find_value(&insertions, span.start_byte) {
                body = copied(added.as_str());
            }
        }
        assert(body@ == inserted_before(source.unit, inserted, n as int));
        put(&mut body, code.as_str());
        let renamed = rename_all(body.as_str());
        let replacement = Replacement {
            start: span.start_byte,
            end: span.end_byte,
            body: renamed,
        };
        proof {
            syntax::views_push(list@, replacement);
        }
        list.push(replacement);
        n += 1;
    }
    list
}

fn splice(original: &Vec<char>, list: &Vec<Replacement>, source: &str) -> (r: String)
    requires
        source@ == original@,
        splice_ready(
            source_head(original@, list@.len() > 0),
            original@,
            ordered_replacements(syntax::views(list@)),
        ),
    ensures
        r@ == ({
            let ordered = ordered_replacements(syntax::views(list@));
            let end = spliced(
                source_head(original@, list@.len() > 0),
                original@,
                ordered,
                ordered.len() as int,
            );
            end.out + original@.skip(text::chars_before(original@, end.cursor))
        }),
{
    let ghost views = syntax::views(list@);
    let ghost ordered = ordered_replacements(views);
    let mut keys: Vec<Vec<u64>> = Vec::new();
    let mut i: usize = 0;
    while i < list.len()
        invariant
            i <= list@.len(),
            views == syntax::views(list@),
            syntax::views(keys@) =~= replacement_keys(views).take(i as int),
        decreases list@.len() - i,
    {
        let key: Vec<u64> = vec![list[i].start as u64];
        assert(key@ =~= seq![views[i as int].start as u64]);
        proof {
            syntax::views_push(keys@, key);
        }
        keys.push(key);
        i += 1;
    }
    assert(syntax::views(keys@) =~= replacement_keys(views));
    let places = sort_order(&keys);
    let mut out = String::new();
    assert(out@ =~= Seq::empty());
    if list.len() > 0 && !contains(source, "cr_runtime.h") {
        put(&mut out, "#include \"cr_runtime.h\"\n\n");
        assert(out@ =~= "#include \"cr_runtime.h\"\n\n"@);
    }
    let ghost head = out@;
    let total = text::count_all_bytes(original);
    let mut cursor: usize = 0;
    let mut n: usize = 0;
    while n < places.len()
        invariant
            n <= places@.len(),
            views == syntax::views(list@),
            ordered == order::arranged(views, order::positions(places@)),
            forall|k: int| 0 <= k < places@.len() ==> 0 <= #[trigger] places@[k] < list@.len(),
            total == text::byte_len(original@),
            (Splicing { out: out@, cursor: cursor as int }) == spliced(
                head,
                original@,
                ordered,
                n as int,
            ),
        decreases places@.len() - n,
    {
        let replacement = &list[places[n]];
        assert(ordered[n as int] == replacement@);
        if !(replacement.start < cursor || replacement.end as u128 > total) {
            let piece = slice_bytes(original, cursor, replacement.start);
            put2(&mut out, piece.as_str(), replacement.body.as_str());
            cursor = replacement.end;
        }
        n += 1;
    }
    let first = text::char_index(original, cursor);
    let rest = string_of(original, first, original.len());
    assert(rest@ =~= original@.skip(text::chars_before(original@, cursor as int)));
    put(&mut out, rest.as_str());
    out
}

/// Replaces transformed functions while preserving unaffected source bytes.
/// Directives that include a header to be generated name the generated one, and
/// so does all text that stands for a transformed function.
#[must_use]
pub fn emit_translation_unit(
    original: &str,
    unit: &LivenessUnit,
    static_plan: Option<&CStaticAwaitPlan>,
    slot_liveness: &SlotLivenessUnit,
    layout_plan: &ContextLayoutPlan,
    config: &CEmitterConfig,
) -> (r: CEmission)
    requires
        identity_layout::contexts_distinct(unit.functions@, static_plan, *slot_liveness),
        layout_check::layouts_belong(
            unit.functions@,
            *slot_liveness,
            order::entry_views(layout_plan.functions@),
        ),
        holds_error(
            syntax::views(layout_plan.diagnostics@) + layout_check::layout_problems(
                *unit,
                static_plan,
                *slot_liveness,
                order::entry_views(layout_plan.functions@),
            ),
        ) || unit_emittable(
            Source {
                original: original@,
                unit: unit.functions@,
                plan: static_plan,
                layouts: order::entry_views(layout_plan.functions@),
                config: *config,
            },
            *unit,
        ),
    ensures
        r@ == emission_of(
            Source {
                original: original@,
                unit: unit.functions@,
                plan: static_plan,
                layouts: order::entry_views(layout_plan.functions@),
                config: *config,
            },
            *unit,
            syntax::views(layout_plan.diagnostics@) + layout_check::layout_problems(
                *unit,
                static_plan,
                *slot_liveness,
                order::entry_views(layout_plan.functions@),
            ),
        ),
{
    let ghost source = Source {
        original: original@,
        unit: unit.functions@,
        plan: static_plan,
        layouts: order::entry_views(layout_plan.functions@),
        config: *config,
    };
    let mut layout_diagnostics = clone_diagnostics(&layout_plan.diagnostics);
    let checked = verify_context_layout(unit, static_plan, slot_liveness, layout_plan);
    append_diagnostics(&mut layout_diagnostics, checked);
    let mut diagnostics = clone_diagnostics(&unit.diagnostics);
    if has_error(&layout_diagnostics) {
        append_diagnostics(&mut diagnostics, layout_diagnostics);
        let empty = String::new();
        assert(empty@ =~= Seq::empty());
        return CEmission { source: empty, diagnostics };
    }
    let chars = chars_of(original);
    let list = collect_replacements(
        &mut diagnostics,
        &chars,
        unit,
        static_plan,
        &layout_plan.functions,
        config,
        Ghost(source),
    );
    let output = splice(&chars, &list, original);
    CEmission { source: rename_headers(output.as_str()), diagnostics }
}

} // verus!
