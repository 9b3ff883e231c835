//! Target-specific typed and dynamic child plans for C emission.

use vstd::prelude::*;

use crate::await_plan::{
    AwaitEdge, AwaitStorage, AwaitTarget, ChildInstance, ChildInstanceId, ChildOrigin, ChildSlotId,
    ResultLayout, TypedSlotId, ValueId,
};
use crate::c_declaration_env;
use crate::c_declaration_env::{CDeclarationEnvironment, EnvironmentView};
use crate::c_layout_order;
use crate::c_layout_order::{build_islands, settle_layouts};
use crate::control_flow::AwaitEdgeId;
use crate::liveness::{LivenessFunction, LivenessUnit};
use crate::order;
use crate::order::{add_key, put_value, Key};
use crate::order_laws;
use crate::semantic::AwaitSlotId;
use crate::symbol_index;
use crate::symbol_index::{
    AsyncLinkageKey, AsyncParameter, AsyncSymbol, AsyncSymbolIndex, AsyncSymbolSite,
    AsyncSymbolSiteKind, FunctionId, LayoutVisibility, TranslationUnitId,
};
use crate::syntax;
use crate::syntax::{error_diagnostic, Diagnostic, DiagnosticView, SourceSpan};
use crate::text;
use crate::text::{put2, str_eq, trim};

verus! {

/// One compiler-known asynchronous callee and its typed C surface.
#[derive(Debug, Clone, PartialEq, Eq)]
pub struct StaticCallee {
    pub function: FunctionId,
    pub linkage: AsyncLinkageKey,
    pub stem: String,
    pub task_type: String,
    pub result_type: String,
    pub parameters: Vec<AsyncParameter>,
    pub is_variadic: bool,
    pub definition_unit: Option<TranslationUnitId>,
    pub layout_visibility: LayoutVisibility,
}

/// The target selected before C expression rendering.
#[derive(Debug, Clone, PartialEq, Eq)]
pub enum CChildTarget {
    Static(StaticCallee),
    Dynamic(ValueId),
}

/// The final physical representation used by the C backend.
#[derive(Debug, Clone, Copy, PartialEq, Eq, Structural)]
pub enum CChildStorage {
    Embedded(ChildSlotId),
    Boxed(TypedSlotId),
    Opaque(AwaitSlotId),
}

/// Target-specific evidence for an embedded-to-boxed decision.
#[derive(Debug, Clone, Copy, PartialEq, Eq, Structural)]
pub enum CLayoutReason {
    CompleteTypeNotVisible,
    PrototypeNotVisible,
    PreprocessorRegion,
    TargetPolicy,
}

/// One child instance after target-specific C planning.
#[derive(Debug, Clone, PartialEq, Eq)]
pub struct CChildPlan {
    pub instance: ChildInstanceId,
    pub target: CChildTarget,
    pub requested_storage: AwaitStorage,
    pub effective_storage: CChildStorage,
    pub downgrade_reason: Option<CLayoutReason>,
    pub origin: ChildOrigin,
    pub result: ResultLayout,
    pub span: SourceSpan,
}

/// One function's child records and suspension-edge ownership map, both in
/// ascending order of their keys.
#[derive(Debug, Clone, PartialEq, Eq)]
pub struct CFunctionPlan {
    pub caller: FunctionId,
    pub source_start: usize,
    pub children: Vec<(ChildInstanceId, CChildPlan)>,
    pub edge_children: Vec<(AwaitEdgeId, ChildInstanceId)>,
    pub required_prototypes: Vec<FunctionId>,
}

/// Complete task layouts emitted together at one source anchor.
#[derive(Debug, Clone, PartialEq, Eq)]
pub struct LayoutIsland {
    pub anchor: usize,
    pub layouts: Vec<FunctionId>,
}

/// A validated translation-unit C plan, with its functions in ascending order.
#[derive(Debug, Clone, PartialEq, Eq)]
pub struct CStaticAwaitPlan {
    pub functions: Vec<(FunctionId, CFunctionPlan)>,
    pub layout_islands: Vec<LayoutIsland>,
    pub diagnostics: Vec<Diagnostic>,
}

impl Default for CStaticAwaitPlan {
    fn default() -> (r: Self)
        ensures
            r.functions@ == Seq::<(FunctionId, CFunctionPlan)>::empty(),
            r.layout_islands@ == Seq::<LayoutIsland>::empty(),
            r.diagnostics@ == Seq::<Diagnostic>::empty(),
    {
        CStaticAwaitPlan {
            functions: Vec::new(),
            layout_islands: Vec::new(),
            diagnostics: Vec::new(),
        }
    }
}

impl CStaticAwaitPlan {
    /// Whether functions, their children, edges and prototypes stand in ascending
    /// order of their keys.
    pub open spec fn ordered(&self) -> bool {
        order::ascending(self.functions@) && forall|i: int|
            0 <= i < self.functions@.len() ==> {
                let own = (#[trigger] self.functions@[i]).1;
                &&& order::ascending(own.children@)
                &&& order::ascending(own.edge_children@)
                &&& order::keys_ascending(own.required_prototypes@)
            }
    }
}

/// The contents of a callee.
pub struct CalleeView {
    pub function: FunctionId,
    pub linkage: AsyncLinkageKey,
    pub stem: Seq<char>,
    pub task_type: Seq<char>,
    pub result_type: Seq<char>,
    pub parameters: Seq<AsyncParameter>,
    pub is_variadic: bool,
    pub definition_unit: Option<TranslationUnitId>,
    pub layout_visibility: LayoutVisibility,
}

/// The contents of a target.
pub enum ChildTargetView {
    Static(CalleeView),
    Dynamic(ValueId),
}

/// The contents of a child plan.
pub struct ChildPlanView {
    pub instance: ChildInstanceId,
    pub target: ChildTargetView,
    pub requested_storage: AwaitStorage,
    pub effective_storage: CChildStorage,
    pub downgrade_reason: Option<CLayoutReason>,
    pub origin: ChildOrigin,
    pub result: ResultLayout,
    pub span: SourceSpan,
}

/// The contents of a function plan.
pub struct FunctionPlanView {
    pub caller: FunctionId,
    pub source_start: usize,
    pub children: Seq<(ChildInstanceId, ChildPlanView)>,
    pub edge_children: Seq<(AwaitEdgeId, ChildInstanceId)>,
    pub required_prototypes: Seq<FunctionId>,
}

/// The contents of an island.
pub struct IslandView {
    pub anchor: usize,
    pub layouts: Seq<FunctionId>,
}

impl View for StaticCallee {
    type V = CalleeView;

    open spec fn view(&self) -> CalleeView {
        CalleeView {
            function: self.function,
            linkage: self.linkage,
            stem: self.stem@,
            task_type: self.task_type@,
            result_type: self.result_type@,
            parameters: self.parameters@,
            is_variadic: self.is_variadic,
            definition_unit: self.definition_unit,
            layout_visibility: self.layout_visibility,
        }
    }
}

impl View for CChildTarget {
    type V = ChildTargetView;

    open spec fn view(&self) -> ChildTargetView {
        match self {
            CChildTarget::Static(callee) => ChildTargetView::Static(callee@),
            CChildTarget::Dynamic(value) => ChildTargetView::Dynamic(*value),
        }
    }
}

impl View for CChildPlan {
    type V = ChildPlanView;

    open spec fn view(&self) -> ChildPlanView {
        ChildPlanView {
            instance: self.instance,
            target: self.target@,
            requested_storage: self.requested_storage,
            effective_storage: self.effective_storage,
            downgrade_reason: self.downgrade_reason,
            origin: self.origin,
            result: self.result,
            span: self.span,
        }
    }
}

impl View for CFunctionPlan {
    type V = FunctionPlanView;

    open spec fn view(&self) -> FunctionPlanView {
        FunctionPlanView {
            caller: self.caller,
            source_start: self.source_start,
            children: order::entry_views(self.children@),
            edge_children: self.edge_children@,
            required_prototypes: self.required_prototypes@,
        }
    }
}

impl View for LayoutIsland {
    type V = IslandView;

    open spec fn view(&self) -> IslandView {
        IslandView { anchor: self.anchor, layouts: self.layouts@ }
    }
}

/// The unit of the first definition among the sites from `i` on.
pub open spec fn first_definition(sites: Seq<AsyncSymbolSite>, i: int) -> Option<TranslationUnitId>
    decreases sites.len() - i,
{
    if i < 0 || i >= sites.len() {
        None
    } else if sites[i].kind == AsyncSymbolSiteKind::Definition {
        Some(sites[i].translation_unit)
    } else {
        first_definition(sites, i + 1)
    }
}

fn find_definition(sites: &Vec<AsyncSymbolSite>) -> (r: Option<TranslationUnitId>)
    ensures
        r == first_definition(sites@, 0),
{
    let mut i: usize = 0;
    while i < sites.len()
        invariant
            i <= sites@.len(),
            first_definition(sites@, 0) == first_definition(sites@, i as int),
        decreases sites@.len() - i,
    {
        if sites[i].kind == AsyncSymbolSiteKind::Definition {
            return Some(sites[i].translation_unit.clone());
        }
        i += 1;
    }
    None
}

/// The C surface of a symbol as a unit sees it.
pub open spec fn callee_of(symbol: AsyncSymbol, function: FunctionId, unit: Seq<char>) -> CalleeView {
    CalleeView {
        function,
        linkage: symbol.key,
        stem: symbol.public_stem@,
        task_type: symbol.public_stem@ + "_task"@,
        result_type: symbol.result_type@,
        parameters: symbol.parameters@,
        is_variadic: symbol.is_variadic,
        definition_unit: first_definition(symbol.sites@, 0),
        layout_visibility: symbol_index::visibility_in(symbol.sites@, unit),
    }
}

fn clone_parameters(parameters: &Vec<AsyncParameter>) -> (r: Vec<AsyncParameter>)
    ensures
        r@ == parameters@,
{
    let r = parameters.clone();
    assert(r@ =~= parameters@);
    r
}

fn static_callee(
    symbol: &AsyncSymbol,
    function: FunctionId,
    layout_visibility: LayoutVisibility,
) -> (r: StaticCallee)
    ensures
        forall|unit: Seq<char>|
            layout_visibility == symbol_index::visibility_in(symbol.sites@, unit) ==> r@
                == #[trigger] callee_of(*symbol, function, unit),
{
    let mut task_type = String::new();
    put2(&mut task_type, symbol.public_stem.as_str(), "_task");
    assert(task_type@ =~= symbol.public_stem@ + "_task"@);
    StaticCallee {
        function,
        linkage: symbol.key.clone(),
        stem: symbol.public_stem.clone(),
        task_type,
        result_type: symbol.result_type.clone(),
        parameters: clone_parameters(&symbol.parameters),
        is_variadic: symbol.is_variadic,
        definition_unit: find_definition(&symbol.sites),
        layout_visibility,
    }
}

/// The physical representation that a planned storage asks for.
pub open spec fn storage_in_c(storage: AwaitStorage) -> Option<CChildStorage> {
    match storage {
        AwaitStorage::Embedded(slot) => Some(CChildStorage::Embedded(slot)),
        AwaitStorage::Boxed(slot) => Some(CChildStorage::Boxed(slot)),
        AwaitStorage::Opaque(slot) => Some(CChildStorage::Opaque(slot)),
        AwaitStorage::Unplanned => None,
    }
}

fn effective_storage(storage: AwaitStorage) -> (r: Option<CChildStorage>)
    ensures
        r == storage_in_c(storage),
{
    match storage {
        AwaitStorage::Embedded(slot) => Some(CChildStorage::Embedded(slot)),
        AwaitStorage::Boxed(slot) => Some(CChildStorage::Boxed(slot)),
        AwaitStorage::Opaque(slot) => Some(CChildStorage::Opaque(slot)),
        AwaitStorage::Unplanned => None,
    }
}

/// What is wrong with a combination of target, storage, and origin.
pub open spec fn combination_problem(
    target: ChildTargetView,
    storage: CChildStorage,
    origin: ChildOrigin,
    span: SourceSpan,
) -> Option<DiagnosticView> {
    match (target, storage, origin) {
        (ChildTargetView::Static(callee), CChildStorage::Opaque(slot), _) => Some(
            syntax::error_view(
                "CRC6004"@,
                "static await target can't use opaque C storage"@,
                span,
            ),
        ),
        (ChildTargetView::Static(callee), _, _) => None,
        (
            ChildTargetView::Dynamic(value),
            CChildStorage::Opaque(slot),
            ChildOrigin::Direct(edge),
        ) => None,
        (
            ChildTargetView::Dynamic(value),
            CChildStorage::Opaque(slot),
            ChildOrigin::Binding(declaration),
        ) => Some(
            syntax::error_view("CRC6006"@, "dynamic task bindings aren't supported"@, span),
        ),
        (ChildTargetView::Dynamic(value), _, _) => Some(
            syntax::error_view(
                "CRC6005"@,
                "dynamic await target can't use typed C storage"@,
                span,
            ),
        ),
    }
}

/// Checks that a storage can hold a target of the given origin.
pub fn validate_combination(
    target: &CChildTarget,
    storage: CChildStorage,
    origin: ChildOrigin,
    span: &SourceSpan,
) -> (r: Option<Diagnostic>)
    ensures
        match r {
            Some(diagnostic) => combination_problem(target@, storage, origin, *span) == Some(
                diagnostic@,
            ),
            None => combination_problem(target@, storage, origin, *span) is None,
        },
{
    match (target, storage, origin) {
        (CChildTarget::Static(callee), CChildStorage::Opaque(slot), _) => Some(
            error_diagnostic(
                "CRC6004",
                "static await target can't use opaque C storage",
                span,
            ),
        ),
        (CChildTarget::Static(callee), _, _) => None,
        (
            CChildTarget::Dynamic(value),
            CChildStorage::Opaque(slot),
            ChildOrigin::Direct(edge),
        ) => None,
        (
            CChildTarget::Dynamic(value),
            CChildStorage::Opaque(slot),
            ChildOrigin::Binding(declaration),
        ) => Some(error_diagnostic("CRC6006", "dynamic task bindings aren't supported", span)),
        (CChildTarget::Dynamic(value), _, _) => Some(
            error_diagnostic(
                "CRC6005",
                "dynamic await target can't use typed C storage",
                span,
            ),
        ),
    }
}

/// The target of a child as a unit sees it, if the index knows it.
pub open spec fn child_target(
    child: ChildInstance,
    symbols: AsyncSymbolIndex,
    unit: Seq<char>,
) -> Option<ChildTargetView> {
    match child.target {
        AwaitTarget::Static(callee) => match symbols.symbol_spec(callee) {
            Some(symbol) => Some(ChildTargetView::Static(callee_of(symbol, callee, unit))),
            None => None,
        },
        AwaitTarget::Dynamic(value) => Some(ChildTargetView::Dynamic(value)),
    }
}

/// The plan of a child, or the reason why it has none.
pub open spec fn child_outcome(
    child: ChildInstance,
    symbols: AsyncSymbolIndex,
    unit: Seq<char>,
) -> Result<ChildPlanView, DiagnosticView> {
    match (child_target(child, symbols, unit), storage_in_c(child.storage)) {
        (None, _) => Err(
            syntax::error_view(
                "CRC6002"@,
                "static await target is missing from the C symbol plan"@,
                child.span,
            ),
        ),
        (Some(target), None) => Err(
            syntax::error_view("CRC6003"@, "await child has no C storage strategy"@, child.span),
        ),
        (Some(target), Some(storage)) => match combination_problem(
            target,
            storage,
            child.origin,
            child.span,
        ) {
            Some(problem) => Err(problem),
            None => Ok(
                ChildPlanView {
                    instance: child.id,
                    target,
                    requested_storage: child.storage,
                    effective_storage: storage,
                    downgrade_reason: None,
                    origin: child.origin,
                    result: child.result,
                    span: child.span,
                },
            ),
        },
    }
}

fn plan_child(child: &ChildInstance, symbols: &AsyncSymbolIndex, project_path: &str) -> (r: Result<
    CChildPlan,
    Diagnostic,
>)
    ensures
        match r {
            Ok(plan) => child_outcome(*child, *symbols, project_path@)
                == Ok::<ChildPlanView, DiagnosticView>(plan@),
            Err(diagnostic) => child_outcome(*child, *symbols, project_path@)
                == Err::<ChildPlanView, DiagnosticView>(diagnostic@),
        },
{
    let target = match child.target {
        AwaitTarget::Static(callee) => match symbols.resolve_id(project_path, callee) {
            Some(resolved) => CChildTarget::Static(
                static_callee(resolved.symbol, callee, resolved.layout_visibility),
            ),
            None => {
                return Err(
                    error_diagnostic(
                        "CRC6002",
                        "static await target is missing from the C symbol plan",
                        &child.span,
                    ),
                );
            },
        },
        AwaitTarget::Dynamic(value) => CChildTarget::Dynamic(value),
    };
    assert(child_target(*child, *symbols, project_path@) == Some(target@));
    let storage = match effective_storage(child.storage) {
        Some(storage) => storage,
        None => {
            return Err(
                error_diagnostic(
                    "CRC6003",
                    "await child has no C storage strategy",
                    &child.span,
                ),
            );
        },
    };
    match validate_combination(&target, storage, child.origin, &child.span) {
        Some(diagnostic) => Err(diagnostic),
        None => Ok(
            CChildPlan {
                instance: child.id,
                target,
                requested_storage: child.storage,
                effective_storage: storage,
                downgrade_reason: None,
                origin: child.origin,
                result: child.result.clone(),
                span: child.span.clone(),
            },
        ),
    }
}

/// The plans of the first `n` children of a function that have one.
pub open spec fn child_plans(
    children: Seq<ChildInstance>,
    symbols: AsyncSymbolIndex,
    unit: Seq<char>,
    n: int,
) -> Seq<(ChildInstanceId, ChildPlanView)>
    decreases n,
{
    if n <= 0 {
        Seq::empty()
    } else {
        let before = child_plans(children, symbols, unit, n - 1);
        match child_outcome(children[n - 1], symbols, unit) {
            Ok(plan) => order::put(before, children[n - 1].id, plan),
            Err(problem) => before,
        }
    }
}

/// The problems of the first `n` children of a function, after those found
/// before.
pub open spec fn child_problems(
    found: Seq<DiagnosticView>,
    children: Seq<ChildInstance>,
    symbols: AsyncSymbolIndex,
    unit: Seq<char>,
    n: int,
) -> Seq<DiagnosticView>
    decreases n,
{
    if n <= 0 {
        found
    } else {
        let before = child_problems(found, children, symbols, unit, n - 1);
        match child_outcome(children[n - 1], symbols, unit) {
            Ok(plan) => before,
            Err(problem) => before.push(problem),
        }
    }
}

/// The child that every one of the first `n` edges polls, by edge.
pub open spec fn polled_children(edges: Seq<AwaitEdge>, n: int) -> Seq<
    (AwaitEdgeId, ChildInstanceId),
>
    decreases n,
{
    if n <= 0 {
        Seq::empty()
    } else {
        order::put(polled_children(edges, n - 1), edges[n - 1].id, edges[n - 1].instance)
    }
}

/// The identity of an asynchronous function in its unit.
pub open spec fn identity_of(
    function: LivenessFunction,
    symbols: AsyncSymbolIndex,
    unit: Seq<char>,
) -> Option<FunctionId> {
    match symbols.resolve_spec(unit, function.coroutine.cfg.name@) {
        Some(symbol) => Some(symbol.id),
        None => None,
    }
}

fn find_identity(
    function: &LivenessFunction,
    symbols: &AsyncSymbolIndex,
    project_path: &str,
) -> (r: Option<FunctionId>)
    ensures
        r == identity_of(*function, *symbols, project_path@),
{
    match symbols.resolve(project_path, function.coroutine.cfg.name.as_str()) {
        Some(resolved) => Some(resolved.symbol.id),
        None => None,
    }
}

/// The plan of one function before prototypes and layouts are settled.
pub open spec fn function_plan(
    function: LivenessFunction,
    caller: FunctionId,
    symbols: AsyncSymbolIndex,
    unit: Seq<char>,
) -> FunctionPlanView {
    let plan = function.coroutine.await_plan;
    FunctionPlanView {
        caller,
        source_start: function.coroutine.cfg.span.start_byte,
        children: child_plans(plan.children@, symbols, unit, plan.children@.len() as int),
        edge_children: polled_children(plan.edges@, plan.edges@.len() as int),
        required_prototypes: Seq::empty(),
    }
}

/// The plans of the asynchronous functions among the first `n`.
pub open spec fn function_plans(
    functions: Seq<LivenessFunction>,
    symbols: AsyncSymbolIndex,
    unit: Seq<char>,
    n: int,
) -> Seq<(FunctionId, FunctionPlanView)>
    decreases n,
{
    if n <= 0 {
        Seq::empty()
    } else {
        let before = function_plans(functions, symbols, unit, n - 1);
        let function = functions[n - 1];
        match identity_of(function, symbols, unit) {
            Some(caller) => if function.coroutine.cfg.is_async {
                order::put(before, caller, function_plan(function, caller, symbols, unit))
            } else {
                before
            },
            None => before,
        }
    }
}

/// The problems of the asynchronous functions among the first `n`.
pub open spec fn function_problems(
    functions: Seq<LivenessFunction>,
    symbols: AsyncSymbolIndex,
    unit: Seq<char>,
    n: int,
) -> Seq<DiagnosticView>
    decreases n,
{
    if n <= 0 {
        Seq::empty()
    } else {
        let before = function_problems(functions, symbols, unit, n - 1);
        let function = functions[n - 1];
        let children = function.coroutine.await_plan.children@;
        if !function.coroutine.cfg.is_async {
            before
        } else if identity_of(function, symbols, unit) is None {
            before.push(
                syntax::error_view(
                    "CRC6001"@,
                    "async function is missing from the C symbol plan"@,
                    function.coroutine.cfg.span,
                ),
            )
        } else {
            child_problems(before, children, symbols, unit, children.len() as int)
        }
    }
}

/// The position of the last asynchronous function of every identity among the
/// first `n`.
pub open spec fn function_positions(
    functions: Seq<LivenessFunction>,
    symbols: AsyncSymbolIndex,
    unit: Seq<char>,
    n: int,
) -> Seq<(FunctionId, usize)>
    decreases n,
{
    if n <= 0 {
        Seq::empty()
    } else {
        let before = function_positions(functions, symbols, unit, n - 1);
        match identity_of(functions[n - 1], symbols, unit) {
            Some(id) => if functions[n - 1].coroutine.cfg.is_async {
                order::put(before, id, (n - 1) as usize)
            } else {
                before
            },
            None => before,
        }
    }
}

/// The types of the results of the first `n` children, after those found
/// before.
pub open spec fn result_types(
    found: Seq<Seq<char>>,
    children: Seq<ChildInstance>,
    n: int,
) -> Seq<Seq<char>>
    decreases n,
{
    if n <= 0 {
        found
    } else {
        match children[n - 1].result {
            ResultLayout::KnownType(ty) => result_types(found, children, n - 1).push(ty.text@),
            ResultLayout::RuntimeDefined => result_types(found, children, n - 1),
        }
    }
}

/// The types that the task context of a function holds.
pub open spec fn context_types(function: LivenessFunction) -> Seq<Seq<char>> {
    let fields = Seq::new(
        function.lifted_fields@.len(),
        |i: int| function.lifted_fields@[i].ty.text@,
    );
    let returned = text::trimmed(function.coroutine.cfg.return_type.text@);
    let own = if returned == "void"@ {
        fields
    } else {
        fields.push(returned)
    };
    let children = function.coroutine.await_plan.children@;
    result_types(own, children, children.len() as int)
}

/// Lists the types that the task context of a function holds.
pub fn task_layout_types(function: &LivenessFunction) -> (r: Vec<String>)
    ensures
        syntax::views(r@) == context_types(*function),
{
    broadcast use syntax::views_push;

    let ghost fields = Seq::new(
        function.lifted_fields@.len(),
        |i: int| function.lifted_fields@[i].ty.text@,
    );
    let mut types: Vec<String> = Vec::new();
    let mut i: usize = 0;
    while i < function.lifted_fields.len()
        invariant
            i <= function.lifted_fields@.len(),
            fields == Seq::new(
                function.lifted_fields@.len(),
                |i: int| function.lifted_fields@[i].ty.text@,
            ),
            syntax::views(types@) =~= fields.take(i as int),
        decreases function.lifted_fields@.len() - i,
    {
        broadcast use syntax::views_push;

        types.push(function.lifted_fields[i].ty.text.clone());
        i += 1;
    }
    assert(fields.take(i as int) =~= fields);
    let return_type = trim(function.coroutine.cfg.return_type.text.as_str());
    if !str_eq(return_type, "void") {
        types.push(return_type.to_owned());
    }
    let ghost own = syntax::views(types@);
    let children = &function.coroutine.await_plan.children;
    let mut c: usize = 0;
    while c < children.len()
        invariant
            c <= children@.len(),
            syntax::views(types@) == result_types(own, children@, c as int),
        decreases children@.len() - c,
    {
        broadcast use syntax::views_push;

        if let ResultLayout::KnownType(ty) = &children[c].result {
            types.push(ty.text.clone());
        }
        c += 1;
    }
    types
}

fn plan_function(
    function: &LivenessFunction,
    caller: FunctionId,
    symbols: &AsyncSymbolIndex,
    project_path: &str,
    diagnostics: &mut Vec<Diagnostic>,
) -> (r: CFunctionPlan)
    ensures
        r@ == function_plan(*function, caller, *symbols, project_path@),
        syntax::views(final(diagnostics)@) == child_problems(
            syntax::views(old(diagnostics)@),
            function.coroutine.await_plan.children@,
            *symbols,
            project_path@,
            function.coroutine.await_plan.children@.len() as int,
        ),
{
    let plan = &function.coroutine.await_plan;
    let mut children: Vec<(ChildInstanceId, CChildPlan)> = Vec::new();
    assert(order::entry_views(children@) =~= Seq::empty());
    let mut c: usize = 0;
    while c < plan.children.len()
        invariant
            c <= plan.children@.len(),
            order::entry_views(children@) == child_plans(
                plan.children@,
                *symbols,
                project_path@,
                c as int,
            ),
            syntax::views(diagnostics@) == child_problems(
                syntax::views(old(diagnostics)@),
                plan.children@,
                *symbols,
                project_path@,
                c as int,
            ),
        decreases plan.children@.len() - c,
    {
        match plan_child(&plan.children[c], symbols, project_path) {
            Ok(child) => {
                proof {
                    order::put_views(children@, plan.children@[c as int].id, child);
                }
                put_value(&mut children, plan.children[c].id, child);
            },
            Err(diagnostic) => {
                proof {
                    syntax::views_push(diagnostics@, diagnostic);
                }
                diagnostics.push(diagnostic);
            },
        }
        c += 1;
    }
    let mut edge_children: Vec<(AwaitEdgeId, ChildInstanceId)> = Vec::new();
    let mut e: usize = 0;
    while e < plan.edges.len()
        invariant
            e <= plan.edges@.len(),
            edge_children@ == polled_children(plan.edges@, e as int),
        decreases plan.edges@.len() - e,
    {
        put_value(&mut edge_children, plan.edges[e].id, plan.edges[e].instance);
        e += 1;
    }
    let r = CFunctionPlan {
        caller,
        source_start: function.coroutine.cfg.span.start_byte,
        children,
        edge_children,
        required_prototypes: Vec::new(),
    };
    assert(r.required_prototypes@ =~= Seq::empty());
    r
}

/// The problems of functions whose context holds a type of their own, among
/// the first `n` functions by identity.
pub open spec fn local_type_problems(
    found: Seq<DiagnosticView>,
    functions: Seq<LivenessFunction>,
    positions: Seq<(FunctionId, usize)>,
    env: EnvironmentView,
    n: int,
) -> Seq<DiagnosticView>
    decreases n,
{
    if n <= 0 {
        found
    } else {
        let before = local_type_problems(found, functions, positions, env, n - 1);
        let function = functions[positions[n - 1].1 as int];
        let span = function.coroutine.cfg.span;
        if c_declaration_env::mentions_local(
            env.locals,
            context_types(function),
            span.start_byte,
            span.end_byte,
        ) {
            before.push(
                syntax::error_view(
                    "CRC6008"@,
                    "function-local type can't be stored in a coroutine task context"@,
                    span,
                ),
            )
        } else {
            before
        }
    }
}

/// The types that a prototype of a callee mentions.
pub open spec fn signature_types(callee: CalleeView) -> Seq<Seq<char>> {
    seq![callee.result_type] + Seq::new(
        callee.parameters.len(),
        |i: int| callee.parameters[i].adjusted_type@,
    )
}

/// Whether a unit declares a function before `position`.
pub open spec fn declared_before(
    symbols: AsyncSymbolIndex,
    unit: Seq<char>,
    function: FunctionId,
    position: usize,
) -> bool {
    match symbols.symbol_spec(function) {
        Some(symbol) => symbol_index::site_before(symbol.sites@, unit, position as int),
        None => false,
    }
}

/// Whether a caller at `start` needs a prototype for a child, and whether the
/// prototype can be written there.
pub open spec fn prototype_need(
    child: ChildPlanView,
    symbols: AsyncSymbolIndex,
    unit: Seq<char>,
    env: EnvironmentView,
    start: usize,
) -> Option<Result<FunctionId, DiagnosticView>> {
    match child.target {
        ChildTargetView::Dynamic(value) => None,
        ChildTargetView::Static(callee) => if declared_before(
            symbols,
            unit,
            callee.function,
            start,
        ) {
            None
        } else if c_declaration_env::visibility_block(env, signature_types(callee), start) is Some {
            Some(
                Err(
                    syntax::error_view(
                        "CRC6007"@,
                        "static await requires a visible compatible typed declaration"@,
                        child.span,
                    ),
                ),
            )
        } else {
            Some(Ok(callee.function))
        },
    }
}

/// The prototypes that the first `n` children need, in ascending order.
pub open spec fn required_prototypes(
    children: Seq<(ChildInstanceId, ChildPlanView)>,
    symbols: AsyncSymbolIndex,
    unit: Seq<char>,
    env: EnvironmentView,
    start: usize,
    n: int,
) -> Seq<FunctionId>
    decreases n,
{
    if n <= 0 {
        Seq::empty()
    } else {
        let before = required_prototypes(children, symbols, unit, env, start, n - 1);
        match prototype_need(children[n - 1].1, symbols, unit, env, start) {
            Some(Ok(function)) => order::with_key(before, function, 0),
            _ => before,
        }
    }
}

/// The prototypes of the first `n` children that can't be written.
pub open spec fn prototype_problems(
    found: Seq<DiagnosticView>,
    children: Seq<(ChildInstanceId, ChildPlanView)>,
    symbols: AsyncSymbolIndex,
    unit: Seq<char>,
    env: EnvironmentView,
    start: usize,
    n: int,
) -> Seq<DiagnosticView>
    decreases n,
{
    if n <= 0 {
        found
    } else {
        let before = prototype_problems(found, children, symbols, unit, env, start, n - 1);
        match prototype_need(children[n - 1].1, symbols, unit, env, start) {
            Some(Err(problem)) => before.push(problem),
            _ => before,
        }
    }
}

/// The plans with the prototypes of every function.
pub open spec fn with_prototypes(
    functions: Seq<(FunctionId, FunctionPlanView)>,
    symbols: AsyncSymbolIndex,
    unit: Seq<char>,
    env: EnvironmentView,
) -> Seq<(FunctionId, FunctionPlanView)> {
    Seq::new(
        functions.len(),
        |i: int|
            (
                functions[i].0,
                FunctionPlanView {
                    required_prototypes: required_prototypes(
                        functions[i].1.children,
                        symbols,
                        unit,
                        env,
                        functions[i].1.source_start,
                        functions[i].1.children.len() as int,
                    ),
                    ..functions[i].1
                },
            ),
    )
}

/// The prototypes of the first `n` functions that can't be written.
pub open spec fn all_prototype_problems(
    found: Seq<DiagnosticView>,
    functions: Seq<(FunctionId, FunctionPlanView)>,
    symbols: AsyncSymbolIndex,
    unit: Seq<char>,
    env: EnvironmentView,
    n: int,
) -> Seq<DiagnosticView>
    decreases n,
{
    if n <= 0 {
        found
    } else {
        prototype_problems(
            all_prototype_problems(found, functions, symbols, unit, env, n - 1),
            functions[n - 1].1.children,
            symbols,
            unit,
            env,
            functions[n - 1].1.source_start,
            functions[n - 1].1.children.len() as int,
        )
    }
}

fn list_signature_types(callee: &StaticCallee) -> (r: Vec<String>)
    ensures
        syntax::views(r@) == signature_types(callee@),
{
    let ghost all = signature_types(callee@);
    let mut types: Vec<String> = Vec::new();
    types.push(callee.result_type.clone());
    let mut i: usize = 0;
    while i < callee.parameters.len()
        invariant
            i <= callee.parameters@.len(),
            all == signature_types(callee@),
            syntax::views(types@) =~= all.take(i + 1),
        decreases callee.parameters@.len() - i,
    {
        proof {
            syntax::views_push(types@, callee.parameters@[i as int].adjusted_type);
        }
        types.push(callee.parameters[i].adjusted_type.clone());
        i += 1;
    }
    assert(all.take(i + 1) =~= all);
    types
}

fn plan_prototypes_of(
    function: &CFunctionPlan,
    project_path: &str,
    symbols: &AsyncSymbolIndex,
    env: &CDeclarationEnvironment,
    diagnostics: &mut Vec<Diagnostic>,
) -> (r: Vec<FunctionId>)
    ensures
        r@ == required_prototypes(
            function@.children,
            *symbols,
            project_path@,
            env@,
            function.source_start,
            function@.children.len() as int,
        ),
        syntax::views(final(diagnostics)@) == prototype_problems(
            syntax::views(old(diagnostics)@),
            function@.children,
            *symbols,
            project_path@,
            env@,
            function.source_start,
            function@.children.len() as int,
        ),
{
    let ghost children = function@.children;
    let mut required: Vec<FunctionId> = Vec::new();
    let mut c: usize = 0;
    while c < function.children.len()
        invariant
            c <= function.children@.len(),
            children == order::entry_views(function.children@),
            required@ == required_prototypes(
                children,
                *symbols,
                project_path@,
                env@,
                function.source_start,
                c as int,
            ),
            syntax::views(diagnostics@) == prototype_problems(
                syntax::views(old(diagnostics)@),
                children,
                *symbols,
                project_path@,
                env@,
                function.source_start,
                c as int,
            ),
        decreases function.children@.len() - c,
    {
        let child = &function.children[c].1;
        assert(children[c as int].1 == child@);
        if let CChildTarget::Static(callee) = &child.target {
            if !symbols.has_site_before(project_path, callee.function, function.source_start) {
                let types = list_signature_types(callee);
                if env.classify_visibility_at(&types, function.source_start).is_some() {
                    let diagnostic = error_diagnostic(
                        "CRC6007",
                        "static await requires a visible compatible typed declaration",
                        &child.span,
                    );
                    proof {
                        syntax::views_push(diagnostics@, diagnostic);
                    }
                    diagnostics.push(diagnostic);
                } else {
                    add_key(&mut required, callee.function);
                }
            }
        }
        c += 1;
    }
    required
}

fn plan_required_prototypes(
    functions: &mut Vec<(FunctionId, CFunctionPlan)>,
    project_path: &str,
    symbols: &AsyncSymbolIndex,
    env: &CDeclarationEnvironment,
    diagnostics: &mut Vec<Diagnostic>,
)
    ensures
        order::entry_views(final(functions)@) == with_prototypes(
            order::entry_views(old(functions)@),
            *symbols,
            project_path@,
            env@,
        ),
        syntax::views(final(diagnostics)@) == all_prototype_problems(
            syntax::views(old(diagnostics)@),
            order::entry_views(old(functions)@),
            *symbols,
            project_path@,
            env@,
            old(functions)@.len() as int,
        ),
{
    let ghost before = order::entry_views(functions@);
    let ghost after = with_prototypes(before, *symbols, project_path@, env@);
    let mut f: usize = 0;
    while f < functions.len()
        invariant
            f <= functions@.len(),
            functions@.len() == before.len(),
            before == order::entry_views(old(functions)@),
            after == with_prototypes(before, *symbols, project_path@, env@),
            forall|i: int|
                0 <= i < f ==> #[trigger] order::entry_views(functions@)[i] == after[i],
            forall|i: int|
                f <= i < functions@.len() ==> #[trigger] order::entry_views(functions@)[i]
                    == before[i],
            syntax::views(diagnostics@) == all_prototype_problems(
                syntax::views(old(diagnostics)@),
                before,
                *symbols,
                project_path@,
                env@,
                f as int,
            ),
        decreases functions@.len() - f,
    {
        let ghost views = order::entry_views(functions@);
        assert(views[f as int] == before[f as int]);
        let required = plan_prototypes_of(
            &functions[f].1,
            project_path,
            symbols,
            env,
            diagnostics,
        );
        functions[f].1.required_prototypes = required;
        assert(order::entry_views(functions@)[f as int] == after[f as int]);
        assert forall|i: int| 0 <= i < functions@.len() && i
            != f implies #[trigger] order::entry_views(functions@)[i] == views[i] by {}
        f += 1;
    }
    assert(order::entry_views(functions@) =~= after);
}

/// All problems of a unit, in the order in which they are found.
pub open spec fn plan_problems(
    unit: LivenessUnit,
    project_path: Seq<char>,
    symbols: AsyncSymbolIndex,
    env: EnvironmentView,
) -> Seq<DiagnosticView> {
    let functions = unit.functions@;
    let n = functions.len() as int;
    let plans = function_plans(functions, symbols, project_path, n);
    let positions = function_positions(functions, symbols, project_path, n);
    let own = function_problems(functions, symbols, project_path, n);
    all_prototype_problems(
        local_type_problems(own, functions, positions, env, positions.len() as int),
        plans,
        symbols,
        project_path,
        env,
        plans.len() as int,
    )
}

/// The plans of a unit before its layouts are settled.
pub open spec fn unsettled_plans(
    unit: LivenessUnit,
    project_path: Seq<char>,
    symbols: AsyncSymbolIndex,
    env: EnvironmentView,
) -> Seq<(FunctionId, FunctionPlanView)> {
    with_prototypes(
        function_plans(unit.functions@, symbols, project_path, unit.functions@.len() as int),
        symbols,
        project_path,
        env,
    )
}

/// Whether the plan's functions and islands are where the layouts of the unit
/// come to rest.
pub open spec fn plan_settled(
    plan: CStaticAwaitPlan,
    unit: LivenessUnit,
    project_path: Seq<char>,
    symbols: AsyncSymbolIndex,
    env: EnvironmentView,
) -> bool {
    exists|end: c_layout_order::LayoutState|
        {
            &&& #[trigger] c_layout_order::settles_at(
                c_layout_order::initial_state(
                    unsettled_plans(unit, project_path, symbols, env),
                ),
                end,
                unit.functions@,
                function_positions(
                    unit.functions@,
                    symbols,
                    project_path,
                    unit.functions@.len() as int,
                ),
                env,
            )
            &&& order::entry_views(plan.functions@) == end.functions
            &&& syntax::views(plan.layout_islands@) == c_layout_order::islands_of(
                end.functions,
                end.anchors,
            )
        }
}

proof fn child_plans_ascending(
    children: Seq<ChildInstance>,
    symbols: AsyncSymbolIndex,
    unit: Seq<char>,
    n: int,
)
    requires
        0 <= n <= children.len(),
    ensures
        order::ascending(child_plans(children, symbols, unit, n)),
    decreases n,
{
    if n > 0 {
        child_plans_ascending(children, symbols, unit, n - 1);
        let before = child_plans(children, symbols, unit, n - 1);
        let id = children[n - 1].id;
        if let Ok(plan) = child_outcome(children[n - 1], symbols, unit) {
            order::put_ascending(before, id, plan, id);
        }
    }
}

pub proof fn plans_ascending(
    functions: Seq<LivenessFunction>,
    symbols: AsyncSymbolIndex,
    unit: Seq<char>,
    n: int,
)
    requires
        0 <= n <= functions.len(),
        functions.len() <= usize::MAX,
    ensures
        c_layout_order::plans_ordered(function_plans(functions, symbols, unit, n)),
        order::ascending(function_positions(functions, symbols, unit, n)),
        forall|i: int|
            0 <= i < function_positions(functions, symbols, unit, n).len() ==> (
            #[trigger] function_positions(functions, symbols, unit, n)[i]).1 < n,
    decreases n,
{
    if n > 0 {
        plans_ascending(functions, symbols, unit, n - 1);
        let function = functions[n - 1];
        let children = function.coroutine.await_plan.children@;
        child_plans_ascending(children, symbols, unit, children.len() as int);
        if let Some(id) = identity_of(function, symbols, unit) {
            if function.coroutine.cfg.is_async {
                let plans = function_plans(functions, symbols, unit, n - 1);
                let positions = function_positions(functions, symbols, unit, n - 1);
                order::put_ascending(plans, id, function_plan(function, id, symbols, unit), id);
                order::put_ascending(positions, id, (n - 1) as usize, id);
                order::key_point_bounds(positions, id, 0);
                order::key_point_bounds(plans, id, 0);
            }
        }
    }
}

/// Resolves planned identities and storage into target-specific C records.
#[must_use]
pub fn build_c_static_await_plan(
    unit: &LivenessUnit,
    project_path: &str,
    symbols: &AsyncSymbolIndex,
    declaration_environment: &CDeclarationEnvironment,
) -> (r: CStaticAwaitPlan)
    requires
        c_layout_order::can_settle(
            unsettled_plans(*unit, project_path@, *symbols, declaration_environment@),
        ),
    ensures
        syntax::views(r.diagnostics@) == plan_problems(
            *unit,
            project_path@,
            *symbols,
            declaration_environment@,
        ),
        plan_settled(r, *unit, project_path@, *symbols, declaration_environment@),
        r.ordered(),
{
    let mut functions: Vec<(FunctionId, CFunctionPlan)> = Vec::new();
    let mut positions: Vec<(FunctionId, usize)> = Vec::new();
    let mut diagnostics: Vec<Diagnostic> = Vec::new();
    assert(order::entry_views(functions@) =~= Seq::empty());
    assert(syntax::views(diagnostics@) =~= Seq::empty());
    let mut f: usize = 0;
    while f < unit.functions.len()
        invariant
            f <= unit.functions@.len(),
            order::entry_views(functions@) == function_plans(
                unit.functions@,
                *symbols,
                project_path@,
                f as int,
            ),
            positions@ == function_positions(unit.functions@, *symbols, project_path@, f as int),
            syntax::views(diagnostics@) == function_problems(
                unit.functions@,
                *symbols,
                project_path@,
                f as int,
            ),
        decreases unit.functions@.len() - f,
    {
        let function = &unit.functions[f];
        if function.coroutine.cfg.is_async {
            match find_identity(function, symbols, project_path) {
                Some(caller) => {
                    let plan = plan_function(
                        function,
                        caller,
                        symbols,
                        project_path,
                        &mut diagnostics,
                    );
                    proof {
                        order::put_views(functions@, caller, plan);
                    }
                    put_value(&mut functions, caller, plan);
                    put_value(&mut positions, caller, f);
                },
                None => {
                    let diagnostic = error_diagnostic(
                        "CRC6001",
                        "async function is missing from the C symbol plan",
                        &function.coroutine.cfg.span,
                    );
                    proof {
                        syntax::views_push(diagnostics@, diagnostic);
                    }
                    diagnostics.push(diagnostic);
                },
            }
        }
        f += 1;
    }
    proof {
        plans_ascending(unit.functions@, *symbols, project_path@, f as int);
    }
    report_local_types(&unit.functions, &positions, declaration_environment, &mut diagnostics);
    plan_required_prototypes(
        &mut functions,
        project_path,
        symbols,
        declaration_environment,
        &mut diagnostics,
    );
    proof {
        let plans = function_plans(unit.functions@, *symbols, project_path@, f as int);
        let after = order::entry_views(functions@);
        assert forall|i: int, j: int| 0 <= i < j < after.len() implies (
        #[trigger] after[i]).0.rank_spec() < (#[trigger] after[j]).0.rank_spec() by {
            assert(plans[i].0.rank_spec() < plans[j].0.rank_spec());
        }
        assert forall|i: int| 0 <= i < after.len() implies order::ascending(
            (#[trigger] after[i]).1.children,
        ) by {
            assert(after[i].1.children == plans[i].1.children);
        }
    }
    let anchors = settle_layouts(
        &mut functions,
        &unit.functions,
        &positions,
        declaration_environment,
    );
    let layout_islands = build_islands(&functions, &anchors);
    let r = CStaticAwaitPlan { functions, layout_islands, diagnostics };
    proof {
        let start = c_layout_order::initial_state(
            unsettled_plans(*unit, project_path@, *symbols, declaration_environment@),
        );
        let slots = choose|slots: Seq<(FunctionId, u32)>| #[trigger]
            c_layout_order::settles_at(
                start,
                c_layout_order::state_of(r.functions@, anchors@, slots),
                unit.functions@,
                positions@,
                declaration_environment@,
            );
        let end = c_layout_order::state_of(r.functions@, anchors@, slots);
        assert(c_layout_order::settles_at(
            start,
            end,
            unit.functions@,
            positions@,
            declaration_environment@,
        ));
        order_laws::built_plans_are_ordered(
            r,
            *unit,
            project_path@,
            *symbols,
            declaration_environment@,
        );
    }
    r
}

fn report_local_types(
    functions: &Vec<LivenessFunction>,
    positions: &Vec<(FunctionId, usize)>,
    env: &CDeclarationEnvironment,
    diagnostics: &mut Vec<Diagnostic>,
)
    requires
        forall|i: int|
            0 <= i < positions@.len() ==> (#[trigger] positions@[i]).1 < functions@.len(),
    ensures
        syntax::views(final(diagnostics)@) == local_type_problems(
            syntax::views(old(diagnostics)@),
            functions@,
            positions@,
            env@,
            positions@.len() as int,
        ),
{
    let mut p: usize = 0;
    while p < positions.len()
        invariant
            p <= positions@.len(),
            forall|i: int|
                0 <= i < positions@.len() ==> (#[trigger] positions@[i]).1 < functions@.len(),
            syntax::views(diagnostics@) == local_type_problems(
                syntax::views(old(diagnostics)@),
                functions@,
                positions@,
                env@,
                p as int,
            ),
        decreases positions@.len() - p,
    {
        assert(positions@[p as int].1 < functions@.len());
        let function = &functions[positions[p].1];
        let types = task_layout_types(function);
        let span = &function.coroutine.cfg.span;
        if env.contains_local_context_type(&types, span.start_byte, span.end_byte) {
            let diagnostic = error_diagnostic(
                "CRC6008",
                "function-local type can't be stored in a coroutine task context",
                span,
            );
            proof {
                syntax::views_push(diagnostics@, diagnostic);
            }
            diagnostics.push(diagnostic);
        }
        p += 1;
    }
}

} // verus!
