//! Static await plans, context layouts and emitted C.

use std::collections::BTreeSet;

use crc::await_plan::{
    build_function_await_plan, AwaitStorage, ChildInstanceId, ChildOrigin, ChildSlotId,
};
use crc::await_storage::{plan_await_storage, AwaitStorageFunction};
use crc::c_declaration_env::build_c_declaration_environment;
use crc::c_emitter::{emit_translation_unit, CEmission};
use crc::c_static_plan::{
    build_c_static_await_plan, validate_combination, CChildPlan, CChildStorage, CChildTarget,
    CFunctionPlan, CLayoutReason, CStaticAwaitPlan,
};
use crc::c_task::{CBackend, CEmitterConfig};
use crc::config::{OptimizationLevel, TargetConfig};
use crc::context_layout::{
    AggressiveLayoutDecision, ContextLayoutPlan, FunctionContextLayout, LayoutDecisionReason,
    LogicalFieldId, PhysicalSlotKind, SizeLayoutDecision,
};
use crc::control_flow::{
    AwaitEdgeId, BasicBlock, BlockId, CfgEdge, CfgFunction, CfgInstruction, CfgParameter,
    CfgTerminator, CfgValue, CleanupId, CleanupRegistration,
};
use crc::coroutine::{CoroutineAwaitSlot, CoroutineFunction, CoroutineState};
use crc::identity_layout::build_identity_context_layout;
use crc::layout_check::verify_context_layout;
use crc::layout_passes::build_context_layout;
use crc::liveness::{LiftedField, LivenessFunction, LivenessUnit};
use crc::semantic::{
    AwaitSlotId, DeclarationId, HirDeclaration, HirExpr, HirExprKind, ScopeId, SourceFragment,
};
use crc::slot_liveness::{
    DirectChildBundle, LogicalStorage, ProgramPoint, SlotLivenessFunction, SlotLivenessUnit,
};
use crc::symbol_index::{
    AsyncLinkageKey, AsyncParameter, AsyncSymbol, AsyncSymbolIndex, AsyncSymbolSite,
    AsyncSymbolSiteKind, FunctionId, TranslationUnitId,
};
use crc::syntax::{SourcePoint, SourceSpan, SyntaxNode, SyntaxUnit};
use crc::target_layout::LayoutUnknownReason;
use crc::text::normalize_c_type;

fn span(start: usize, end: usize) -> SourceSpan {
    SourceSpan {
        path: "unit.cr".to_owned(),
        start_byte: start,
        end_byte: end,
        start: SourcePoint { row: 0, column: start },
        end: SourcePoint { row: 0, column: end },
    }
}

fn fragment(text: &str, at: usize) -> SourceFragment {
    SourceFragment { text: text.to_owned(), span: span(at, at + text.len()) }
}

fn source(text: &str, at: usize) -> HirExpr {
    HirExpr { kind: HirExprKind::Source(text.to_owned()), span: span(at, at + text.len()) }
}

fn result(slot: u32, at: usize) -> HirExpr {
    HirExpr { kind: HirExprKind::AwaitResultRef(AwaitSlotId(slot)), span: span(at, at + 1) }
}

fn sum(left: HirExpr, right: HirExpr, at: usize) -> HirExpr {
    HirExpr {
        kind: HirExprKind::Binary {
            left: Box::new(left),
            operator: "+".to_owned(),
            right: Box::new(right),
        },
        span: span(at, at + 3),
    }
}

fn call(target: u32, callee: &str, arguments: Vec<HirExpr>, ty: &str, at: usize) -> HirExpr {
    HirExpr {
        kind: HirExprKind::AsyncCall {
            target: Some(FunctionId(target)),
            callee: callee.to_owned(),
            arguments,
            result_type: fragment(ty, at),
        },
        span: span(at, at + callee.len()),
    }
}

fn task(declaration: u32, name: &str, at: usize) -> HirExpr {
    HirExpr {
        kind: HirExprKind::TaskRef {
            declaration: DeclarationId(declaration),
            name: name.to_owned(),
        },
        span: span(at, at + name.len()),
    }
}

fn to(block: u32) -> CfgEdge {
    CfgEdge { target: BlockId(block) }
}

fn block(id: u32, instructions: Vec<CfgInstruction>, terminator: CfgTerminator) -> BasicBlock {
    BasicBlock {
        id: BlockId(id),
        scope_stack: vec![ScopeId(0), ScopeId(1)],
        instructions,
        terminator,
    }
}

fn suspend(edge: u32, operand: HirExpr, continuation: u32, at: usize) -> CfgTerminator {
    CfgTerminator::Suspend {
        edge: AwaitEdgeId(edge),
        operand,
        slot: AwaitSlotId(edge),
        continuation: to(continuation),
        span: span(at, at + 7),
    }
}

fn yielding(value: HirExpr, continuation: u32, at: usize) -> CfgTerminator {
    CfgTerminator::Yield {
        value: Some(CfgValue::Expression(value)),
        continuation: to(continuation),
        span: span(at, at + 7),
    }
}

fn give(value: HirExpr, at: usize) -> CfgTerminator {
    CfgTerminator::Return { value: Some(CfgValue::Expression(value)), span: span(at, at + 6) }
}

fn give_slot(slot: u32, at: usize) -> CfgTerminator {
    CfgTerminator::Return {
        value: Some(CfgValue::AwaitResult(AwaitSlotId(slot))),
        span: span(at, at + 6),
    }
}

fn declare(
    id: u32,
    name: &str,
    ty: &str,
    is_task: bool,
    initializer: Option<HirExpr>,
    at: usize,
) -> CfgInstruction {
    CfgInstruction::Declaration(HirDeclaration {
        id: DeclarationId(id),
        name: name.to_owned(),
        ty: fragment(ty, at),
        scope: ScopeId(1),
        is_task,
        initializer,
        span: span(at, at + ty.len() + name.len() + 1),
    })
}

fn assign(destination: u32, slot: u32, at: usize) -> CfgInstruction {
    CfgInstruction::AssignAwaitResult {
        destination: DeclarationId(destination),
        slot: AwaitSlotId(slot),
        span: span(at, at + 5),
    }
}

/// What one function of a unit consists of.
struct Sketch {
    name: &'static str,
    is_async: bool,
    start: usize,
    body: usize,
    end: usize,
    parameters: Vec<(u32, &'static str, &'static str)>,
    returns: &'static str,
    blocks: Vec<BasicBlock>,
    lifted: Vec<LiftedField>,
    live_points: Vec<(ProgramPoint, Vec<DeclarationId>)>,
    live_results: Vec<(ProgramPoint, Vec<AwaitSlotId>)>,
    interference: Vec<(LogicalStorage, LogicalStorage)>,
}

impl Sketch {
    fn new(name: &'static str, start: usize, end: usize, blocks: Vec<BasicBlock>) -> Sketch {
        Sketch {
            name,
            is_async: true,
            start,
            body: start + 5,
            end,
            parameters: vec![],
            returns: "int",
            blocks,
            lifted: vec![],
            live_points: vec![],
            live_results: vec![],
            interference: vec![],
        }
    }

    fn parameter(mut self, id: u32, name: &'static str, ty: &'static str) -> Sketch {
        self.parameters.push((id, name, ty));
        let mut field = local(id, name, ty, self.start + 1);
        field.scope = ScopeId(0);
        field.is_parameter = true;
        self.lifted.push(field);
        self
    }

    fn lift(mut self, fields: Vec<LiftedField>) -> Sketch {
        self.lifted.extend(fields);
        self
    }

    fn alive(mut self, block: u32, declarations: &[u32]) -> Sketch {
        self.live_points.push((
            ProgramPoint::BeforeTerminator(BlockId(block)),
            declarations.iter().copied().map(DeclarationId).collect(),
        ));
        self
    }

    fn alive_results(mut self, block: u32, slots: &[u32]) -> Sketch {
        self.live_results.push((
            ProgramPoint::BeforeTerminator(BlockId(block)),
            slots.iter().copied().map(AwaitSlotId).collect(),
        ));
        self
    }

    fn cfg(&mut self) -> CfgFunction {
        CfgFunction {
            name: self.name.to_owned(),
            is_async: self.is_async,
            parameters: self
                .parameters
                .iter()
                .map(|(id, name, ty)| CfgParameter {
                    id: DeclarationId(*id),
                    name: (*name).to_owned(),
                    ty: fragment(ty, self.start + 1),
                    scope: ScopeId(0),
                    span: span(self.start + 1, self.start + 2),
                })
                .collect(),
            return_type: fragment(self.returns, self.start),
            entry: BlockId(0),
            blocks: std::mem::take(&mut self.blocks),
            span: span(self.start, self.end),
            body_span: span(self.body, self.end),
        }
    }
}

fn local(id: u32, name: &str, ty: &str, at: usize) -> LiftedField {
    LiftedField {
        declaration: DeclarationId(id),
        source_name: name.to_owned(),
        field_name: format!("cr_v_{id}_{name}"),
        ty: fragment(ty, at),
        scope: ScopeId(1),
        declaration_start: at,
        is_parameter: false,
        is_task: false,
        address_taken: false,
        cleanup_retained: false,
        volatile_or_atomic: false,
    }
}

fn symbols_of(path: &str, sketches: &[Sketch]) -> AsyncSymbolIndex {
    AsyncSymbolIndex {
        entries: sketches
            .iter()
            .filter(|sketch| sketch.is_async)
            .enumerate()
            .map(|(index, sketch)| AsyncSymbol {
                id: FunctionId(index as u32),
                key: AsyncLinkageKey::External { name: sketch.name.to_owned() },
                public_stem: format!("cr_{}", sketch.name),
                result_type: sketch.returns.to_owned(),
                parameters: sketch
                    .parameters
                    .iter()
                    .map(|(_, _, ty)| AsyncParameter { adjusted_type: (*ty).to_owned() })
                    .collect(),
                is_variadic: false,
                sites: vec![AsyncSymbolSite {
                    kind: AsyncSymbolSiteKind::Definition,
                    translation_unit: TranslationUnitId(path.to_owned()),
                    start_byte: sketch.start,
                }],
            })
            .collect(),
    }
}

/// Turns sketches into a unit with planned storage and its slot lifetimes.
fn lowered(
    path: &str,
    symbols: &AsyncSymbolIndex,
    mut sketches: Vec<Sketch>,
) -> (LivenessUnit, SlotLivenessUnit) {
    let cfgs: Vec<CfgFunction> = sketches.iter_mut().map(Sketch::cfg).collect();
    let mut planning: Vec<AwaitStorageFunction> = cfgs
        .iter()
        .map(|cfg| AwaitStorageFunction {
            caller: symbols
                .resolve(path, &cfg.name)
                .map_or(FunctionId(1000), |resolved| resolved.symbol.id),
            translation_unit: TranslationUnitId(path.to_owned()),
            source_start: cfg.span.start_byte,
            plan: build_function_await_plan(cfg),
        })
        .collect();
    let storage = plan_await_storage(&mut planning, symbols);
    assert!(storage.diagnostics.is_empty(), "{:?}", storage.diagnostics);
    let mut functions = Vec::new();
    let mut lifetimes = Vec::new();
    for (index, ((cfg, planned), sketch)) in
        cfgs.into_iter().zip(planning).zip(sketches).enumerate()
    {
        let await_plan = planned.plan;
        let mut states = vec![CoroutineState { state: 0, block: BlockId(0) }];
        let mut slots = Vec::new();
        for block in &cfg.blocks {
            let resumed = match &block.terminator {
                CfgTerminator::Suspend { slot, continuation, .. } => {
                    slots.push(CoroutineAwaitSlot { id: *slot });
                    Some((Some(block.id), continuation.target))
                }
                CfgTerminator::Yield { continuation, .. } => Some((None, continuation.target)),
                _ => None,
            };
            if let Some((polling, continuation)) = resumed {
                for entered in polling.into_iter().chain([continuation]) {
                    if states.iter().all(|state| state.block != entered) {
                        let state = states.len() as u32;
                        states.push(CoroutineState { state, block: entered });
                    }
                }
            }
        }
        let mut state_by_block: Vec<_> =
            states.iter().map(|state| (state.block, state.state)).collect();
        state_by_block.sort();
        let mut direct_children = Vec::new();
        let mut excluded_children = Vec::new();
        for child in &await_plan.children {
            match child.origin {
                ChildOrigin::Direct(_) => direct_children
                    .push((child.id, DirectChildBundle { active_flag_independent: true })),
                ChildOrigin::Binding(_) => excluded_children.push(child.id),
            }
        }
        lifetimes.push(SlotLivenessFunction {
            function_index: index,
            function_name: cfg.name.clone(),
            live: sketch.live_results,
            direct_children,
            excluded_children,
            interference: sketch.interference,
        });
        functions.push(LivenessFunction {
            coroutine: CoroutineFunction {
                task_type: format!("cr_{}_task", cfg.name),
                init_name: format!("cr_{}_init", cfg.name),
                poll_name: format!("cr_{}_poll", cfg.name),
                drop_name: format!("cr_{}_drop", cfg.name),
                states,
                state_by_block,
                await_slots: slots,
                await_plan,
                cfg,
            },
            lifted_fields: sketch.lifted,
            live_points: sketch.live_points,
        });
    }
    (
        LivenessUnit { functions, diagnostics: vec![] },
        SlotLivenessUnit { functions: lifetimes },
    )
}

fn bare_unit(source: &str) -> SyntaxUnit {
    SyntaxUnit {
        source: source.to_owned(),
        root: SyntaxNode {
            kind: "translation_unit".to_owned(),
            text: source.to_owned(),
            start_byte: 0,
            end_byte: source.len(),
            children: vec![],
        },
    }
}

fn planned(sketches: Vec<Sketch>) -> (LivenessUnit, CStaticAwaitPlan, SlotLivenessUnit) {
    let symbols = symbols_of("layout.cr", &sketches);
    let (unit, slots) = lowered("layout.cr", &symbols, sketches);
    let environment = build_c_declaration_environment(&bare_unit(""));
    let plan = build_c_static_await_plan(&unit, "layout.cr", &symbols, &environment);
    assert!(plan.diagnostics.is_empty(), "{:?}", plan.diagnostics);
    (unit, plan, slots)
}

fn named<'a>(plan: &'a ContextLayoutPlan, name: &str) -> &'a FunctionContextLayout {
    &plan
        .functions
        .iter()
        .find(|(_, layout)| layout.function_name == name)
        .expect("function layout")
        .1
}

fn child_sketch(name: &'static str, start: usize) -> Sketch {
    Sketch::new(name, start, start + 40, vec![block(0, vec![], give(source("value", start + 20), start + 15))])
        .parameter(0, "value", "int")
}

fn constant_sketch(name: &'static str, returns: &'static str, start: usize) -> Sketch {
    let mut sketch = Sketch::new(
        name,
        start,
        start + 40,
        vec![block(0, vec![], give(source("1", start + 20), start + 15))],
    );
    sketch.returns = returns;
    sketch
}

#[test]
fn resolves_static_and_dynamic_children_without_changing_storage() {
    let source_text = r#"
cr_awaitable external_value(int value);

__async int child(int value) { return value; }

__async int parent(int value) {
    __async int bound = child(value);
    int first = __await child(value);
    int second = __await bound;
    return __await external_value(first + second);
}

__async int earlier_parent(int value) {
    return __await late_child(value);
}

typedef int LateValue;
__async int late_child(int value) {
    LateValue held = value;
    __yield held;
    return held;
}

__async int invalid_signature_parent(int value) {
    return __await signature_child(value);
}

typedef int SignatureValue;
__async int signature_child(SignatureValue value) { return value; }

__async int ordered_parent(int value) {
    return __await ordered_child(value);
}

__async int ordered_child(int value) { return value; }

__async int local_context(int value) {
    typedef int LocalContextValue;
    LocalContextValue held = value;
    __yield held;
    return held;
}
"#;
    let find = |text: &str| source_text.find(text).expect("text occurs");
    let bounds = |name: &str| {
        let start = find(&format!("__async int {name}("));
        let length = source_text[start..].find("}\n").expect("function ends") + 1;
        (start, start + length)
    };
    let waiting = |name: &'static str, target: u32, callee: &'static str| {
        let (start, end) = bounds(name);
        Sketch::new(
            name,
            start,
            end,
            vec![
                block(
                    0,
                    vec![],
                    suspend(0, call(target, callee, vec![source("value", end - 9)], "int", end - 20), 1, end - 20),
                ),
                block(1, vec![], give_slot(0, end - 8)),
            ],
        )
        .parameter(0, "value", "int")
    };
    let leaf = |name: &'static str, ty: &'static str| {
        let (start, end) = bounds(name);
        Sketch::new(name, start, end, vec![block(0, vec![], give(source("value", end - 9), end - 9))])
            .parameter(0, "value", ty)
    };
    let holding = |name: &'static str, ty: &'static str| {
        let (start, end) = bounds(name);
        let at = start + source_text[start..].find("held").expect("declared");
        Sketch::new(
            name,
            start,
            end,
            vec![
                block(
                    0,
                    vec![declare(1, "held", ty, false, Some(source("value", at + 7)), at)],
                    yielding(source("held", at + 20), 1, at + 20),
                ),
                block(1, vec![], give(source("held", end - 8), end - 8)),
            ],
        )
        .parameter(0, "value", "int")
        .lift(vec![local(1, "held", ty, at)])
    };
    let (parent_start, parent_end) = bounds("parent");
    let parent = Sketch::new(
        "parent",
        parent_start,
        parent_end,
        vec![
            block(
                0,
                vec![declare(
                    1,
                    "bound",
                    "int",
                    true,
                    Some(call(0, "child", vec![source("value", find("child(value);\n    int first"))], "int", find("bound = child"))),
                    find("__async int bound"),
                )],
                suspend(0, call(0, "child", vec![source("value", find("child(value);\n    int second"))], "int", find("__await child(value)")), 1, find("__await child(value)")),
            ),
            block(
                1,
                vec![declare(2, "first", "int", false, None, find("int first")), assign(2, 0, find("int first"))],
                suspend(1, task(1, "bound", find("bound;")), 2, find("__await bound")),
            ),
            block(
                2,
                vec![declare(3, "second", "int", false, None, find("int second")), assign(3, 1, find("int second"))],
                suspend(2, source("external_value(first + second)", find("external_value(first")), 3, find("__await external_value")),
            ),
            block(3, vec![], give_slot(2, find("return __await external"))),
        ],
    )
    .parameter(0, "value", "int")
    .lift(vec![
        LiftedField { is_task: true, ..local(1, "bound", "int", find("__async int bound")) },
        local(2, "first", "int", find("int first")),
        local(3, "second", "int", find("int second")),
    ]);
    let sketches = vec![
        leaf("child", "int"),
        parent,
        waiting("earlier_parent", 3, "late_child"),
        holding("late_child", "LateValue"),
        waiting("invalid_signature_parent", 5, "signature_child"),
        leaf("signature_child", "SignatureValue"),
        waiting("ordered_parent", 7, "ordered_child"),
        leaf("ordered_child", "int"),
        holding("local_context", "LocalContextValue"),
    ];
    let alias = |name: &str, text: &str| SyntaxNode {
        kind: "type_definition".to_owned(),
        text: text.to_owned(),
        start_byte: find(text),
        end_byte: find(text) + text.len(),
        children: vec![SyntaxNode {
            kind: "type_identifier".to_owned(),
            text: name.to_owned(),
            start_byte: find(text) + 12,
            end_byte: find(text) + 12 + name.len(),
            children: vec![],
        }],
    };
    let (local_start, local_end) = bounds("local_context");
    let mut syntax = bare_unit(source_text);
    syntax.root.children = vec![
        alias("LateValue", "typedef int LateValue;"),
        alias("SignatureValue", "typedef int SignatureValue;"),
        SyntaxNode {
            kind: "function_definition".to_owned(),
            text: source_text[local_start..local_end].to_owned(),
            start_byte: local_start,
            end_byte: local_end,
            children: vec![SyntaxNode {
                kind: "compound_statement".to_owned(),
                text: String::new(),
                start_byte: local_start,
                end_byte: local_end,
                children: vec![alias("LocalContextValue", "typedef int LocalContextValue;")],
            }],
        },
    ];

    let symbols = symbols_of("src/plan.cr", &sketches);
    let (unit, _) = lowered("src/plan.cr", &symbols, sketches);
    let environment = build_c_declaration_environment(&syntax);
    let plan = build_c_static_await_plan(&unit, "src/plan.cr", &symbols, &environment);
    let function = |id: FunctionId| -> &CFunctionPlan {
        &plan.functions.iter().find(|(key, _)| *key == id).expect("function plan").1
    };
    let id_of = |name: &str| symbols.resolve("src/plan.cr", name).expect("resolves").symbol.id;

    let diagnostic_codes: BTreeSet<_> = plan.diagnostics.iter().map(|item| item.code).collect();
    assert_eq!(diagnostic_codes, BTreeSet::from(["CRC6007", "CRC6008"]), "{:?}", plan.diagnostics);
    let parent = function(id_of("parent"));
    assert_eq!(parent.children.len(), 3);
    assert_eq!(parent.edge_children.len(), 3);
    let static_children: Vec<&CChildPlan> = parent
        .children
        .iter()
        .map(|(_, child)| child)
        .filter(|child| matches!(child.target, CChildTarget::Static(_)))
        .collect();
    assert_eq!(static_children.len(), 2);
    assert!(static_children
        .iter()
        .all(|child| matches!(child.effective_storage, CChildStorage::Embedded(_))));
    let dynamic = parent
        .children
        .iter()
        .map(|(_, child)| child)
        .find(|child| matches!(child.target, CChildTarget::Dynamic(_)))
        .expect("dynamic child exists");
    assert!(matches!(dynamic.effective_storage, CChildStorage::Opaque(_)));

    let static_opaque = validate_combination(
        &static_children[0].target,
        CChildStorage::Opaque(AwaitSlotId(99)),
        static_children[0].origin,
        &static_children[0].span,
    )
    .expect("static opaque storage is rejected");
    assert_eq!(static_opaque.code, "CRC6004");
    let dynamic_typed = validate_combination(
        &dynamic.target,
        CChildStorage::Embedded(ChildSlotId(99)),
        dynamic.origin,
        &dynamic.span,
    )
    .expect("dynamic typed storage is rejected");
    assert_eq!(dynamic_typed.code, "CRC6005");
    let dynamic_binding = validate_combination(
        &dynamic.target,
        dynamic.effective_storage,
        ChildOrigin::Binding(DeclarationId(99)),
        &dynamic.span,
    )
    .expect("dynamic binding is rejected");
    assert_eq!(dynamic_binding.code, "CRC6006");

    let earlier_parent_id = id_of("earlier_parent");
    let earlier_child = &function(earlier_parent_id).children[0].1;
    assert!(matches!(earlier_child.requested_storage, AwaitStorage::Embedded(_)));
    assert!(matches!(earlier_child.effective_storage, CChildStorage::Boxed(_)));
    assert_eq!(earlier_child.downgrade_reason, Some(CLayoutReason::CompleteTypeNotVisible));
    assert!(plan.layout_islands.iter().any(|island| {
        island.anchor == function(earlier_parent_id).source_start
            && island.layouts.contains(&earlier_parent_id)
    }));

    let ordered_parent_id = id_of("ordered_parent");
    let ordered_child_id = id_of("ordered_child");
    let ordered_island = plan
        .layout_islands
        .iter()
        .find(|island| {
            island.layouts.contains(&ordered_parent_id)
                && island.layouts.contains(&ordered_child_id)
        })
        .expect("ordered layouts share an island");
    let child_position = ordered_island
        .layouts
        .iter()
        .position(|function| *function == ordered_child_id)
        .expect("ordered child is present");
    let parent_position = ordered_island
        .layouts
        .iter()
        .position(|function| *function == ordered_parent_id)
        .expect("ordered parent is present");
    assert!(child_position < parent_position);
    assert_eq!(function(ordered_parent_id).required_prototypes, vec![ordered_child_id]);
}

fn identity_example() -> Vec<Sketch> {
    let layout = Sketch::new(
        "layout",
        200,
        500,
        vec![
            block(
                0,
                vec![
                    declare(1, "local", "int", false, Some(source("parameter", 230)), 220),
                    declare(
                        2,
                        "binding",
                        "int",
                        true,
                        Some(call(0, "child", vec![source("local", 260)], "int", 250)),
                        245,
                    ),
                ],
                suspend(0, call(0, "child", vec![source("local", 290)], "int", 280), 1, 270),
            ),
            block(
                1,
                vec![declare(3, "first", "int", false, None, 300), assign(3, 0, 300)],
                suspend(1, source("external_value()", 320), 2, 310),
            ),
            block(
                2,
                vec![declare(4, "second", "int", false, None, 340), assign(4, 1, 340)],
                suspend(2, task(2, "binding", 360), 3, 350),
            ),
            block(
                3,
                vec![],
                give(sum(source("first + second", 380), result(2, 395), 380), 370),
            ),
        ],
    )
    .parameter(0, "parameter", "int")
    .lift(vec![
        local(1, "local", "int", 220),
        LiftedField { is_task: true, ..local(2, "binding", "int", 245) },
        local(3, "first", "int", 300),
        local(4, "second", "int", 340),
    ])
    .alive(0, &[1, 2])
    .alive(1, &[2, 3])
    .alive(2, &[2, 3, 4])
    .alive(3, &[3, 4])
    .alive_results(3, &[2]);
    vec![child_sketch("child", 10), layout]
}

#[test]
fn identity_layout_places_every_private_field_independently() {
    let (liveness, static_plan, slots) = planned(identity_example());
    let plan = build_identity_context_layout(&liveness, Some(&static_plan), &slots);
    assert!(plan.diagnostics.is_empty(), "{:?}", plan.diagnostics);
    let layout = named(&plan, "layout");
    let has = |test: fn(&LogicalFieldId) -> bool| layout.fields.iter().any(|(field, _)| test(field));
    assert!(has(|field| *field == LogicalFieldId::State));
    assert!(has(|field| *field == LogicalFieldId::Status));
    assert!(has(|field| *field == LogicalFieldId::Error));
    assert!(has(|field| *field == LogicalFieldId::Cleanups));
    assert!(has(|field| matches!(field, LogicalFieldId::Lifted(_))));
    assert!(has(|field| matches!(field, LogicalFieldId::BindingActive(_))));
    assert!(has(|field| matches!(field, LogicalFieldId::BindingGeneration(_))));
    assert!(has(|field| matches!(field, LogicalFieldId::DirectChildPayload(_))));
    assert!(has(|field| matches!(field, LogicalFieldId::DirectChildActive(_))));
    assert!(has(|field| matches!(field, LogicalFieldId::Awaitable(_))));
    assert!(has(|field| matches!(field, LogicalFieldId::AwaitableActive(_))));
    assert!(has(|field| matches!(field, LogicalFieldId::AwaitResult(_))));
    assert!(has(|field| *field == LogicalFieldId::Result));
    assert!(has(|field| *field == LogicalFieldId::Yielded));
    assert_eq!(layout.fields.len(), layout.slots.len());
    assert!(layout
        .slots
        .iter()
        .all(|slot| { slot.kind == PhysicalSlotKind::Direct && slot.members.len() == 1 }));
    assert_eq!(verify_context_layout(&liveness, Some(&static_plan), &slots, &plan), Vec::new());
}

#[test]
fn every_level_places_a_context_that_passes_the_check() {
    let (liveness, static_plan, slots) = planned(identity_example());
    for optimization in [
        OptimizationLevel::Off,
        OptimizationLevel::Speed,
        OptimizationLevel::Size,
        OptimizationLevel::Aggressive,
    ] {
        let plan = build_context_layout(
            &liveness,
            Some(&static_plan),
            &slots,
            optimization,
            &TargetConfig::LinuxGnu,
            false,
        );
        assert!(plan.diagnostics.is_empty(), "{:?}", plan.diagnostics);
        assert_eq!(verify_context_layout(&liveness, Some(&static_plan), &slots, &plan), Vec::new());
    }
}

#[test]
fn every_level_keeps_the_members_of_a_context() {
    for sketches in [cross_type_example as fn() -> Vec<Sketch>, identity_example] {
        let (liveness, static_plan, slots) = planned(sketches());
        let lone = build_identity_context_layout(&liveness, Some(&static_plan), &slots);
        for level in [
            OptimizationLevel::Off,
            OptimizationLevel::Speed,
            OptimizationLevel::Size,
            OptimizationLevel::Aggressive,
        ] {
            let plan = build_context_layout(
                &liveness,
                Some(&static_plan),
                &slots,
                level,
                &TargetConfig::LinuxGnu,
                false,
            );
            assert_eq!(plan.functions.len(), lone.functions.len());
            for ((start, layout), (lone_start, alone)) in
                plan.functions.iter().zip(&lone.functions)
            {
                assert_eq!(start, lone_start);
                let keys = |own: &FunctionContextLayout| -> Vec<LogicalFieldId> {
                    own.fields.iter().map(|(field, _)| *field).collect()
                };
                assert_eq!(keys(layout), keys(alone));
                let members = |own: &FunctionContextLayout| {
                    let mut list: Vec<_> = own
                        .slots
                        .iter()
                        .flat_map(|slot| slot.members.iter())
                        .map(|member| {
                            (
                                member.logical,
                                member.c_type.clone(),
                                member.c_name.clone(),
                                member.c_declaration.clone(),
                            )
                        })
                        .collect();
                    list.sort();
                    list
                };
                assert_eq!(members(layout), members(alone));
                if level == OptimizationLevel::Off {
                    assert_eq!(layout.fields, alone.fields);
                    assert_eq!(layout.slots, alone.slots);
                    assert_eq!(layout.decisions, alone.decisions);
                }
                if let SizeLayoutDecision::Accepted { speed_size, size_size } =
                    layout.size_decision
                {
                    assert!(size_size <= speed_size);
                }
            }
            assert_eq!(plan.clone(), plan);
        }
    }
}

#[test]
fn built_plans_and_contexts_are_listed_in_order() {
    let (liveness, static_plan, slots) = planned(identity_example());
    assert!(static_plan.functions.windows(2).all(|pair| pair[0].0 < pair[1].0));
    for (_, function) in &static_plan.functions {
        assert!(function.children.windows(2).all(|pair| pair[0].0 < pair[1].0));
        assert!(function.edge_children.windows(2).all(|pair| pair[0].0 < pair[1].0));
    }
    let plan = build_context_layout(
        &liveness,
        Some(&static_plan),
        &slots,
        OptimizationLevel::Speed,
        &TargetConfig::LinuxGnu,
        false,
    );
    assert!(plan.functions.windows(2).all(|pair| pair[0].0 < pair[1].0));
    for (_, layout) in &plan.functions {
        assert!(layout.fields.windows(2).all(|pair| pair[0].0 < pair[1].0));
    }
    assert_eq!(static_plan.clone(), static_plan);
    let empty = CStaticAwaitPlan::default();
    assert!(empty.functions.is_empty());
    assert!(empty.layout_islands.is_empty() && empty.diagnostics.is_empty());
}

#[test]
fn contexts_of_every_level_can_be_emitted() {
    let (liveness, static_plan, slots) = planned(identity_example());
    let text = " ".repeat(4000);
    for level in [
        OptimizationLevel::Off,
        OptimizationLevel::Speed,
        OptimizationLevel::Size,
        OptimizationLevel::Aggressive,
    ] {
        let plan = build_context_layout(
            &liveness,
            Some(&static_plan),
            &slots,
            level,
            &TargetConfig::LinuxGnu,
            false,
        );
        let emission = emit_translation_unit(
            &text,
            &liveness,
            Some(&static_plan),
            &slots,
            &plan,
            &CEmitterConfig::default(),
        );
        assert!(emission.diagnostics.is_empty(), "{:?}", emission.diagnostics);
        assert!(emission.source.contains("struct"));
    }
}

#[test]
fn contexts_at_one_place_pass_the_check_where_nothing_is_shared() {
    let (mut liveness, _, slots) = planned(identity_example());
    let start = liveness.functions[0].coroutine.cfg.span.start_byte;
    liveness.functions[1].coroutine.cfg.span.start_byte = start;
    let plan = build_context_layout(
        &liveness,
        None,
        &slots,
        OptimizationLevel::Off,
        &TargetConfig::LinuxGnu,
        false,
    );
    assert!(plan.diagnostics.is_empty(), "{:?}", plan.diagnostics);
    assert_eq!(plan.functions.len(), 1);
    assert_eq!(plan.functions[0].1.function_name, liveness.functions[1].coroutine.cfg.name);
    assert_eq!(verify_context_layout(&liveness, None, &slots, &plan), Vec::new());
}

#[test]
fn layouts_of_no_function_are_ignored() {
    let (liveness, static_plan, slots) = planned(identity_example());
    let mut plan = build_identity_context_layout(&liveness, Some(&static_plan), &slots);
    let mut stray = plan.functions[0].1.clone();
    stray.source_start = 9_999;
    plan.functions.push((9_999, stray));
    assert_eq!(verify_context_layout(&liveness, Some(&static_plan), &slots, &plan), Vec::new());
}

#[test]
fn missing_placement_is_an_internal_layout_diagnostic() {
    let parent = Sketch::new(
        "parent",
        100,
        200,
        vec![
            block(0, vec![], suspend(0, call(0, "child", vec![], "int", 130), 1, 120)),
            block(1, vec![], give_slot(0, 150)),
        ],
    )
    .alive_results(1, &[0]);
    let (liveness, static_plan, slots) =
        planned(vec![constant_sketch("child", "int", 10), parent]);
    let mut plan = build_identity_context_layout(&liveness, Some(&static_plan), &slots);
    let parent = &mut plan
        .functions
        .iter_mut()
        .find(|(_, layout)| layout.function_name == "parent")
        .expect("parent layout")
        .1;
    parent.fields.retain(|(field, _)| *field != LogicalFieldId::State);
    let diagnostics = verify_context_layout(&liveness, Some(&static_plan), &slots, &plan);
    assert!(diagnostics.iter().any(|diagnostic| diagnostic.code == "CRC8004"));
}

#[test]
fn speed_reuses_sequential_same_type_children_results_and_awaitables() {
    let layout = Sketch::new(
        "layout",
        100,
        400,
        vec![
            block(0, vec![], suspend(0, call(0, "child", vec![source("1", 130)], "int", 125), 1, 120)),
            block(
                1,
                vec![declare(0, "first", "int", false, None, 140), assign(0, 0, 140)],
                suspend(1, call(0, "child", vec![source("2", 160)], "int", 155), 2, 150),
            ),
            block(
                2,
                vec![declare(1, "second", "int", false, None, 170), assign(1, 1, 170)],
                suspend(2, source("external_value(3)", 190), 3, 180),
            ),
            block(
                3,
                vec![declare(2, "third", "int", false, None, 210), assign(2, 2, 210)],
                suspend(3, source("external_value(4)", 230), 4, 220),
            ),
            block(
                4,
                vec![declare(3, "fourth", "int", false, None, 250), assign(3, 3, 250)],
                give(source("first + second + third + fourth", 280), 270),
            ),
        ],
    )
    .lift(vec![
        local(0, "first", "int", 140),
        local(1, "second", "int", 170),
        local(2, "third", "int", 210),
        local(3, "fourth", "int", 250),
    ])
    .alive(1, &[0])
    .alive(2, &[0, 1])
    .alive(3, &[0, 1, 2])
    .alive(4, &[0, 1, 2, 3]);
    let (liveness, static_plan, slots) = planned(vec![child_sketch("child", 10), layout]);
    let plan = build_context_layout(
        &liveness,
        Some(&static_plan),
        &slots,
        OptimizationLevel::Speed,
        &TargetConfig::Host,
        false,
    );
    assert!(plan.diagnostics.is_empty(), "{:?}", plan.diagnostics);
    let layout = named(&plan, "layout");
    let unions: Vec<_> =
        layout.slots.iter().filter(|slot| slot.kind == PhysicalSlotKind::Union).collect();
    assert!(unions.iter().any(|slot| {
        slot.members.len() == 2
            && slot
                .members
                .iter()
                .all(|member| matches!(member.logical, LogicalFieldId::DirectChildPayload(_)))
    }));
    assert!(unions.iter().any(|slot| {
        slot.members.len() == 4
            && slot
                .members
                .iter()
                .all(|member| matches!(member.logical, LogicalFieldId::AwaitResult(_)))
    }));
    assert!(unions.iter().any(|slot| {
        slot.members.len() == 2
            && slot
                .members
                .iter()
                .all(|member| matches!(member.logical, LogicalFieldId::Awaitable(_)))
    }));
    assert!(layout.fields.iter().any(|(field, _)| {
        matches!(field, LogicalFieldId::DirectChildActive(_))
            && match layout.placement(*field) {
                Some(placement) => placement.access_path.direct_field().is_some(),
                None => false,
            }
    }));
    assert_eq!(verify_context_layout(&liveness, Some(&static_plan), &slots, &plan), Vec::new());
}

fn simultaneous_example() -> Vec<Sketch> {
    let layout = Sketch::new(
        "layout",
        100,
        300,
        vec![
            block(0, vec![], suspend(0, call(0, "child", vec![source("1", 130)], "int", 125), 1, 120)),
            block(1, vec![], suspend(1, call(0, "child", vec![source("2", 160)], "int", 155), 2, 150)),
            block(2, vec![], give(sum(result(0, 180), result(1, 185), 180), 170)),
        ],
    )
    .alive_results(1, &[0])
    .alive_results(2, &[0, 1]);
    vec![child_sketch("child", 10), layout]
}

#[test]
fn speed_keeps_simultaneously_live_results_in_different_slots() {
    let (liveness, static_plan, slots) = planned(simultaneous_example());
    for optimization in [OptimizationLevel::Speed, OptimizationLevel::Size] {
        let plan = build_context_layout(
            &liveness,
            Some(&static_plan),
            &slots,
            optimization,
            &TargetConfig::Host,
            false,
        );
        let layout = named(&plan, "layout");
        let result_slots: Vec<_> = layout
            .fields
            .iter()
            .filter(|(field, _)| matches!(field, LogicalFieldId::AwaitResult(_)))
            .map(|(_, placement)| placement.slot)
            .collect();
        assert_eq!(result_slots.len(), 2);
        assert_ne!(result_slots[0], result_slots[1]);
        assert_eq!(verify_context_layout(&liveness, Some(&static_plan), &slots, &plan), Vec::new());
    }
}

#[test]
fn sharing_simultaneously_live_results_is_reported() {
    let (liveness, static_plan, mut slots) = planned(simultaneous_example());
    let overlapping = std::mem::take(&mut slots.functions[1].live);
    let plan = build_context_layout(
        &liveness,
        Some(&static_plan),
        &slots,
        OptimizationLevel::Speed,
        &TargetConfig::Host,
        false,
    );
    assert_eq!(verify_context_layout(&liveness, Some(&static_plan), &slots, &plan), Vec::new());
    slots.functions[1].live = overlapping;
    assert!(!verify_context_layout(&liveness, Some(&static_plan), &slots, &plan).is_empty());
}

#[test]
fn host_context_layout_reports_exact_size_and_alignment_for_known_fields() {
    let layout = Sketch::new(
        "layout",
        100,
        300,
        vec![
            block(0, vec![], suspend(0, call(0, "child", vec![source("1", 130)], "int", 125), 1, 120)),
            block(
                1,
                vec![declare(0, "first", "int", false, None, 140), assign(0, 0, 140)],
                give(source("first", 160), 150),
            ),
        ],
    )
    .lift(vec![local(0, "first", "int", 140)])
    .alive(1, &[0]);
    let (liveness, static_plan, slots) = planned(vec![child_sketch("child", 10), layout]);
    let plan = build_context_layout(
        &liveness,
        Some(&static_plan),
        &slots,
        OptimizationLevel::Speed,
        &TargetConfig::Host,
        false,
    );
    let layout = named(&plan, "layout");
    let knowledge = layout.layout_knowledge.exact().expect("known host context layout");
    assert!(knowledge.size > 0);
    assert!(knowledge.align > 0);
    assert_eq!(knowledge.offsets.len(), layout.slots.len());
}

#[test]
fn unknown_target_and_packing_keep_layout_knowledge_conservative() {
    let (liveness, static_plan, slots) = planned(vec![constant_sketch("layout", "int", 10)]);
    let custom = build_context_layout(
        &liveness,
        Some(&static_plan),
        &slots,
        OptimizationLevel::Speed,
        &TargetConfig::Custom("vendor-target".to_owned()),
        false,
    );
    let custom_layout = &custom.functions[0].1;
    assert!(matches!(
        custom_layout.layout_knowledge,
        crc::target_layout::LayoutKnowledge::Unknown(LayoutUnknownReason::UnsupportedTarget)
    ));

    let packed = build_context_layout(
        &liveness,
        Some(&static_plan),
        &slots,
        OptimizationLevel::Speed,
        &TargetConfig::Host,
        true,
    );
    let packed_layout = &packed.functions[0].1;
    assert!(matches!(
        packed_layout.layout_knowledge,
        crc::target_layout::LayoutKnowledge::Unknown(LayoutUnknownReason::PackingEnvironment)
    ));
}

fn array_example() -> Vec<Sketch> {
    vec![Sketch::new(
        "layout",
        60,
        300,
        vec![
            block(
                0,
                vec![declare(0, "first[64]", "char", false, Some(source("{1}", 110)), 90)],
                yielding(source("1", 130), 1, 120),
            ),
            block(
                1,
                vec![
                    CfgInstruction::Evaluate(source("consume(first[0])", 140)),
                    declare(1, "second[8]", "long long", false, Some(source("{2}", 190)), 165),
                ],
                yielding(source("2", 205), 2, 200),
            ),
            block(2, vec![], give(source("(int)second[0]", 220), 215)),
        ],
    )
    .lift(vec![
        local(0, "first", "char[64]", 90),
        local(1, "second", "long long[8]", 165),
    ])
    .alive(0, &[0])
    .alive(1, &[1])
    .alive(2, &[1])]
}

#[test]
fn size_reuses_nonoverlapping_lifted_array_storage() {
    let (liveness, static_plan, slots) = planned(array_example());
    let build = |optimization: OptimizationLevel, target: &TargetConfig| {
        build_context_layout(&liveness, Some(&static_plan), &slots, optimization, target, false)
    };
    let plan = build(OptimizationLevel::Size, &TargetConfig::Host);
    let layout = &plan.functions[0].1;
    assert!(matches!(layout.size_decision, SizeLayoutDecision::Accepted { .. }), "{layout:#?}");
    assert!(
        layout.slots.iter().any(|slot| {
            slot.kind == PhysicalSlotKind::Union
                && slot.members.iter().any(|member| member.c_type.contains("char"))
                && slot.members.iter().any(|member| member.c_type.contains("long long"))
        }),
        "{layout:#?}"
    );

    let aggressive_host = build(OptimizationLevel::Aggressive, &TargetConfig::Host);
    let aggressive_host_repeated = build(OptimizationLevel::Aggressive, &TargetConfig::Host);
    assert_eq!(aggressive_host.functions, aggressive_host_repeated.functions);
    let aggressive_host_layout = &aggressive_host.functions[0].1;
    assert!(matches!(
        aggressive_host_layout.aggressive_decision,
        AggressiveLayoutDecision::Accepted { explored_nodes: 1.., .. }
            | AggressiveLayoutDecision::RetainedSize { explored_nodes: 1.., .. }
            | AggressiveLayoutDecision::BudgetExhausted { explored_nodes: 1.., .. }
    ));

    let unknown = TargetConfig::Custom("unknown-layout".to_owned());
    let custom = build(OptimizationLevel::Size, &unknown);
    let custom_layout = &custom.functions[0].1;
    assert!(matches!(
        custom_layout.size_decision,
        SizeLayoutDecision::RetainedUnknown(LayoutUnknownReason::UnsupportedTarget)
    ));
    assert!(!custom_layout.slots.iter().any(|slot| slot.kind == PhysicalSlotKind::Union));
    let aggressive_unknown = build(OptimizationLevel::Aggressive, &unknown);
    assert!(matches!(
        aggressive_unknown.functions[0].1.aggressive_decision,
        AggressiveLayoutDecision::RetainedUnknown(LayoutUnknownReason::UnsupportedTarget)
    ));

    for target in [
        TargetConfig::WindowsMsvc,
        TargetConfig::WindowsGnu,
        TargetConfig::LinuxGnu,
        TargetConfig::LinuxMusl,
        TargetConfig::Macos,
        TargetConfig::Wasm32Wasi,
    ] {
        let speed = build(OptimizationLevel::Speed, &target);
        let size = build(OptimizationLevel::Size, &target);
        let aggressive = build(OptimizationLevel::Aggressive, &target);
        let exact = |plan: &ContextLayoutPlan| {
            plan.functions[0]
                .1
                .layout_knowledge
                .exact()
                .map(|layout| layout.size)
                .expect("exact layout")
        };
        assert!(exact(&size) <= exact(&speed), "{target:?}");
        assert!(exact(&aggressive) <= exact(&size), "{target:?}");
        assert!(matches!(
            aggressive.functions[0].1.aggressive_decision,
            AggressiveLayoutDecision::Accepted { .. }
                | AggressiveLayoutDecision::RetainedSize { .. }
                | AggressiveLayoutDecision::BudgetExhausted { .. }
        ));
    }
}

/// A function that awaits children of different types one after the other.
fn cross_type_example() -> Vec<Sketch> {
    let layout = Sketch::new(
        "layout",
        200,
        400,
        vec![
            block(0, vec![], suspend(0, call(0, "child_int", vec![], "int", 225), 1, 220)),
            block(
                1,
                vec![declare(0, "first", "int", false, None, 240), assign(0, 0, 240)],
                suspend(1, call(1, "child_long", vec![], "long long", 255), 2, 250),
            ),
            block(
                2,
                vec![declare(1, "second", "long long", false, None, 270), assign(1, 1, 270)],
                give(source("first + (int)second", 300), 290),
            ),
        ],
    )
    .lift(vec![local(0, "first", "int", 240), local(1, "second", "long long", 270)])
    .alive(1, &[0])
    .alive(2, &[0, 1]);
    vec![
        constant_sketch("child_int", "int", 10),
        constant_sketch("child_long", "long long", 100),
        layout,
    ]
}

#[test]
fn levels_that_share_more_never_cost_size() {
    for sketches in [cross_type_example as fn() -> Vec<Sketch>, identity_example] {
        let (liveness, static_plan, slots) = planned(sketches());
        let sizes = |level: OptimizationLevel| -> Vec<Option<u64>> {
            build_context_layout(
                &liveness,
                Some(&static_plan),
                &slots,
                level,
                &TargetConfig::LinuxGnu,
                false,
            )
            .functions
            .iter()
            .map(|(_, layout)| layout.layout_knowledge.exact().map(|known| known.size))
            .collect()
        };
        let alone = sizes(OptimizationLevel::Off);
        let speed = sizes(OptimizationLevel::Speed);
        assert!(alone.iter().all(Option::is_some));
        let fits = |smaller: &[Option<u64>], larger: &[Option<u64>]| {
            smaller.len() == larger.len()
                && smaller.iter().zip(larger).all(|(a, b)| a.is_some() && a <= b)
        };
        assert!(fits(&speed, &alone));
        assert!(fits(&sizes(OptimizationLevel::Size), &speed));
        assert!(fits(&sizes(OptimizationLevel::Aggressive), &speed));
    }
    let (liveness, static_plan, slots) = planned(cross_type_example());
    let size_of = |level: OptimizationLevel| {
        let plan = build_context_layout(
            &liveness,
            Some(&static_plan),
            &slots,
            level,
            &TargetConfig::LinuxGnu,
            false,
        );
        named(&plan, "layout").layout_knowledge.exact().map(|known| known.size)
    };
    assert!(size_of(OptimizationLevel::Size) < size_of(OptimizationLevel::Speed));
}

#[test]
fn size_reuses_cross_type_results_and_embedded_child_slots() {
    let (liveness, static_plan, slots) = planned(cross_type_example());
    let plan = build_context_layout(
        &liveness,
        Some(&static_plan),
        &slots,
        OptimizationLevel::Size,
        &TargetConfig::Host,
        false,
    );
    let layout = named(&plan, "layout");
    assert!(matches!(layout.size_decision, SizeLayoutDecision::Accepted { .. }));
    assert!(layout.slots.iter().any(|slot| {
        let result_types: BTreeSet<_> = slot
            .members
            .iter()
            .filter(|member| matches!(member.logical, LogicalFieldId::AwaitResult(_)))
            .map(|member| normalize_c_type(&member.c_type))
            .collect();
        result_types.contains("int") && result_types.contains("long long")
    }));
    assert!(layout.slots.iter().any(|slot| {
        let child_types: BTreeSet<_> = slot
            .members
            .iter()
            .filter(|member| matches!(member.logical, LogicalFieldId::DirectChildPayload(_)))
            .map(|member| normalize_c_type(&member.c_type))
            .collect();
        child_types.len() > 1
    }));
    assert_eq!(verify_context_layout(&liveness, Some(&static_plan), &slots, &plan), Vec::new());
}

#[test]
fn size_excludes_parameter_alias_cleanup_task_and_qualified_fields() {
    let layout = Sketch::new(
        "layout",
        200,
        600,
        vec![
            block(
                0,
                vec![
                    declare(1, "addressed", "int", false, Some(source("1", 240)), 220),
                    declare(2, "cleanup", "int", false, Some(source("2", 260)), 245),
                    declare(3, "watched", "volatile int", false, Some(source("3", 290)), 265),
                    declare(4, "atomic", "_Atomic int", false, Some(source("4", 320)), 300),
                    declare(
                        5,
                        "binding",
                        "int",
                        true,
                        Some(call(0, "child", vec![source("5", 350)], "int", 345)),
                        330,
                    ),
                    declare(6, "pointer", "int *", false, Some(source("&addressed", 390)), 375),
                ],
                yielding(source("0", 410), 1, 405),
            ),
            block(
                1,
                vec![CfgInstruction::Evaluate(source("retain(pointer)", 420))],
                suspend(0, task(5, "binding", 470), 2, 465),
            ),
            block(2, vec![], give(result(0, 480), 475)),
        ],
    )
    .parameter(0, "parameter", "int")
    .lift(vec![
        LiftedField { address_taken: true, ..local(1, "addressed", "int", 220) },
        LiftedField { cleanup_retained: true, ..local(2, "cleanup", "int", 245) },
        LiftedField { volatile_or_atomic: true, ..local(3, "watched", "volatile int", 265) },
        LiftedField { volatile_or_atomic: true, ..local(4, "atomic", "_Atomic int", 300) },
        LiftedField { is_task: true, ..local(5, "binding", "int", 330) },
        local(6, "pointer", "int *", 375),
    ])
    .alive(0, &[0, 1, 2, 3, 4, 5, 6])
    .alive(1, &[0, 1, 2, 3, 4, 5]);
    let (liveness, static_plan, slots) = planned(vec![child_sketch("child", 10), layout]);
    let plan = build_context_layout(
        &liveness,
        Some(&static_plan),
        &slots,
        OptimizationLevel::Size,
        &TargetConfig::Host,
        false,
    );
    let function = liveness
        .functions
        .iter()
        .find(|function| function.coroutine.cfg.name == "layout")
        .expect("layout liveness");
    let layout = named(&plan, "layout");
    let reason = |name: &str| {
        let declaration = function
            .lifted_fields
            .iter()
            .find(|field| field.source_name == name)
            .map(|field| field.declaration)
            .expect("lifted exclusion field");
        layout
            .decisions
            .iter()
            .find(|decision| decision.field == LogicalFieldId::Lifted(declaration))
            .map(|decision| decision.reason)
            .expect("layout decision")
    };
    assert_eq!(reason("parameter"), LayoutDecisionReason::ExcludedParameter);
    assert_eq!(reason("addressed"), LayoutDecisionReason::ExcludedAddressTaken);
    assert_eq!(reason("cleanup"), LayoutDecisionReason::ExcludedCleanupRetained);
    assert_eq!(reason("binding"), LayoutDecisionReason::ExcludedTaskBinding);
    assert_eq!(reason("watched"), LayoutDecisionReason::ExcludedVolatileOrAtomic);
    assert_eq!(reason("atomic"), LayoutDecisionReason::ExcludedVolatileOrAtomic);
}

/// Emits a unit whose functions were not planned together.
fn emit(text: &str, sketches: Vec<Sketch>, config: &CEmitterConfig) -> CEmission {
    let symbols = symbols_of("emit.cr", &sketches);
    let (unit, slots) = lowered("emit.cr", &symbols, sketches);
    let layout = build_identity_context_layout(&unit, None, &slots);
    emit_translation_unit(text, &unit, None, &slots, &layout, config)
}

/// The sketch of a function that stands in a text.
fn in_text(text: &str, name: &'static str, head: &str, blocks: Vec<BasicBlock>) -> Sketch {
    let start = text.find(head).expect("function occurs");
    let end = start + text[start..].rfind('}').expect("function ends") + 1;
    let mut sketch = Sketch::new(name, start, end, blocks);
    sketch.body = start + text[start..].find('{').expect("body occurs");
    sketch
}

#[test]
fn emits_portable_async_task_and_lifted_context() {
    let text = r#"
cr_awaitable next_value(int input);

__async int run(int input) {
    int value = __await next_value(input);
    return value;
}
"#;
    let find = |piece: &str| text.rfind(piece).expect("text occurs");
    let sketch = in_text(
        text,
        "run",
        "__async int run",
        vec![
            block(
                0,
                vec![],
                suspend(0, source("next_value(input)", find("next_value(input)")), 1, find("__await")),
            ),
            block(
                1,
                vec![
                    declare(1, "value", "int", false, None, find("int value")),
                    assign(1, 0, find("int value")),
                ],
                give(source("value", find("value;\n}")), find("return value")),
            ),
        ],
    )
    .parameter(0, "input", "int")
    .lift(vec![local(1, "value", "int", find("int value"))])
    .alive(1, &[1]);
    let emission = emit(text, vec![sketch], &CEmitterConfig::default());

    assert!(emission.diagnostics.is_empty(), "{:?}", emission.diagnostics);
    assert!(emission.source.contains("typedef struct cr_run_task"));
    assert!(emission.source.contains("switch (ctx->state)"));
    assert!(emission.source.contains("cr_run_poll"));
    assert!(emission.source.contains("cr_v_"));
    assert!(!emission.source.contains("__await"));
    assert!(emission.source.contains("\ncr_awaitable next_value(int input);\n"));
}

#[test]
fn emits_sync_defer_with_dynamic_cleanup_stack() {
    let text = r#"
void close_handle(int handle);

int guarded(int handle) {
    __defer close_handle(handle);
    return handle;
}
"#;
    let find = |piece: &str| text.rfind(piece).expect("text occurs");
    let mut sketch = in_text(
        text,
        "guarded",
        "int guarded",
        vec![block(
            0,
            vec![
                CfgInstruction::PushCleanup(CleanupRegistration {
                    id: CleanupId(0),
                    scope: ScopeId(1),
                    function: fragment("close_handle", find("close_handle(handle)")),
                    arguments: vec![source("handle", find("handle);"))],
                    span: span(find("__defer"), find("return")),
                }),
                CfgInstruction::RunCleanups { exited_scopes: vec![ScopeId(1), ScopeId(0)] },
            ],
            give(source("handle", find("handle;\n}")), find("return")),
        )],
    )
    .parameter(0, "handle", "int");
    sketch.is_async = false;
    sketch.lifted.clear();
    let emission = emit(text, vec![sketch], &CEmitterConfig::default());

    assert!(emission.diagnostics.is_empty(), "{:?}", emission.diagnostics);
    assert!(emission.source.contains("cr_cleanup_push"));
    assert!(emission.source.contains("close_handle(payload->arg_0)"));
}

fn yielding_text() -> &'static str {
    r#"
__async int run(void) {
    __yield 1;
    return 2;
}
"#
}

fn yielding_sketch() -> Sketch {
    let text = yielding_text();
    let find = |piece: &str| text.find(piece).expect("text occurs");
    in_text(
        text,
        "run",
        "__async int run",
        vec![
            block(0, vec![], yielding(source("1", find("1;")), 1, find("__yield"))),
            block(1, vec![], give(source("2", find("2;")), find("return"))),
        ],
    )
}

#[test]
fn emits_gnu_computed_goto_dispatch() {
    let emission = emit(
        yielding_text(),
        vec![yielding_sketch()],
        &CEmitterConfig { backend: CBackend::ComputedGoto, ..CEmitterConfig::default() },
    );

    assert!(emission.diagnostics.is_empty(), "{:?}", emission.diagnostics);
    assert!(emission.source.contains("goto *cr_dispatch[ctx->state]"));
}

#[test]
fn portable_dispatch_switches_on_the_state() {
    let emission = emit(yielding_text(), vec![yielding_sketch()], &CEmitterConfig::default());
    assert!(emission.diagnostics.is_empty(), "{:?}", emission.diagnostics);
    assert!(!emission.source.contains("cr_dispatch"));
    assert!(emission.source.contains("switch (ctx->state)"));
}

#[test]
fn preserves_unaffected_translation_unit_text() {
    let source_text = "int untouched(void) { return 7; }\n";
    let emission = emit(source_text, vec![], &CEmitterConfig::default());
    assert_eq!(emission.source, source_text);
    assert!(emission.diagnostics.is_empty());
}

#[test]
fn rejects_missing_context_placement_without_emitting_fallback_source() {
    let text = "__async int run(void) { return 7; }\n";
    let sketches = vec![in_text(
        text,
        "run",
        "__async int run",
        vec![block(0, vec![], give(source("7", 31), 24))],
    )];
    let symbols = symbols_of("missing-layout.cr", &sketches);
    let (unit, slots) = lowered("missing-layout.cr", &symbols, sketches);
    let mut layout = build_identity_context_layout(&unit, None, &slots);
    layout.functions[0].1.fields.retain(|(field, _)| *field != LogicalFieldId::State);

    let emission =
        emit_translation_unit(text, &unit, None, &slots, &layout, &CEmitterConfig::default());

    assert!(emission.source.is_empty());
    assert!(emission.diagnostics.iter().any(|diagnostic| diagnostic.code == "CRC8004"));
}

#[test]
fn child_instances_are_listed_in_order() {
    let (liveness, static_plan, _) = planned(identity_example());
    assert_eq!(liveness.functions.len(), 2);
    let children: Vec<_> = static_plan.functions[1].1.children.iter().map(|(id, _)| *id).collect();
    assert_eq!(children, vec![ChildInstanceId(0), ChildInstanceId(1), ChildInstanceId(2)]);
}

#[test]
fn generated_sources_name_generated_headers() {
    let text = "#include \"shared.hr\"\n#include <platform.hr>\nint other.hr;\n";
    let emission = emit(text, vec![], &CEmitterConfig::default());
    assert_eq!(
        emission.source,
        "#include \"shared.h\"\n#include <platform.h>\nint other.hr;\n"
    );
}

#[test]
fn header_names_outside_include_lines_are_kept() {
    let text = "const char *name = \"data.hr\";\n";
    assert_eq!(emit(text, vec![], &CEmitterConfig::default()).source, text);
    let text = "  #\tinclude \"a.hr\"\nuse(\"#include <b.hr>\");\n// #include \"c.hr\"\n";
    assert_eq!(
        emit(text, vec![], &CEmitterConfig::default()).source,
        "  #\tinclude \"a.h\"\nuse(\"#include <b.hr>\");\n// #include \"c.hr\"\n"
    );
}

#[test]
fn transformed_functions_name_generated_headers() {
    let text = "const char *kept = \"a.hr\";\n__async const char *run(void) { return \"data.hr\"; }\n";
    let at = text.find("\"data.hr\"").expect("literal occurs");
    let mut sketch = in_text(
        text,
        "run",
        "__async const char *run",
        vec![block(0, vec![], give(source("\"data.hr\"", at), at - 7))],
    );
    sketch.returns = "const char *";
    let emission = emit(text, vec![sketch], &CEmitterConfig::default());
    assert!(emission.diagnostics.is_empty(), "{:?}", emission.diagnostics);
    assert!(emission.source.contains("const char *kept = \"a.hr\";\n"));
    assert!(emission.source.contains("\"data.h\""));
    assert!(!emission.source.contains("\"data.hr\""));
}

#[test]
fn text_around_functions_stays_where_it_was() {
    let text = "/* before */\n__async int run(void) { return 7; }\n/* after */\n";
    let sketches = vec![in_text(
        text,
        "run",
        "__async int run",
        vec![block(0, vec![], give(source("7", 44), 37))],
    )];
    let emission = emit(text, sketches, &CEmitterConfig::default());
    assert!(emission.diagnostics.is_empty());
    assert!(emission.source.starts_with("#include \"cr_runtime.h\"\n\n/* before */\n"));
    assert!(emission.source.ends_with("\n/* after */\n"));
    assert!(!emission.source.contains("__async"));
}

#[test]
fn unaffected_children_keep_the_storage_they_asked_for() {
    let (_, plan, _) = planned(identity_example());
    let mut islands: Vec<FunctionId> =
        plan.layout_islands.iter().flat_map(|island| island.layouts.iter().copied()).collect();
    islands.sort();
    let functions: Vec<FunctionId> = plan.functions.iter().map(|(id, _)| *id).collect();
    assert_eq!(islands, functions);
    for (_, function) in &plan.functions {
        for (_, child) in &function.children {
            assert_eq!(child.downgrade_reason, None);
            let kept = match (child.requested_storage, child.effective_storage) {
                (AwaitStorage::Embedded(asked), CChildStorage::Embedded(given)) => asked == given,
                (AwaitStorage::Boxed(asked), CChildStorage::Boxed(given)) => asked == given,
                (AwaitStorage::Opaque(asked), CChildStorage::Opaque(given)) => asked == given,
                _ => false,
            };
            assert!(kept);
        }
    }
}
