//! Await plans, call graphs and storage of awaited children.

use crc::await_graph::{
    build_static_call_graph, strongly_connected_components, AwaitGraphFunction, StaticCallEdge,
    StaticCallGraph,
};
use crc::await_plan::{
    build_function_await_plan, AwaitOwnership, AwaitStorage, AwaitTarget, ChildGeneration,
    ChildInstanceId, ChildOrigin, ChildSlotId, FunctionAwaitPlan, ResultLayout, TypedSlotId,
};
use crc::await_storage::{
    plan_await_storage, validate_storage_plan, AwaitStorageFunction, AwaitStoragePlanResult,
};
use crc::control_flow::{
    AwaitEdgeId, BasicBlock, BlockId, CfgEdge, CfgFunction, CfgInstruction, CfgParameter,
    CfgTerminator, CfgValue,
};
use crc::semantic::{
    AwaitSlotId, DeclarationId, HirDeclaration, HirExpr, HirExprKind, ScopeId, SourceFragment,
};
use crc::symbol_index::{
    AsyncLinkageKey, AsyncParameter, AsyncSymbol, AsyncSymbolIndex, AsyncSymbolSite,
    AsyncSymbolSiteKind, FunctionId, LayoutVisibility, TranslationUnitId,
};
use crc::syntax::{SourcePoint, SourceSpan};

fn span_in(path: &str, start: usize, end: usize) -> SourceSpan {
    SourceSpan {
        path: path.to_owned(),
        start_byte: start,
        end_byte: end,
        start: SourcePoint { row: 0, column: start },
        end: SourcePoint { row: 0, column: end },
    }
}

fn span(start: usize, end: usize) -> SourceSpan {
    span_in("await-plan.cr", start, end)
}

fn fragment(text: &str) -> SourceFragment {
    SourceFragment { text: text.to_owned(), span: span(0, text.len()) }
}

fn source(text: &str) -> HirExpr {
    HirExpr { kind: HirExprKind::Source(text.to_owned()), span: span(40, 40 + text.len()) }
}

fn call(target: u32, callee: &str, arguments: Vec<HirExpr>, at: usize) -> HirExpr {
    HirExpr {
        kind: HirExprKind::AsyncCall {
            target: Some(FunctionId(target)),
            callee: callee.to_owned(),
            arguments,
            result_type: fragment("int"),
        },
        span: span(at, at + 10),
    }
}

fn task(declaration: u32, name: &str) -> HirExpr {
    HirExpr {
        kind: HirExprKind::TaskRef {
            declaration: DeclarationId(declaration),
            name: name.to_owned(),
        },
        span: span(60, 60 + name.len()),
    }
}

fn to(block: u32) -> CfgEdge {
    CfgEdge { target: BlockId(block) }
}

fn block(id: u32, instructions: Vec<CfgInstruction>, terminator: CfgTerminator) -> BasicBlock {
    BasicBlock { id: BlockId(id), scope_stack: vec![ScopeId(0)], instructions, terminator }
}

fn suspend(edge: u32, operand: HirExpr, slot: u32, continuation: u32) -> CfgTerminator {
    CfgTerminator::Suspend {
        edge: AwaitEdgeId(edge),
        operand,
        slot: AwaitSlotId(slot),
        continuation: to(continuation),
        span: span(50, 59),
    }
}

fn give(value: HirExpr) -> CfgTerminator {
    CfgTerminator::Return { value: Some(CfgValue::Expression(value)), span: span(70, 80) }
}

fn give_slot(slot: u32) -> CfgTerminator {
    CfgTerminator::Return {
        value: Some(CfgValue::AwaitResult(AwaitSlotId(slot))),
        span: span(70, 80),
    }
}

fn function(name: &str, at: usize, parameter: &str, blocks: Vec<BasicBlock>) -> CfgFunction {
    CfgFunction {
        name: name.to_owned(),
        is_async: true,
        parameters: vec![CfgParameter {
            id: DeclarationId(0),
            name: parameter.to_owned(),
            ty: fragment("int"),
            scope: ScopeId(0),
            span: span(at, at + 1),
        }],
        return_type: fragment("int"),
        entry: BlockId(0),
        blocks,
        span: span(at, at + 30),
        body_span: span(at + 10, at + 30),
    }
}

fn leaf(name: &str, at: usize) -> CfgFunction {
    function(name, at, "value", vec![block(0, vec![], give(source("value")))])
}

fn direct_parent(name: &str, at: usize, target: u32, callee: &str) -> CfgFunction {
    function(
        name,
        at,
        "value",
        vec![
            block(0, vec![], suspend(0, call(target, callee, vec![source("value")], 40), 0, 1)),
            block(1, vec![], give_slot(0)),
        ],
    )
}

fn dynamic_parent(name: &str, at: usize) -> CfgFunction {
    function(
        name,
        at,
        "input",
        vec![
            block(0, vec![], suspend(0, source("input"), 0, 1)),
            block(1, vec![], give_slot(0)),
        ],
    )
}

fn task_declaration(id: u32, target: u32, callee: &str) -> CfgInstruction {
    CfgInstruction::Declaration(HirDeclaration {
        id: DeclarationId(id),
        name: "task".to_owned(),
        ty: fragment("int"),
        scope: ScopeId(1),
        is_task: true,
        initializer: Some(call(target, callee, vec![source("value")], 30)),
        span: span(20, 45),
    })
}

#[test]
fn direct_await_owns_one_static_unplanned_child() {
    let plan = build_function_await_plan(&direct_parent("parent", 50, 0, "child"));

    assert_eq!(plan.edges.len(), 1);
    assert_eq!(plan.children.len(), 1);
    let edge = &plan.edges[0];
    let child = &plan.children[0];
    assert_eq!(edge.instance, child.id);
    assert_eq!(child.origin, ChildOrigin::Direct(edge.id));
    assert!(matches!(child.target, AwaitTarget::Static(_)));
    assert_eq!(child.storage, AwaitStorage::Unplanned);
    assert!(matches!(child.result, ResultLayout::KnownType(_)));
    assert_eq!(child.ownership, AwaitOwnership::Edge(edge.id));
    assert_eq!(child.generation, ChildGeneration::AwaitEntry(edge.id));
    assert!(child.requires_activation);
}

#[test]
fn repeated_task_awaits_share_one_declaration_owned_child() {
    let parent = function(
        "parent",
        50,
        "value",
        vec![
            block(0, vec![task_declaration(1, 0, "child")], suspend(0, task(1, "task"), 0, 1)),
            block(
                1,
                vec![CfgInstruction::AssignAwaitResult {
                    destination: DeclarationId(2),
                    slot: AwaitSlotId(0),
                    span: span(46, 50),
                }],
                suspend(1, task(1, "task"), 1, 2),
            ),
            block(2, vec![], give_slot(1)),
        ],
    );
    let plan = build_function_await_plan(&parent);

    assert_eq!(plan.edges.len(), 2);
    assert_eq!(plan.children.len(), 1);
    assert_eq!(plan.edges[0].instance, plan.edges[1].instance);
    let child = &plan.children[0];
    let ChildOrigin::Binding(declaration) = child.origin else {
        panic!("binding-owned child expected");
    };
    assert_eq!(child.ownership, AwaitOwnership::Binding(declaration));
    assert_eq!(child.generation, ChildGeneration::DeclarationExecution(declaration));
    assert!(child.requires_activation);
    assert!(matches!(child.target, AwaitTarget::Static(_)));
    assert_eq!(child.storage, AwaitStorage::Unplanned);
}

#[test]
fn dynamic_await_retains_one_source_backed_value() {
    let plan = build_function_await_plan(&dynamic_parent("parent", 0));

    assert_eq!(plan.edges.len(), 1);
    assert_eq!(plan.children.len(), 1);
    assert_eq!(plan.dynamic_values.len(), 1);
    let value = &plan.dynamic_values[0];
    assert!(matches!(
        plan.children[0].target,
        AwaitTarget::Dynamic(id) if id == value.id
    ));
    assert!(matches!(
        &value.operand.kind,
        HirExprKind::Source(name) if name == "input"
    ));
    assert_eq!(value.span, value.operand.span);
    assert_eq!(plan.children[0].storage, AwaitStorage::Unplanned);
}

#[test]
fn loop_await_has_one_compile_time_edge_instance() {
    let parent = function(
        "parent",
        50,
        "count",
        vec![
            block(0, vec![], CfgTerminator::Goto(to(1))),
            block(
                1,
                vec![],
                CfgTerminator::Branch {
                    condition: source("count > 0"),
                    consequence: to(2),
                    alternative: to(4),
                },
            ),
            block(2, vec![], suspend(0, call(0, "child", vec![source("count")], 40), 0, 3)),
            block(
                3,
                vec![CfgInstruction::Evaluate(source("count = count - 1"))],
                CfgTerminator::Goto(to(1)),
            ),
            block(4, vec![], give(source("count"))),
        ],
    );
    let plan = build_function_await_plan(&parent);

    assert_eq!(plan.edges.len(), 1);
    assert_eq!(plan.children.len(), 1);
    assert_eq!(plan.children[0].origin, ChildOrigin::Direct(plan.edges[0].id));
}

#[test]
fn unused_blocks_still_number_children_in_block_order() {
    let parent = function(
        "parent",
        0,
        "value",
        vec![
            block(0, vec![], suspend(4, source("value"), 0, 1)),
            block(1, vec![task_declaration(7, 3, "leaf")], suspend(9, task(7, "task"), 1, 2)),
            block(2, vec![], give_slot(1)),
        ],
    );
    let plan = build_function_await_plan(&parent);

    assert_eq!(plan.children.len(), 2);
    assert_eq!(plan.children[0].id, ChildInstanceId(0));
    assert_eq!(plan.children[0].origin, ChildOrigin::Binding(DeclarationId(7)));
    assert_eq!(plan.children[1].id, ChildInstanceId(1));
    assert_eq!(plan.children[1].origin, ChildOrigin::Direct(AwaitEdgeId(4)));
    assert!(matches!(plan.children[1].result, ResultLayout::RuntimeDefined));
    assert_eq!(plan.edges[0].instance, ChildInstanceId(1));
    assert_eq!(plan.edges[1].instance, ChildInstanceId(0));
    assert_eq!(plan.edges[1].block, BlockId(1));
    assert_eq!(plan.edges[1].continuation, BlockId(2));
}

fn unit(path: &str) -> TranslationUnitId {
    TranslationUnitId(path.to_owned())
}

fn symbol(id: u32, name: &str, sites: Vec<(AsyncSymbolSiteKind, &str, usize)>) -> AsyncSymbol {
    AsyncSymbol {
        id: FunctionId(id),
        key: AsyncLinkageKey::External { name: name.to_owned() },
        public_stem: name.to_owned(),
        result_type: "int".to_owned(),
        parameters: vec![AsyncParameter { adjusted_type: "int".to_owned() }],
        is_variadic: false,
        sites: sites
            .into_iter()
            .map(|(kind, path, start_byte)| AsyncSymbolSite {
                kind,
                translation_unit: unit(path),
                start_byte,
            })
            .collect(),
    }
}

fn storage_function(
    symbols: &AsyncSymbolIndex,
    path: &str,
    function: &CfgFunction,
) -> AwaitStorageFunction {
    AwaitStorageFunction {
        caller: symbols
            .resolve(path, &function.name)
            .expect("project function resolves")
            .symbol
            .id,
        translation_unit: unit(path),
        source_start: function.span.start_byte,
        plan: build_function_await_plan(function),
    }
}

fn run(
    symbols: &AsyncSymbolIndex,
    functions: Vec<(&str, CfgFunction)>,
) -> (AwaitStoragePlanResult, Vec<AwaitStorageFunction>) {
    let mut inputs: Vec<_> = functions
        .iter()
        .map(|(path, function)| storage_function(symbols, path, function))
        .collect();
    let result = plan_await_storage(&mut inputs, symbols);
    (result, inputs)
}

fn child_storages(functions: &[AwaitStorageFunction]) -> Vec<(FunctionId, Vec<AwaitStorage>)> {
    let mut snapshot: Vec<_> = functions
        .iter()
        .map(|function| {
            (
                function.caller,
                function.plan.children.iter().map(|child| child.storage).collect(),
            )
        })
        .collect();
    snapshot.sort_by_key(|(caller, _)| *caller);
    snapshot
}

const DEFINITION: AsyncSymbolSiteKind = AsyncSymbolSiteKind::Definition;
const DECLARATION: AsyncSymbolSiteKind = AsyncSymbolSiteKind::Declaration;

#[test]
fn storage_same_unit_acyclic_child_is_embedded() {
    let symbols = AsyncSymbolIndex {
        entries: vec![
            symbol(0, "leaf", vec![(DEFINITION, "same.cr", 1)]),
            symbol(1, "parent", vec![(DEFINITION, "same.cr", 47)]),
        ],
    };
    let (result, functions) = run(
        &symbols,
        vec![
            ("same.cr", leaf("leaf", 1)),
            ("same.cr", direct_parent("parent", 47, 0, "leaf")),
        ],
    );

    assert!(result.diagnostics.is_empty(), "{:?}", result.diagnostics);
    let parent = functions
        .iter()
        .find(|function| !function.plan.children.is_empty())
        .expect("parent plan exists");
    assert!(matches!(
        parent.plan.children[0].storage,
        AwaitStorage::Embedded(ChildSlotId(0))
    ));
}

#[test]
fn storage_cross_unit_static_child_is_boxed() {
    let symbols = AsyncSymbolIndex {
        entries: vec![
            symbol(
                0,
                "leaf",
                vec![(DECLARATION, "include/leaf.hr", 0), (DEFINITION, "src/leaf.cr", 0)],
            ),
            symbol(1, "parent", vec![(DEFINITION, "src/parent.cr", 0)]),
        ],
    };
    let (result, functions) = run(
        &symbols,
        vec![
            ("src/leaf.cr", leaf("leaf", 0)),
            ("src/parent.cr", direct_parent("parent", 0, 0, "leaf")),
        ],
    );

    assert!(result.diagnostics.is_empty(), "{:?}", result.diagnostics);
    let parent = functions
        .iter()
        .find(|function| !function.plan.children.is_empty())
        .expect("parent plan exists");
    assert!(matches!(
        parent.plan.children[0].storage,
        AwaitStorage::Boxed(TypedSlotId(0))
    ));
}

#[test]
fn storage_self_recursive_child_is_boxed() {
    let symbols = AsyncSymbolIndex {
        entries: vec![symbol(0, "recursive", vec![(DEFINITION, "recursive.cr", 0)])],
    };
    let recursive = function(
        "recursive",
        0,
        "value",
        vec![
            block(
                0,
                vec![],
                CfgTerminator::Branch {
                    condition: source("value"),
                    consequence: to(1),
                    alternative: to(3),
                },
            ),
            block(1, vec![], suspend(0, call(0, "recursive", vec![source("value - 1")], 40), 0, 2)),
            block(2, vec![], give_slot(0)),
            block(3, vec![], give(source("0"))),
        ],
    );
    let (result, functions) = run(&symbols, vec![("recursive.cr", recursive)]);

    assert!(result.diagnostics.is_empty(), "{:?}", result.diagnostics);
    assert_eq!(result.components.len(), 1);
    assert!(result.components[0].cyclic);
    assert!(matches!(
        functions[0].plan.children[0].storage,
        AwaitStorage::Boxed(TypedSlotId(0))
    ));
}

#[test]
fn storage_mutual_recursion_boxes_only_cycle_closing_edge() {
    let symbols = AsyncSymbolIndex {
        entries: vec![
            symbol(
                0,
                "second",
                vec![(DECLARATION, "mutual.cr", 1), (DEFINITION, "mutual.cr", 95)],
            ),
            symbol(1, "first", vec![(DEFINITION, "mutual.cr", 32)]),
        ],
    };
    let (result, functions) = run(
        &symbols,
        vec![
            ("mutual.cr", direct_parent("first", 32, 0, "second")),
            ("mutual.cr", direct_parent("second", 95, 1, "first")),
        ],
    );

    assert!(result.diagnostics.is_empty(), "{:?}", result.diagnostics);
    let storages: Vec<_> = functions
        .iter()
        .flat_map(|function| function.plan.children.iter().map(|child| child.storage))
        .collect();
    assert_eq!(
        storages.iter().filter(|storage| matches!(storage, AwaitStorage::Embedded(_))).count(),
        1
    );
    assert_eq!(
        storages.iter().filter(|storage| matches!(storage, AwaitStorage::Boxed(_))).count(),
        1
    );
    assert_eq!(result.components.len(), 1);
    assert!(result.components[0].cyclic);
}

#[test]
fn storage_dynamic_child_is_opaque() {
    let symbols = AsyncSymbolIndex {
        entries: vec![symbol(0, "parent", vec![(DEFINITION, "dynamic.cr", 0)])],
    };
    let (result, functions) = run(&symbols, vec![("dynamic.cr", dynamic_parent("parent", 0))]);

    assert!(result.diagnostics.is_empty(), "{:?}", result.diagnostics);
    assert!(matches!(
        functions[0].plan.children[0].storage,
        AwaitStorage::Opaque(AwaitSlotId(0))
    ));
}

#[test]
fn storage_plan_is_independent_of_source_and_function_input_order() {
    let symbols = AsyncSymbolIndex {
        entries: vec![
            symbol(0, "leaf", vec![(DEFINITION, "src/leaf.cr", 0)]),
            symbol(1, "parent", vec![(DEFINITION, "src/parent.cr", 0)]),
        ],
    };
    let (forward, forward_functions) = run(
        &symbols,
        vec![
            ("src/leaf.cr", leaf("leaf", 0)),
            ("src/parent.cr", direct_parent("parent", 0, 0, "leaf")),
        ],
    );
    let (reverse, reverse_functions) = run(
        &symbols,
        vec![
            ("src/parent.cr", direct_parent("parent", 0, 0, "leaf")),
            ("src/leaf.cr", leaf("leaf", 0)),
        ],
    );

    assert!(forward.diagnostics.is_empty(), "{:?}", forward.diagnostics);
    assert!(reverse.diagnostics.is_empty(), "{:?}", reverse.diagnostics);
    assert_eq!(forward.graph, reverse.graph);
    assert_eq!(child_storages(&forward_functions), child_storages(&reverse_functions));
}

#[test]
fn storage_validation_rejects_unplanned_child() {
    let symbols = AsyncSymbolIndex {
        entries: vec![
            symbol(0, "leaf", vec![(DEFINITION, "unplanned.cr", 1)]),
            symbol(1, "parent", vec![(DEFINITION, "unplanned.cr", 47)]),
        ],
    };
    let leaf_plan = build_function_await_plan(&leaf("leaf", 1));
    let parent_plan = build_function_await_plan(&direct_parent("parent", 47, 0, "leaf"));
    let inputs = vec![
        AwaitGraphFunction {
            caller: FunctionId(0),
            translation_unit: unit("unplanned.cr"),
            source_start: 1,
            plan: &leaf_plan,
        },
        AwaitGraphFunction {
            caller: FunctionId(1),
            translation_unit: unit("unplanned.cr"),
            source_start: 47,
            plan: &parent_plan,
        },
    ];

    assert!(symbols.symbols().len() >= 2);
    assert!(validate_storage_plan(&inputs)
        .iter()
        .any(|diagnostic| diagnostic.code == "CRP5001"));
}

fn pure_graph(nodes: &[u32], edges: &[(u32, u32)]) -> StaticCallGraph {
    StaticCallGraph {
        nodes: nodes.iter().copied().map(FunctionId).collect(),
        edges: edges
            .iter()
            .enumerate()
            .map(|(index, (caller, callee))| StaticCallEdge {
                caller: FunctionId(*caller),
                callee: FunctionId(*callee),
                instance: ChildInstanceId(index as u32),
                translation_unit: unit("pure.cr"),
                caller_source_start: index,
                child_span: SourceSpan {
                    path: "pure.cr".to_owned(),
                    start_byte: index,
                    end_byte: index + 1,
                    start: SourcePoint { row: index, column: 0 },
                    end: SourcePoint { row: index, column: 1 },
                },
            })
            .collect(),
    }
}

#[test]
fn scc_acyclic_chain_has_three_singletons() {
    let components = strongly_connected_components(&pure_graph(&[0, 1, 2], &[(0, 1), (1, 2)]));

    assert_eq!(components.len(), 3);
    assert_eq!(components[0].functions, vec![FunctionId(0)]);
    assert_eq!(components[1].functions, vec![FunctionId(1)]);
    assert_eq!(components[2].functions, vec![FunctionId(2)]);
    assert!(components.iter().all(|component| !component.cyclic));
}

#[test]
fn scc_self_loop_is_cyclic() {
    let components = strongly_connected_components(&pure_graph(&[0], &[(0, 0)]));

    assert_eq!(components.len(), 1);
    assert_eq!(components[0].functions, vec![FunctionId(0)]);
    assert!(components[0].cyclic);
}

#[test]
fn scc_three_function_cycle_is_one_component() {
    let components =
        strongly_connected_components(&pure_graph(&[0, 1, 2], &[(0, 1), (1, 2), (2, 0)]));

    assert_eq!(components.len(), 1);
    assert_eq!(components[0].functions, vec![FunctionId(0), FunctionId(1), FunctionId(2)]);
    assert!(components[0].cyclic);
}

#[test]
fn scc_connected_cycles_and_disconnected_nodes_stay_distinct() {
    let components = strongly_connected_components(&pure_graph(
        &[0, 1, 2, 3, 4, 5],
        &[(0, 1), (1, 0), (1, 2), (2, 3), (3, 2)],
    ));

    assert_eq!(components.len(), 4);
    assert_eq!(components[0].functions, vec![FunctionId(0), FunctionId(1)]);
    assert!(components[0].cyclic);
    assert_eq!(components[1].functions, vec![FunctionId(2), FunctionId(3)]);
    assert!(components[1].cyclic);
    assert_eq!(components[2].functions, vec![FunctionId(4)]);
    assert_eq!(components[3].functions, vec![FunctionId(5)]);
}

#[test]
fn scc_result_is_independent_of_edge_insertion_order() {
    let forward = pure_graph(&[0, 1, 2, 3], &[(0, 1), (1, 2), (2, 0), (2, 3)]);
    let reverse = pure_graph(&[3, 2, 1, 0], &[(2, 3), (2, 0), (1, 2), (0, 1)]);

    assert_eq!(strongly_connected_components(&forward), strongly_connected_components(&reverse));
}

#[test]
fn scc_of_an_empty_graph_is_empty() {
    assert!(strongly_connected_components(&pure_graph(&[], &[])).is_empty());
}

#[test]
fn source_call_graph_includes_static_bindings_and_omits_dynamic_targets() {
    let path = "await-plan.cr";
    let symbols = AsyncSymbolIndex {
        entries: vec![
            symbol(0, "leaf", vec![(DEFINITION, path, 1)]),
            symbol(1, "binding_parent", vec![(DEFINITION, path, 47)]),
            symbol(2, "direct_parent", vec![(DEFINITION, path, 140)]),
            symbol(3, "dynamic_parent", vec![(DEFINITION, path, 200)]),
        ],
    };
    let binding_parent = function(
        "binding_parent",
        47,
        "value",
        vec![block(0, vec![task_declaration(1, 0, "leaf")], give(source("0")))],
    );
    let plans: Vec<(FunctionId, usize, FunctionAwaitPlan)> = vec![
        leaf("leaf", 1),
        binding_parent,
        direct_parent("direct_parent", 140, 0, "leaf"),
        dynamic_parent("dynamic_parent", 200),
    ]
    .iter()
    .map(|function| {
        (
            symbols.resolve(path, &function.name).expect("caller resolves").symbol.id,
            function.span.start_byte,
            build_function_await_plan(function),
        )
    })
    .collect();
    let inputs: Vec<_> = plans
        .iter()
        .map(|(caller, source_start, plan)| AwaitGraphFunction {
            caller: *caller,
            translation_unit: unit(path),
            source_start: *source_start,
            plan,
        })
        .collect();
    let reversed_inputs: Vec<_> = plans
        .iter()
        .rev()
        .map(|(caller, source_start, plan)| AwaitGraphFunction {
            caller: *caller,
            translation_unit: unit(path),
            source_start: *source_start,
            plan,
        })
        .collect();
    let graph = build_static_call_graph(&inputs, &symbols);
    let reversed = build_static_call_graph(&reversed_inputs, &symbols);

    assert_eq!(graph, reversed);
    assert_eq!(graph.nodes.len(), 4);
    assert_eq!(graph.edges.len(), 2);
    let leaf = symbols.resolve(path, "leaf").expect("leaf resolves").symbol.id;
    assert!(graph.edges.iter().all(|edge| edge.callee == leaf));
}

#[test]
fn call_graphs_ignore_function_order_where_children_share_numbers() {
    let path = "await-plan.cr";
    let symbols = AsyncSymbolIndex {
        entries: vec![
            symbol(0, "leaf", vec![(DEFINITION, path, 1)]),
            symbol(1, "twice", vec![(DEFINITION, path, 100)]),
            symbol(2, "once", vec![(DEFINITION, path, 300)]),
        ],
    };
    let twice = function(
        "twice",
        100,
        "value",
        vec![
            block(0, vec![], suspend(0, call(0, "leaf", vec![], 120), 0, 1)),
            block(1, vec![], suspend(1, call(0, "leaf", vec![], 140), 1, 2)),
            block(2, vec![], give_slot(1)),
        ],
    );
    let mut twice_plan = build_function_await_plan(&twice);
    let shared = twice_plan.children[0].id;
    let start = twice_plan.children[0].span.start_byte;
    twice_plan.children[1].id = shared;
    twice_plan.children[1].span.start_byte = start;
    twice_plan.children[0].span.end_byte = start + 7;
    twice_plan.children[1].span.end_byte = start + 5;
    let once_plan = build_function_await_plan(&direct_parent("once", 300, 0, "leaf"));
    let leaf_plan = build_function_await_plan(&leaf("leaf", 1));
    let listed = [
        (FunctionId(0), 1, &leaf_plan),
        (FunctionId(1), 100, &twice_plan),
        (FunctionId(2), 300, &once_plan),
    ];
    let graph_of = |order: [usize; 3]| {
        let inputs: Vec<_> = order
            .iter()
            .map(|index| AwaitGraphFunction {
                caller: listed[*index].0,
                translation_unit: unit(path),
                source_start: listed[*index].1,
                plan: listed[*index].2,
            })
            .collect();
        build_static_call_graph(&inputs, &symbols)
    };
    let graph = graph_of([0, 1, 2]);
    let ends: Vec<usize> =
        graph.edges.iter().take(2).map(|edge| edge.child_span.end_byte).collect();
    assert_eq!(ends, vec![start + 7, start + 5]);
    assert_eq!(graph.edges.len(), 3);
    let components = strongly_connected_components(&graph);
    for order in [[0, 2, 1], [1, 0, 2], [1, 2, 0], [2, 0, 1], [2, 1, 0]] {
        let other = graph_of(order);
        assert_eq!(other, graph);
        assert_eq!(strongly_connected_components(&other), components);
    }
    assert_eq!(graph.clone(), graph);
    assert_eq!(twice_plan.clone(), twice_plan);
}

#[test]
fn symbols_are_visible_only_in_the_unit_that_defines_them() {
    let symbols = AsyncSymbolIndex {
        entries: vec![symbol(
            0,
            "leaf",
            vec![(DECLARATION, "include/leaf.hr", 4), (DEFINITION, "src/leaf.cr", 9)],
        )],
    };
    let inside = symbols.resolve("src/leaf.cr", "leaf").expect("leaf resolves");
    assert_eq!(inside.layout_visibility, LayoutVisibility::Visible);
    let outside = symbols.resolve_id("src/parent.cr", FunctionId(0)).expect("leaf resolves");
    assert_eq!(outside.layout_visibility, LayoutVisibility::Opaque);
    assert!(symbols.resolve("src/leaf.cr", "missing").is_none());
    assert!(symbols.symbol(FunctionId(1)).is_none());
    assert!(symbols.has_site_before("src/leaf.cr", FunctionId(0), 10));
    assert!(!symbols.has_site_before("src/leaf.cr", FunctionId(0), 9));
}

#[test]
fn validation_names_the_cycle_of_embedded_children() {
    let mut first = build_function_await_plan(&direct_parent("first", 0, 1, "second"));
    let mut second = build_function_await_plan(&direct_parent("second", 50, 0, "first"));
    first.children[0].storage = AwaitStorage::Embedded(ChildSlotId(0));
    second.children[0].storage = AwaitStorage::Embedded(ChildSlotId(0));
    let inputs = vec![
        AwaitGraphFunction {
            caller: FunctionId(0),
            translation_unit: unit("mutual.cr"),
            source_start: 0,
            plan: &first,
        },
        AwaitGraphFunction {
            caller: FunctionId(1),
            translation_unit: unit("mutual.cr"),
            source_start: 50,
            plan: &second,
        },
    ];
    let codes: Vec<_> =
        validate_storage_plan(&inputs).iter().map(|diagnostic| diagnostic.code).collect();
    assert_eq!(codes, vec!["CRP5003"]);
}

#[test]
fn validation_rejects_storage_that_does_not_fit_its_target() {
    let mut plan = build_function_await_plan(&dynamic_parent("parent", 0));
    plan.children[0].storage = AwaitStorage::Boxed(TypedSlotId(0));
    let inputs = vec![AwaitGraphFunction {
        caller: FunctionId(0),
        translation_unit: unit("dynamic.cr"),
        source_start: 0,
        plan: &plan,
    }];
    let found = validate_storage_plan(&inputs);
    assert_eq!(found.len(), 1);
    assert_eq!(found[0].code, "CRP5002");
    assert_eq!(found[0].message, "await target and storage strategy are incompatible");
}
