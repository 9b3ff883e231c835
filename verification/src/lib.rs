//! Plans and emits C for asynchronous functions.
//!
//! A translation unit comes in with its control flow and liveness. The crate
//! plans where awaited children live, lays out the context of every task,
//! checks the layouts, and writes portable C that preserves the rest of the
//! source.

// Foundations.
pub mod graph;
pub mod order;
pub mod syntax;
pub mod text;
pub mod text_laws;

// What a translation unit consists of.
pub mod control_flow;
pub mod coroutine;
pub mod liveness;
pub mod semantic;
pub mod slot_liveness;
pub mod symbol_index;

// Configuration of a project.
pub mod config;
pub mod project;
pub mod project_laws;

// Awaited children and where they live.
pub mod await_graph;
pub mod await_laws;
pub mod await_plan;
pub mod await_plan_laws;
pub mod await_storage;
pub mod awaited_laws;

// What C can see of a child, and where task layouts stand.
pub mod c_declaration_env;
pub mod c_layout_laws;
pub mod c_layout_order;
pub mod c_static_plan;
pub mod environment_laws;
pub mod plan_laws;

// Contexts of tasks.
pub mod context_laws;
pub mod context_layout;
pub mod context_types;
pub mod identity_layout;
pub mod layout_check;
pub mod layout_check_laws;
pub mod layout_knowledge;
pub mod layout_passes;
pub mod placement;
pub mod placement_laws;
pub mod sharing_laws;
pub mod size_layout;
pub mod slot_merging;
pub mod slot_sharing;
pub mod speed_layout;
pub mod storage_laws;
pub mod storage_lifetimes;
pub mod target_laws;
pub mod target_layout;
pub mod type_laws;

// Why contexts are sound.
pub mod context_soundness;
pub mod layout_soundness;
pub mod level_laws;
pub mod order_laws;
pub mod size_soundness;
pub mod speed_soundness;

// Why sharing storage pays.
pub mod color_sums;
pub mod known_sizes;
pub mod merged_bounds;
pub mod size_laws;
pub mod size_levels;
pub mod size_rounds;
pub mod speed_levels;

// The C of a unit.
pub mod built_emission_laws;
pub mod c_emitter;
pub mod c_expression;
pub mod c_function_text;
pub mod c_instruction;
pub mod c_runtime_text;
pub mod c_source;
pub mod c_suspend;
pub mod c_symbols;
pub mod c_task;
pub mod c_terminator;
pub mod composition_laws;
pub mod emission_laws;
pub mod unit_laws;

// What generated C does.
pub mod awaitable_code;
pub mod awaitable_laws;
pub mod awaitable_text_laws;
pub mod binding_laws;
pub mod c_meaning;
pub mod declaration_laws;
pub mod ending_laws;
pub mod function_laws;
pub mod instruction_laws;
pub mod reach_laws;
pub mod rewriting_laws;
pub mod surface_laws;
pub mod suspension_laws;
pub mod task_laws;
pub mod wait_code;
pub mod wait_laws;
pub mod wait_text_laws;

// Runtime files that generated C is built with.
pub mod backend_abi;
pub mod backend_runtime;
