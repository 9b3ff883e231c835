//! What holds of configurations, of where projects are, and of the functions
//! that units know.

use vstd::prelude::*;

use crate::config;
use crate::config::{
    BackendSelection, ExecutorSelection, RuntimeConfig, RuntimeSelectionError, TargetConfig,
};
use crate::project;
use crate::project::ProjectPlace;
use crate::symbol_index;
use crate::symbol_index::{AsyncLinkageKey, AsyncSymbol, FunctionId};

verus! {

/// Whether threads and sockets can be had on a target.
pub open spec fn hosted(target: TargetConfig) -> bool {
    match target {
        TargetConfig::Wasm32Wasi => false,
        TargetConfig::Custom(name) => false,
        _ => true,
    }
}

/// Whether a backend is selected twice.
pub open spec fn repeated(backends: Seq<BackendSelection>) -> bool {
    exists|i: int, j: int|
        0 <= i < j < backends.len() && #[trigger] backends[i] == #[trigger] backends[j]
}

proof fn backends_are_checked(backends: Seq<BackendSelection>, i: int, target: TargetConfig)
    requires
        0 <= i <= backends.len(),
    ensures
        ({
            let found = config::backends_problem(backends, i, target);
            let wrong = |k: int|
                (exists|j: int| 0 <= j < k && #[trigger] backends[j] == backends[k]) || (backends[k]
                    is NativeNet && !hosted(target));
            &&& found is None <==> forall|k: int|
                i <= k < backends.len() ==> !wrong(k) && #[trigger] backends[k] == backends[k]
            &&& found matches Some(problem) ==> exists|k: int|
                {
                    &&& i <= k < backends.len()
                    &&& wrong(k)
                    &&& #[trigger] backends[k] == backends[k]
                    &&& forall|h: int| i <= h < k ==> !wrong(h) && #[trigger] backends[h] == backends[h]
                    &&& if exists|j: int| 0 <= j < k && #[trigger] backends[j] == backends[k] {
                        problem == RuntimeSelectionError::DuplicateBackend(backends[k])
                    } else {
                        match target {
                            TargetConfig::Custom(name) => problem
                                == RuntimeSelectionError::NativeNetOnCustom(name),
                            _ => problem == RuntimeSelectionError::NativeNetOnWasm,
                        }
                    }
                }
        }),
    decreases backends.len() - i,
{
    if i < backends.len() {
        let before = backends.take(i);
        if before.contains(backends[i]) {
            let j = choose|j: int| 0 <= j < before.len() && before[j] == backends[i];
            assert(backends[j] == backends[i]);
        } else {
            assert forall|j: int| 0 <= j < i implies #[trigger] backends[j] != backends[i] by {
                assert(before[j] == backends[j]);
            }
        }
        assert(backends[i] == backends[i]);
        backends_are_checked(backends, i + 1, target);
        if let Some(problem) = config::backends_problem(backends, i + 1, target) {
            if config::backend_problem(backends, i, target) is None {
                let wrong = |k: int|
                    (exists|j: int| 0 <= j < k && #[trigger] backends[j] == backends[k]) || (
                    backends[k] is NativeNet && !hosted(target));
                let k = choose|k: int|
                    {
                        &&& i + 1 <= k < backends.len()
                        &&& wrong(k)
                        &&& #[trigger] backends[k] == backends[k]
                        &&& forall|h: int|
                            i + 1 <= h < k ==> !wrong(h) && #[trigger] backends[h] == backends[h]
                        &&& if exists|j: int| 0 <= j < k && #[trigger] backends[j] == backends[k] {
                            problem == RuntimeSelectionError::DuplicateBackend(backends[k])
                        } else {
                            match target {
                                TargetConfig::Custom(name) => problem
                                    == RuntimeSelectionError::NativeNetOnCustom(name),
                                _ => problem == RuntimeSelectionError::NativeNetOnWasm,
                            }
                        }
                    };
                assert(backends[k] == backends[k]);
            }
        }
    }
}

/// A runtime can be had on a target exactly if what needs threads or sockets is
/// selected only where there are some, and no backend is selected twice. Threads
/// that can't be had are reported before anything else.
pub proof fn runtimes_fit_their_target(runtime: RuntimeConfig, target: TargetConfig)
    ensures
        config::selection_problem(runtime, target) is None <==> {
            &&& runtime.executor == ExecutorSelection::NativeThreaded ==> hosted(target)
            &&& runtime.backends@.contains(BackendSelection::NativeNet) ==> hosted(target)
            &&& !repeated(runtime.backends@)
        },
        runtime.executor == ExecutorSelection::NativeThreaded && !hosted(target)
            ==> config::selection_problem(runtime, target) == Some(
            match target {
                TargetConfig::Custom(name) => RuntimeSelectionError::ThreadedExecutorOnCustom(name),
                _ => RuntimeSelectionError::ThreadedExecutorOnWasm,
            },
        ),
{
    let backends = runtime.backends@;
    backends_are_checked(backends, 0, target);
    let wrong = |k: int|
        (exists|j: int| 0 <= j < k && #[trigger] backends[j] == backends[k]) || (backends[k]
            is NativeNet && !hosted(target));
    if config::backends_problem(backends, 0, target) is None {
        assert(!repeated(backends)) by {
            if repeated(backends) {
                let (i, j) = choose|i: int, j: int|
                    0 <= i < j < backends.len() && #[trigger] backends[i]
                        == #[trigger] backends[j];
                assert(!wrong(j));
            }
        }
        if backends.contains(BackendSelection::NativeNet) {
            let k = choose|k: int|
                0 <= k < backends.len() && backends[k] == BackendSelection::NativeNet;
            assert(!wrong(k));
        }
    } else {
        let k = choose|k: int|
            0 <= k < backends.len() && wrong(k) && #[trigger] backends[k] == backends[k];
        if exists|j: int| 0 <= j < k && #[trigger] backends[j] == backends[k] {
            let j = choose|j: int| 0 <= j < k && #[trigger] backends[j] == backends[k];
            assert(repeated(backends));
        } else {
            assert(backends.contains(BackendSelection::NativeNet));
        }
    }
}

proof fn ancestors_are_searched(holds_config: Seq<bool>, i: int)
    requires
        0 <= i <= holds_config.len(),
    ensures
        match project::nearest_ancestor(holds_config, i) {
            Some(k) => i <= k < holds_config.len() && holds_config[k] && forall|j: int|
                i <= j < k ==> !#[trigger] holds_config[j],
            None => forall|j: int| i <= j < holds_config.len() ==> !#[trigger] holds_config[j],
        },
    decreases holds_config.len() - i,
{
    if i < holds_config.len() && !holds_config[i] {
        ancestors_are_searched(holds_config, i + 1);
    }
}

/// The configuration of a project is where it was said to be: at an absolute
/// path, and else at the start if it is there or has a name of its own. One with
/// the default name that isn't at the start is that of the nearest directory
/// above that has one, and the start if none has.
pub proof fn projects_are_found_above(
    absolute: bool,
    default_name: bool,
    direct_exists: bool,
    holds_config: Seq<bool>,
    k: int,
)
    requires
        holds_config.len() <= usize::MAX,
    ensures
        ({
            let place = project::place_of_project(
                absolute,
                default_name,
                direct_exists,
                holds_config,
            );
            &&& absolute ==> place == ProjectPlace::Configured
            &&& !absolute && (direct_exists || !default_name) ==> place == ProjectPlace::Start
            &&& !absolute && default_name && !direct_exists ==> {
                &&& 0 <= k < holds_config.len() && holds_config[k] && (forall|j: int|
                    0 <= j < k ==> !#[trigger] holds_config[j]) ==> place
                    == ProjectPlace::Ancestor(k as usize)
                &&& (forall|j: int| 0 <= j < holds_config.len() ==> !#[trigger] holds_config[j])
                    ==> place == ProjectPlace::Start
            }
        }),
{
    ancestors_are_searched(holds_config, 0);
}

/// A function is found by its identity: the one that is found has it and no
/// earlier one has, and if none is found, none has.
pub proof fn functions_are_found_by_identity(entries: Seq<AsyncSymbol>, id: FunctionId, i: int)
    requires
        0 <= i <= entries.len(),
    ensures
        match symbol_index::symbol_position(entries, id, i) {
            Some(k) => i <= k < entries.len() && entries[k].id == id && forall|j: int|
                i <= j < k ==> (#[trigger] entries[j]).id != id,
            None => forall|j: int| i <= j < entries.len() ==> (#[trigger] entries[j]).id != id,
        },
    decreases entries.len() - i,
{
    if i < entries.len() && entries[i].id != id {
        functions_are_found_by_identity(entries, id, i + 1);
    }
}

/// Whether a unit can call a function by a name: every unit can call a function
/// with external linkage, and only its own unit one with internal linkage.
pub open spec fn callable(entry: AsyncSymbol, unit: Seq<char>, name: Seq<char>) -> bool {
    match entry.key {
        AsyncLinkageKey::External { name: own } => own@ == name,
        AsyncLinkageKey::Internal { translation_unit, name: own } => own@ == name
            && translation_unit.0@ == unit,
    }
}

/// A function is found by its name where it can be called: the one that is found
/// can be called and no earlier one can, and if none is found, none can.
pub proof fn functions_are_found_by_name(
    entries: Seq<AsyncSymbol>,
    unit: Seq<char>,
    name: Seq<char>,
    i: int,
)
    requires
        0 <= i <= entries.len(),
    ensures
        match symbol_index::name_position(entries, unit, name, i) {
            Some(k) => i <= k < entries.len() && callable(entries[k], unit, name) && forall|j: int|
                i <= j < k ==> !callable(#[trigger] entries[j], unit, name),
            None => forall|j: int|
                i <= j < entries.len() ==> !callable(#[trigger] entries[j], unit, name),
        },
    decreases entries.len() - i,
{
    if i < entries.len() && !callable(entries[i], unit, name) {
        functions_are_found_by_name(entries, unit, name, i + 1);
    }
}

} // verus!
