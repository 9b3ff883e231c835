//! Project configuration and its runtime rules.

use vstd::prelude::*;

use crate::text::put3;

verus! {

/// Returns the number of logical processors, which is at least one.
///
/// Specifies `num_cpus::get`. How many there are depends on the machine and is
/// left open.
pub assume_specification[ num_cpus::get ]() -> (r: usize)
    ensures
        r >= 1,
;

/// The whole configuration of a project.
#[derive(Debug, Clone, PartialEq, Eq)]
pub struct Config {
    pub project: ProjectConfig,
    pub build: BuildConfig,
    pub runtime: RuntimeConfig,
    pub preprocessor: PreprocessorConfig,
    pub watch: WatchConfig,
    pub codegen: CodegenConfig,
}

/// Names and directories of a project.
#[derive(Debug, Clone, PartialEq, Eq)]
pub struct ProjectConfig {
    pub name: String,
    pub version: String,
    /// Where the CR sources are.
    pub crate_dir: String,
    /// Where generated files go.
    pub dist_dir: String,
    /// Where the C headers are.
    pub include_dir: String,
    /// Where the C sources are.
    pub src_dir: String,
}

/// How generated code is built.
#[derive(Debug, Clone, PartialEq, Eq)]
pub struct BuildConfig {
    pub target: TargetConfig,
    pub optimization: OptimizationLevel,
    pub debug_info: bool,
    pub warnings_as_errors: bool,
    pub c_standard: CStandard,
    /// Where the runtime library is.
    pub crt_runtime_path: Option<String>,
}

/// What the runtime consists of.
#[derive(Debug, Clone, PartialEq, Eq)]
pub struct RuntimeConfig {
    pub executor: ExecutorSelection,
    pub backends: Vec<BackendSelection>,
}

/// Who runs tasks.
#[derive(Debug, Clone, Copy, PartialEq, Eq, Structural)]
pub enum ExecutorSelection {
    Manual,
    SingleThread,
    NativeThreaded,
}

/// Who performs operations that tasks wait for.
#[derive(Debug, Clone, Copy, PartialEq, Eq, Hash, Structural)]
pub enum BackendSelection {
    MemoryConformance,
    NativeNet,
}

/// How sources are preprocessed.
#[derive(Debug, Clone, PartialEq, Eq)]
pub struct PreprocessorConfig {
    pub enabled: bool,
    pub command: Option<String>,
    pub include_paths: Vec<String>,
    pub defines: Vec<String>,
    pub forced_includes: Vec<String>,
}

/// What generated code runs on.
#[derive(Debug, PartialEq, Eq)]
pub enum TargetConfig {
    Host,
    WindowsMsvc,
    WindowsGnu,
    LinuxGnu,
    LinuxMusl,
    Macos,
    Wasm32Wasi,
    Custom(String),
}

/// What the layout of task contexts is optimized for.
#[derive(Debug, Clone, Copy, PartialEq, Eq, Structural)]
pub enum OptimizationLevel {
    Off,
    Size,
    Speed,
    Aggressive,
}

/// Which C standard generated code follows.
#[derive(Debug, Clone, Copy, PartialEq, Eq, Structural)]
pub enum CStandard {
    C89,
    C99,
    C11,
    C17,
    C23,
}

/// How sources are watched.
#[derive(Debug, Clone, PartialEq, Eq)]
pub struct WatchConfig {
    pub enabled: bool,
    pub debounce_ms: u64,
    pub ignore_patterns: Vec<String>,
    pub parallel_jobs: usize,
}

/// How generated names look and states are dispatched.
#[derive(Debug, Clone, PartialEq, Eq)]
pub struct CodegenConfig {
    pub prefix: String,
    pub context_name: String,
    pub computed_goto: bool,
}

impl Clone for TargetConfig {
    fn clone(&self) -> (r: Self)
        ensures
            r == *self,
    {
        match self {
            TargetConfig::Host => TargetConfig::Host,
            TargetConfig::WindowsMsvc => TargetConfig::WindowsMsvc,
            TargetConfig::WindowsGnu => TargetConfig::WindowsGnu,
            TargetConfig::LinuxGnu => TargetConfig::LinuxGnu,
            TargetConfig::LinuxMusl => TargetConfig::LinuxMusl,
            TargetConfig::Macos => TargetConfig::Macos,
            TargetConfig::Wasm32Wasi => TargetConfig::Wasm32Wasi,
            TargetConfig::Custom(name) => TargetConfig::Custom(name.clone()),
        }
    }
}

impl Default for TargetConfig {
    fn default() -> (r: Self)
        ensures
            r == TargetConfig::Host,
    {
        TargetConfig::Host
    }
}

impl Default for OptimizationLevel {
    fn default() -> (r: Self)
        ensures
            r == OptimizationLevel::Off,
    {
        OptimizationLevel::Off
    }
}

impl Default for CStandard {
    fn default() -> (r: Self)
        ensures
            r == CStandard::C11,
    {
        CStandard::C11
    }
}

impl Default for ExecutorSelection {
    fn default() -> (r: Self)
        ensures
            r == ExecutorSelection::Manual,
    {
        ExecutorSelection::Manual
    }
}

impl Default for RuntimeConfig {
    fn default() -> (r: Self)
        ensures
            r.executor == ExecutorSelection::Manual,
            r.backends@ == Seq::<BackendSelection>::empty(),
    {
        RuntimeConfig { executor: ExecutorSelection::Manual, backends: Vec::new() }
    }
}

impl Default for BuildConfig {
    fn default() -> (r: Self)
        ensures
            r.target == TargetConfig::Host,
            r.optimization == OptimizationLevel::Off,
            !r.debug_info,
            !r.warnings_as_errors,
            r.c_standard == CStandard::C11,
            r.crt_runtime_path is None,
    {
        BuildConfig {
            target: TargetConfig::Host,
            optimization: OptimizationLevel::Off,
            debug_info: false,
            warnings_as_errors: false,
            c_standard: CStandard::C11,
            crt_runtime_path: None,
        }
    }
}

impl Default for WatchConfig {
    fn default() -> (r: Self)
        ensures
            !r.enabled,
            r.debounce_ms == 0,
            r.ignore_patterns@ == Seq::<String>::empty(),
            r.parallel_jobs == 0,
    {
        WatchConfig {
            enabled: false,
            debounce_ms: 0,
            ignore_patterns: Vec::new(),
            parallel_jobs: 0,
        }
    }
}

impl Default for CodegenConfig {
    fn default() -> (r: Self)
        ensures
            r.prefix@ == Seq::<char>::empty(),
            r.context_name@ == Seq::<char>::empty(),
            !r.computed_goto,
    {
        CodegenConfig {
            prefix: String::new(),
            context_name: String::new(),
            computed_goto: false,
        }
    }
}

/// Whether a preprocessor configuration is the one used by default: off, with
/// the include directories of a project.
pub open spec fn default_preprocessor(config: PreprocessorConfig) -> bool {
    &&& !config.enabled
    &&& config.command is None
    &&& config.include_paths@.len() == 2
    &&& config.include_paths@[0]@ == "crc/include"@
    &&& config.include_paths@[1]@ == "include"@
    &&& config.defines@ == Seq::<String>::empty()
    &&& config.forced_includes@ == Seq::<String>::empty()
}

impl Default for PreprocessorConfig {
    fn default() -> (r: Self)
        ensures
            default_preprocessor(r),
    {
        let mut include_paths: Vec<String> = Vec::new();
        include_paths.push("crc/include".to_owned());
        include_paths.push("include".to_owned());
        PreprocessorConfig {
            enabled: false,
            command: None,
            include_paths,
            defines: Vec::new(),
            forced_includes: Vec::new(),
        }
    }
}

/// Whether a configuration is the one of a new project with `jobs` parallel
/// jobs.
pub open spec fn default_config(config: Config, jobs: usize) -> bool {
    &&& config.project.name@ == "my-cr-project"@
    &&& config.project.version@ == "0.1.0"@
    &&& config.project.crate_dir@ == "crc/src"@
    &&& config.project.dist_dir@ == "crc/dist"@
    &&& config.project.include_dir@ == "crc/include"@
    &&& config.project.src_dir@ == "src"@
    &&& config.build.target == TargetConfig::Host
    &&& config.build.optimization == OptimizationLevel::Speed
    &&& config.build.debug_info
    &&& !config.build.warnings_as_errors
    &&& config.build.c_standard == CStandard::C11
    &&& config.build.crt_runtime_path is None
    &&& config.runtime.executor == ExecutorSelection::Manual
    &&& config.runtime.backends@ == Seq::<BackendSelection>::empty()
    &&& default_preprocessor(config.preprocessor)
    &&& config.watch.enabled
    &&& config.watch.debounce_ms == 50
    &&& config.watch.ignore_patterns@.len() == 2
    &&& config.watch.ignore_patterns@[0]@ == "**/target/**"@
    &&& config.watch.ignore_patterns@[1]@ == "**/.git/**"@
    &&& config.watch.parallel_jobs == jobs
    &&& config.codegen.prefix@ == "cr_"@
    &&& config.codegen.context_name@ == "ctx"@
    &&& !config.codegen.computed_goto
}

impl Default for Config {
    fn default() -> (r: Self)
        ensures
            default_config(r, r.watch.parallel_jobs),
            r.watch.parallel_jobs >= 1,
    {
        Config::with_jobs(num_cpus::get())
    }
}

/// Why a runtime selection can't be built.
#[derive(Debug, PartialEq, Eq)]
pub enum RuntimeSelectionError {
    ThreadedExecutorOnWasm,
    ThreadedExecutorOnCustom(String),
    DuplicateBackend(BackendSelection),
    NativeNetOnWasm,
    NativeNetOnCustom(String),
}

/// Whether a target has threads and sockets of an operating system.
pub open spec fn is_native(target: TargetConfig) -> bool {
    !(target is Wasm32Wasi) && !(target is Custom)
}

/// What is wrong with the executor on a target.
pub open spec fn executor_problem(
    executor: ExecutorSelection,
    target: TargetConfig,
) -> Option<RuntimeSelectionError> {
    if executor != ExecutorSelection::NativeThreaded {
        None
    } else {
        match target {
            TargetConfig::Wasm32Wasi => Some(RuntimeSelectionError::ThreadedExecutorOnWasm),
            TargetConfig::Custom(name) => Some(
                RuntimeSelectionError::ThreadedExecutorOnCustom(name),
            ),
            _ => None,
        }
    }
}

/// What is wrong with backend `i` on a target.
pub open spec fn backend_problem(
    backends: Seq<BackendSelection>,
    i: int,
    target: TargetConfig,
) -> Option<RuntimeSelectionError> {
    if backends.take(i).contains(backends[i]) {
        Some(RuntimeSelectionError::DuplicateBackend(backends[i]))
    } else if backends[i] != BackendSelection::NativeNet {
        None
    } else {
        match target {
            TargetConfig::Wasm32Wasi => Some(RuntimeSelectionError::NativeNetOnWasm),
            TargetConfig::Custom(name) => Some(RuntimeSelectionError::NativeNetOnCustom(name)),
            _ => None,
        }
    }
}

/// The first problem among the backends from `i` on.
pub open spec fn backends_problem(
    backends: Seq<BackendSelection>,
    i: int,
    target: TargetConfig,
) -> Option<RuntimeSelectionError>
    decreases backends.len() - i,
{
    if i < 0 || i >= backends.len() {
        None
    } else {
        match backend_problem(backends, i, target) {
            Some(problem) => Some(problem),
            None => backends_problem(backends, i + 1, target),
        }
    }
}

/// The first problem of a runtime selection: the executor comes before the
/// backends, and those in declared order.
pub open spec fn selection_problem(runtime: RuntimeConfig, target: TargetConfig) -> Option<
    RuntimeSelectionError,
> {
    match executor_problem(runtime.executor, target) {
        Some(problem) => Some(problem),
        None => backends_problem(runtime.backends@, 0, target),
    }
}

/// A runtime selection that can be built.
#[derive(Debug, Clone, PartialEq, Eq)]
pub struct ValidatedRuntimeSelection {
    pub executor: ExecutorSelection,
    pub backends: Vec<BackendSelection>,
}

impl BackendSelection {
    /// The name of the backend.
    pub open spec fn name(self) -> Seq<char> {
        match self {
            BackendSelection::MemoryConformance => "memory-conformance"@,
            BackendSelection::NativeNet => "native-net"@,
        }
    }

    /// Returns the name of the backend in configuration files.
    pub fn as_str(self) -> (r: &'static str)
        ensures
            r@ == self.name(),
    {
        match self {
            BackendSelection::MemoryConformance => "memory-conformance",
            BackendSelection::NativeNet => "native-net",
        }
    }
}

impl RuntimeSelectionError {
    /// The text of the error.
    pub open spec fn text(self) -> Seq<char> {
        match self {
            RuntimeSelectionError::ThreadedExecutorOnWasm =>
                "runtime executor `native-threaded` is unsupported for target `wasm32-wasi`"@,
            RuntimeSelectionError::ThreadedExecutorOnCustom(target) => Seq::<char>::empty()
                + "runtime executor `native-threaded` is unsupported for custom target `"@ + target@
                + "`"@,
            RuntimeSelectionError::DuplicateBackend(backend) => Seq::<char>::empty()
                + "duplicate runtime backend selection `"@ + backend.name() + "`"@,
            RuntimeSelectionError::NativeNetOnWasm =>
                "runtime backend `native-net` is unsupported for target `wasm32-wasi`"@,
            RuntimeSelectionError::NativeNetOnCustom(target) => Seq::<char>::empty()
                + "runtime backend `native-net` is unsupported for custom target `"@ + target@
                + "`"@,
        }
    }

    /// Renders the error for a reader.
    pub fn message(&self) -> (r: String)
        ensures
            r@ == self.text(),
    {
        let mut out = String::new();
        assert(out@ =~= Seq::empty());
        match self {
            RuntimeSelectionError::ThreadedExecutorOnWasm => {
                "runtime executor `native-threaded` is unsupported for target `wasm32-wasi`".to_owned()
            },
            RuntimeSelectionError::ThreadedExecutorOnCustom(target) => {
                put3(
                    &mut out,
                    "runtime executor `native-threaded` is unsupported for custom target `",
                    target.as_str(),
                    "`",
                );
                out
            },
            RuntimeSelectionError::DuplicateBackend(backend) => {
                put3(
                    &mut out,
                    "duplicate runtime backend selection `",
                    backend.as_str(),
                    "`",
                );
                out
            },
            RuntimeSelectionError::NativeNetOnWasm => {
                "runtime backend `native-net` is unsupported for target `wasm32-wasi`".to_owned()
            },
            RuntimeSelectionError::NativeNetOnCustom(target) => {
                put3(
                    &mut out,
                    "runtime backend `native-net` is unsupported for custom target `",
                    target.as_str(),
                    "`",
                );
                out
            },
        }
    }
}

fn occurs_before(backends: &Vec<BackendSelection>, i: usize) -> (r: bool)
    requires
        i < backends@.len(),
    ensures
        r == backends@.take(i as int).contains(backends@[i as int]),
{
    let mut k: usize = 0;
    while k < i
        invariant
            k <= i < backends@.len(),
            forall|j: int| 0 <= j < k ==> backends@[j] != backends@[i as int],
        decreases i - k,
    {
        if backends[k] == backends[i] {
            assert(backends@.take(i as int)[k as int] == backends@[i as int]);
            return true;
        }
        k += 1;
    }
    false
}

impl Config {
    /// Returns the configuration of a new project with `jobs` parallel jobs.
    pub fn with_jobs(jobs: usize) -> (r: Config)
        ensures
            default_config(r, jobs),
    {
        let mut ignore_patterns: Vec<String> = Vec::new();
        ignore_patterns.push("**/target/**".to_owned());
        ignore_patterns.push("**/.git/**".to_owned());
        Config {
            project: ProjectConfig {
                name: "my-cr-project".to_owned(),
                version: "0.1.0".to_owned(),
                crate_dir: "crc/src".to_owned(),
                dist_dir: "crc/dist".to_owned(),
                include_dir: "crc/include".to_owned(),
                src_dir: "src".to_owned(),
            },
            build: BuildConfig {
                target: TargetConfig::Host,
                optimization: OptimizationLevel::Speed,
                debug_info: true,
                warnings_as_errors: false,
                c_standard: CStandard::C11,
                crt_runtime_path: None,
            },
            runtime: RuntimeConfig::default(),
            preprocessor: PreprocessorConfig::default(),
            watch: WatchConfig {
                enabled: true,
                debounce_ms: 50,
                ignore_patterns,
                parallel_jobs: jobs,
            },
            codegen: CodegenConfig {
                prefix: "cr_".to_owned(),
                context_name: "ctx".to_owned(),
                computed_goto: false,
            },
        }
    }

    /// Checks that the target supports the selected executor and backends.
    pub fn validate_runtime_target(&self) -> (r: Result<(), RuntimeSelectionError>)
        ensures
            match r {
                Ok(done) => selection_problem(self.runtime, self.build.target) is None,
                Err(error) => selection_problem(self.runtime, self.build.target) == Some(error),
            },
    {
        match self.validated_runtime_selection() {
            Ok(selection) => Ok(()),
            Err(error) => Err(error),
        }
    }

    /// Returns the selected executor and backends if the target supports them.
    pub fn validated_runtime_selection(&self) -> (r: Result<
        ValidatedRuntimeSelection,
        RuntimeSelectionError,
    >)
        ensures
            match r {
                Ok(selection) => selection_problem(self.runtime, self.build.target) is None
                    && selection.executor == self.runtime.executor && selection.backends@
                    == self.runtime.backends@,
                Err(error) => selection_problem(self.runtime, self.build.target) == Some(error),
            },
    {
        if self.runtime.executor == ExecutorSelection::NativeThreaded {
            match &self.build.target {
                TargetConfig::Wasm32Wasi => {
                    return Err(RuntimeSelectionError::ThreadedExecutorOnWasm);
                },
                TargetConfig::Custom(target) => {
                    return Err(RuntimeSelectionError::ThreadedExecutorOnCustom(target.clone()));
                },
                _ => {},
            }
        }
        let mut i: usize = 0;
        while i < self.runtime.backends.len()
            invariant
                i <= self.runtime.backends@.len(),
                executor_problem(self.runtime.executor, self.build.target) is None,
                backends_problem(self.runtime.backends@, 0, self.build.target)
                    == backends_problem(self.runtime.backends@, i as int, self.build.target),
            decreases self.runtime.backends@.len() - i,
        {
            let backend = self.runtime.backends[i];
            if occurs_before(&self.runtime.backends, i) {
                return Err(RuntimeSelectionError::DuplicateBackend(backend));
            }
            if backend == BackendSelection::NativeNet {
                match &self.build.target {
                    TargetConfig::Wasm32Wasi => {
                        return Err(RuntimeSelectionError::NativeNetOnWasm);
                    },
                    TargetConfig::Custom(target) => {
                        return Err(RuntimeSelectionError::NativeNetOnCustom(target.clone()));
                    },
                    _ => {},
                }
            }
            i += 1;
        }
        let backends = self.runtime.backends.clone();
        assert(backends@ =~= self.runtime.backends@);
        Ok(ValidatedRuntimeSelection { executor: self.runtime.executor, backends })
    }
}

proof fn backends_problem_none(backends: Seq<BackendSelection>, i: int, target: TargetConfig)
    requires
        0 <= i <= backends.len(),
    ensures
        backends_problem(backends, i, target) is None <==> forall|k: int|
            i <= k < backends.len() ==> !backends.take(k).contains(#[trigger] backends[k]) && (
            backends[k] == BackendSelection::NativeNet ==> is_native(target)),
    decreases backends.len() - i,
{
    if i < backends.len() {
        backends_problem_none(backends, i + 1, target);
        assert(backend_problem(backends, i, target) is None <==> !backends.take(i).contains(
            backends[i],
        ) && (backends[i] == BackendSelection::NativeNet ==> is_native(target)));
    }
}

/// A runtime selection is valid exactly when no backend is selected twice, and
/// threads and sockets are selected for native targets only.
pub proof fn selection_valid_iff(runtime: RuntimeConfig, target: TargetConfig)
    ensures
        selection_problem(runtime, target) is None <==> {
            &&& runtime.executor == ExecutorSelection::NativeThreaded ==> is_native(target)
            &&& runtime.backends@.contains(BackendSelection::NativeNet) ==> is_native(target)
            &&& runtime.backends@.no_duplicates()
        },
{
    let backends = runtime.backends@;
    backends_problem_none(backends, 0, target);
    if backends.no_duplicates() {
        assert forall|k: int| 0 <= k < backends.len() implies !backends.take(k).contains(
            #[trigger] backends[k],
        ) by {
            if backends.take(k).contains(backends[k]) {
                let j = choose|j: int| 0 <= j < k && backends.take(k)[j] == backends[k];
                assert(backends[j] == backends[k]);
            }
        }
    }
    if backends_problem(backends, 0, target) is None {
        assert forall|i: int, j: int| 0 <= i < backends.len() && 0 <= j < backends.len() && i
            != j implies backends[i] != backends[j] by {
            let (a, b) = if i < j {
                (i, j)
            } else {
                (j, i)
            };
            assert(!backends.take(b).contains(backends[b]));
            assert(backends.take(b)[a] == backends[a]);
        }
    }
    if backends.contains(BackendSelection::NativeNet) && backends_problem(
        backends,
        0,
        target,
    ) is None {
        let k = choose|k: int| 0 <= k < backends.len() && backends[k] == BackendSelection::NativeNet;
        assert(backends[k] == BackendSelection::NativeNet ==> is_native(target));
    }
    assert forall|k: int| 0 <= k < backends.len() && #[trigger] backends[k]
        == BackendSelection::NativeNet implies backends.contains(BackendSelection::NativeNet) by {}
}

} // verus!
