//! Project configuration and project names.

use crc::config::{
    BackendSelection, CStandard, Config, ExecutorSelection, OptimizationLevel, TargetConfig,
};
use crc::project::{choose_project, validate_project_name, ProjectPlace};

#[test]
fn backend_target_validation_preserves_portable_and_native_boundaries() {
    for target in [
        TargetConfig::Host,
        TargetConfig::WindowsMsvc,
        TargetConfig::WindowsGnu,
        TargetConfig::LinuxGnu,
        TargetConfig::LinuxMusl,
        TargetConfig::Macos,
        TargetConfig::Wasm32Wasi,
        TargetConfig::Custom("portable-vendor".to_owned()),
    ] {
        let mut config = Config::default();
        config.build.target = target;
        config.runtime.backends = vec![BackendSelection::MemoryConformance];
        assert!(config.validate_runtime_target().is_ok());
    }

    for target in [
        TargetConfig::Host,
        TargetConfig::WindowsMsvc,
        TargetConfig::WindowsGnu,
        TargetConfig::LinuxGnu,
        TargetConfig::LinuxMusl,
        TargetConfig::Macos,
    ] {
        let mut config = Config::default();
        config.build.target = target;
        config.runtime.backends = vec![BackendSelection::NativeNet];
        assert!(config.validate_runtime_target().is_ok());
    }

    for target in [TargetConfig::Wasm32Wasi, TargetConfig::Custom("unknown-vendor".to_owned())] {
        let mut config = Config::default();
        config.build.target = target;
        config.runtime.backends = vec![BackendSelection::NativeNet];
        assert!(config.validate_runtime_target().is_err());
    }
}

#[test]
fn duplicate_backend_selections_are_rejected_before_planning() {
    for backend in [BackendSelection::MemoryConformance, BackendSelection::NativeNet] {
        let mut config = Config::default();
        config.runtime.backends = vec![backend, backend];
        let error = config
            .validate_runtime_target()
            .expect_err("duplicate selection must fail");
        let message = error.message();
        assert!(message.contains("duplicate"), "{message}");
        assert!(message.contains(backend.as_str()), "{message}");
    }
}

#[test]
fn executor_target_validation_preserves_portable_and_native_boundaries() {
    for target in [
        TargetConfig::Host,
        TargetConfig::WindowsMsvc,
        TargetConfig::WindowsGnu,
        TargetConfig::LinuxGnu,
        TargetConfig::LinuxMusl,
        TargetConfig::Macos,
        TargetConfig::Wasm32Wasi,
        TargetConfig::Custom("portable-vendor".to_owned()),
    ] {
        for executor in [ExecutorSelection::Manual, ExecutorSelection::SingleThread] {
            let mut config = Config::default();
            config.build.target = target.clone();
            config.runtime.executor = executor;
            assert!(config.validate_runtime_target().is_ok(), "{target:?}");
        }
    }

    for target in [
        TargetConfig::Host,
        TargetConfig::WindowsMsvc,
        TargetConfig::WindowsGnu,
        TargetConfig::LinuxGnu,
        TargetConfig::LinuxMusl,
        TargetConfig::Macos,
    ] {
        let mut config = Config::default();
        config.build.target = target;
        config.runtime.executor = ExecutorSelection::NativeThreaded;
        assert!(config.validate_runtime_target().is_ok());
    }

    for target in [TargetConfig::Wasm32Wasi, TargetConfig::Custom("unknown-vendor".to_owned())] {
        let mut config = Config::default();
        config.build.target = target;
        config.runtime.executor = ExecutorSelection::NativeThreaded;
        assert!(config.validate_runtime_target().is_err());
    }
}

#[test]
fn runtime_errors_name_what_is_unsupported() {
    let mut config = Config::default();
    config.build.target = TargetConfig::Wasm32Wasi;
    config.runtime.executor = ExecutorSelection::NativeThreaded;
    assert_eq!(
        config.validate_runtime_target().expect_err("unsupported").message(),
        "runtime executor `native-threaded` is unsupported for target `wasm32-wasi`"
    );

    config.build.target = TargetConfig::Custom("vendor".to_owned());
    assert_eq!(
        config.validate_runtime_target().expect_err("unsupported").message(),
        "runtime executor `native-threaded` is unsupported for custom target `vendor`"
    );

    config.runtime.executor = ExecutorSelection::Manual;
    config.runtime.backends = vec![BackendSelection::NativeNet];
    assert_eq!(
        config.validate_runtime_target().expect_err("unsupported").message(),
        "runtime backend `native-net` is unsupported for custom target `vendor`"
    );

    config.build.target = TargetConfig::Wasm32Wasi;
    assert_eq!(
        config.validate_runtime_target().expect_err("unsupported").message(),
        "runtime backend `native-net` is unsupported for target `wasm32-wasi`"
    );

    config.build.target = TargetConfig::Host;
    config.runtime.backends = vec![
        BackendSelection::MemoryConformance,
        BackendSelection::NativeNet,
        BackendSelection::MemoryConformance,
    ];
    assert_eq!(
        config.validate_runtime_target().expect_err("duplicate").message(),
        "duplicate runtime backend selection `memory-conformance`"
    );
}

#[test]
fn accepted_selections_keep_their_declared_order() {
    let mut config = Config::default();
    config.runtime.backends =
        vec![BackendSelection::NativeNet, BackendSelection::MemoryConformance];
    let selection = config.validated_runtime_selection().expect("host supports both");
    assert_eq!(selection.executor, ExecutorSelection::Manual);
    assert_eq!(
        selection.backends,
        vec![BackendSelection::NativeNet, BackendSelection::MemoryConformance]
    );
}

#[test]
fn default_configuration_has_the_documented_values() {
    let config = Config::default();
    assert_eq!(config.project.name, "my-cr-project");
    assert_eq!(config.project.version, "0.1.0");
    assert_eq!(config.project.crate_dir, "crc/src");
    assert_eq!(config.project.dist_dir, "crc/dist");
    assert_eq!(config.project.include_dir, "crc/include");
    assert_eq!(config.project.src_dir, "src");
    assert_eq!(config.build.target, TargetConfig::Host);
    assert_eq!(config.build.optimization, OptimizationLevel::Speed);
    assert!(config.build.debug_info);
    assert!(!config.build.warnings_as_errors);
    assert_eq!(config.build.c_standard, CStandard::C11);
    assert_eq!(config.build.crt_runtime_path, None);
    assert_eq!(config.runtime.executor, ExecutorSelection::Manual);
    assert!(config.runtime.backends.is_empty());
    assert_eq!(config.watch.debounce_ms, 50);
    assert_eq!(config.watch.ignore_patterns, vec!["**/target/**", "**/.git/**"]);
    assert!(config.watch.parallel_jobs >= 1);
    assert_eq!(config.watch.parallel_jobs, num_cpus::get());
    assert_eq!(config.codegen.prefix, "cr_");
    assert_eq!(config.codegen.context_name, "ctx");
    assert!(!config.codegen.computed_goto);
    assert!(!config.preprocessor.enabled);
    assert_eq!(config.preprocessor.include_paths, vec!["crc/include", "include"]);
}

#[test]
fn rejects_project_names_that_can_escape_templates() {
    assert!(validate_project_name("valid-project_2").is_ok());
    assert!(validate_project_name("bad\"name").is_err());
    assert!(validate_project_name("../bad").is_err());
}

#[test]
fn project_names_are_ascii_and_not_empty() {
    assert!(validate_project_name("").is_err());
    assert!(validate_project_name("naïve").is_err());
    assert!(validate_project_name("a b").is_err());
    assert!(validate_project_name("A").is_ok());
}

#[test]
fn the_nearest_parent_configuration_is_chosen() {
    assert_eq!(
        choose_project(false, true, false, &vec![false, true, true]),
        ProjectPlace::Ancestor(1)
    );
    assert_eq!(choose_project(false, true, false, &vec![false, false]), ProjectPlace::Start);
    assert_eq!(choose_project(false, true, true, &vec![true]), ProjectPlace::Start);
    assert_eq!(choose_project(false, false, false, &vec![true]), ProjectPlace::Start);
    assert_eq!(choose_project(true, false, false, &vec![true]), ProjectPlace::Configured);
}

#[test]
fn rejected_project_names_are_named() {
    let error = validate_project_name("../bad").expect_err("name escapes");
    assert_eq!(
        error.message(),
        "project name must contain only ASCII letters, digits, '_' or '-': ../bad"
    );
}
