//! Native backend headers and files.

use crc::backend_abi::{
    backend_header, net_header, CR_BACKEND_ABI_VERSION, CR_BACKEND_CORE_ID_HIGH,
    CR_BACKEND_CORE_ID_LOW, CR_BACKEND_EXPERIMENTAL_ABI_VERSION, CR_NET_ABI_VERSION,
    CR_NET_EXPERIMENTAL_ABI_VERSION, CR_NET_RECEIVE_EXTENSION_ID_HIGH,
    CR_NET_RECEIVE_EXTENSION_ID_LOW,
};
use crc::backend_runtime::{
    common_artifacts, epoll_net_awaitable_artifacts, iocp_net_awaitable_artifacts,
    kqueue_net_awaitable_artifacts, memory_artifacts, memory_net_awaitable_artifacts,
    native_net_artifacts_for_target, net_awaitable_artifact, HostSystem,
};
use crc::config::TargetConfig;

#[test]
fn headers_publish_stable_v1_and_keep_runtime_objects_opaque() {
    let backend = backend_header();
    let net = net_header();
    assert!(backend.contains("CR_BACKEND_ABI_VERSION 1u"));
    assert!(backend.contains("CR_STABLE_BACKEND_V1_BEGIN"));
    assert!(backend.contains("CR_STABLE_BACKEND_V1_END"));
    assert!(backend.contains("typedef struct cr_extension_id"));
    assert!(backend.contains("CR_BACKEND_PROVIDER_DESC_PREFIX_SIZE"));
    assert!(backend.contains("CR_BACKEND_PUMP_RESULT_V1_MIN_SIZE"));
    assert!(backend.contains("bool cr_backend_interrupt("));
    assert!(net.contains("CR_NET_ABI_VERSION 1u"));
    assert!(net.contains("CR_STABLE_NET_V1_BEGIN"));
    assert!(net.contains("CR_STABLE_NET_V1_END"));
    assert!(net.contains("uintptr_t value"));
    assert!(net.contains("CR_NET_RECEIVE_COMPLETION_V1_MIN_SIZE"));
    assert!(net.contains("cr_net_receive_operation *operation"));
    assert!(net.contains("cr_net_receive_awaitable_initialize("));
    for forbidden in ["cr_task", "cr_executor", "reactor", "eventsource"] {
        assert!(!backend.to_ascii_lowercase().contains(forbidden));
        assert!(!net.to_ascii_lowercase().contains(forbidden));
    }
    assert_eq!(CR_BACKEND_ABI_VERSION, 1);
    assert_eq!(CR_NET_ABI_VERSION, 1);
    assert_eq!(CR_BACKEND_EXPERIMENTAL_ABI_VERSION, CR_BACKEND_ABI_VERSION);
    assert_eq!(CR_NET_EXPERIMENTAL_ABI_VERSION, CR_NET_ABI_VERSION);
}

#[test]
fn candidate_identity_words_encode_distinct_nonzero_namespaces() {
    let backend = (CR_BACKEND_CORE_ID_HIGH, CR_BACKEND_CORE_ID_LOW);
    let net = (CR_NET_RECEIVE_EXTENSION_ID_HIGH, CR_NET_RECEIVE_EXTENSION_ID_LOW);
    assert_ne!(backend, (0, 0));
    assert_ne!(net, (0, 0));
    assert_ne!(backend, net);
}

#[test]
fn memory_artifacts_are_complete_portable_and_not_published_implicitly() {
    let artifacts = memory_artifacts();
    assert_eq!(
        artifacts.iter().map(|artifact| artifact.path).collect::<Vec<_>>(),
        vec![
            "include/cr_backend.h",
            "include/cr_net.h",
            "runtime/cr_backend_internal.h",
            "runtime/cr_backend_common.c",
            "runtime/cr_backend_memory.c",
        ]
    );
    let sources = artifacts
        .iter()
        .filter(|artifact| artifact.is_source)
        .map(|artifact| artifact.contents.as_str())
        .collect::<String>()
        .to_ascii_lowercase();
    assert!(sources.contains("stdatomic.h"));
    for forbidden in [
        "windows.h",
        "winsock2.h",
        "sys/epoll.h",
        "sys/event.h",
        "pthread_",
        "createthread",
        "thrd_create",
    ] {
        assert!(!sources.contains(forbidden), "{forbidden}");
    }
}

#[test]
fn reference_awaitable_keeps_provider_operation_storage_indirect() {
    let artifacts = memory_net_awaitable_artifacts();
    assert_eq!(
        artifacts.last().map(|artifact| artifact.path),
        Some("runtime/cr_net_recv.c")
    );
    let source = net_awaitable_artifact().contents;
    assert!(source.contains("cr_net_receive_operation *operation;"));
    assert!(!source.contains("cr_net_receive_operation operation;"));
    assert!(!source.contains("cr_net_receive_operation operation["));
}

#[test]
fn iocp_is_selected_only_for_windows_targets() {
    for target in [TargetConfig::WindowsMsvc, TargetConfig::WindowsGnu] {
        let artifacts = native_net_artifacts_for_target(&target, HostSystem::Linux)
            .expect("Windows IOCP artifacts");
        assert!(artifacts
            .iter()
            .any(|artifact| { artifact.path == "runtime/cr_backend_iocp.c" }));
    }
    for target in [
        TargetConfig::Macos,
        TargetConfig::Wasm32Wasi,
        TargetConfig::Custom("portable-vendor".to_owned()),
    ] {
        let artifacts = native_net_artifacts_for_target(&target, HostSystem::Linux);
        assert!(match artifacts.as_ref() {
            None => true,
            Some(artifacts) => artifacts
                .iter()
                .all(|artifact| artifact.path != "runtime/cr_backend_iocp.c"),
        });
    }

    let portable = memory_artifacts()
        .into_iter()
        .map(|artifact| artifact.contents)
        .collect::<String>()
        .to_ascii_lowercase();
    assert!(!portable.contains("winsock2.h"));
    assert!(!portable.contains("windows.h"));
    assert!(!portable.contains("createiocompletionport"));
}

#[test]
fn epoll_is_selected_only_for_linux_targets() {
    for target in [TargetConfig::LinuxGnu, TargetConfig::LinuxMusl] {
        let artifacts = native_net_artifacts_for_target(&target, HostSystem::Linux)
            .expect("Linux epoll artifacts");
        assert!(artifacts
            .iter()
            .any(|artifact| artifact.path == "runtime/cr_backend_epoll.c"));
        assert!(artifacts
            .iter()
            .all(|artifact| artifact.path != "runtime/cr_backend_iocp.c"));
    }
    for target in [
        TargetConfig::WindowsMsvc,
        TargetConfig::WindowsGnu,
        TargetConfig::Macos,
        TargetConfig::Wasm32Wasi,
        TargetConfig::Custom("portable-vendor".to_owned()),
    ] {
        let artifacts = native_net_artifacts_for_target(&target, HostSystem::Linux);
        assert!(match artifacts.as_ref() {
            None => true,
            Some(artifacts) => artifacts
                .iter()
                .all(|artifact| artifact.path != "runtime/cr_backend_epoll.c"),
        });
    }
}

#[test]
fn kqueue_is_selected_only_for_macos_targets() {
    let artifacts = native_net_artifacts_for_target(&TargetConfig::Macos, HostSystem::Linux)
        .expect("macOS kqueue artifacts");
    assert!(artifacts
        .iter()
        .any(|artifact| artifact.path == "runtime/cr_backend_kqueue.c"));
    assert!(artifacts.iter().all(|artifact| {
        artifact.path != "runtime/cr_backend_iocp.c"
            && artifact.path != "runtime/cr_backend_epoll.c"
    }));
    for target in [
        TargetConfig::WindowsMsvc,
        TargetConfig::WindowsGnu,
        TargetConfig::LinuxGnu,
        TargetConfig::LinuxMusl,
        TargetConfig::Wasm32Wasi,
        TargetConfig::Custom("portable-vendor".to_owned()),
    ] {
        let artifacts = native_net_artifacts_for_target(&target, HostSystem::Linux);
        assert!(match artifacts.as_ref() {
            None => true,
            Some(artifacts) => artifacts
                .iter()
                .all(|artifact| artifact.path != "runtime/cr_backend_kqueue.c"),
        });
    }
}

#[test]
fn host_targets_take_the_provider_of_their_system() {
    for (host, path) in [
        (HostSystem::Windows, "runtime/cr_backend_iocp.c"),
        (HostSystem::Linux, "runtime/cr_backend_epoll.c"),
        (HostSystem::Macos, "runtime/cr_backend_kqueue.c"),
    ] {
        let artifacts = native_net_artifacts_for_target(&TargetConfig::Host, host)
            .expect("host backend artifacts");
        assert_eq!(artifacts.len(), common_artifacts().len() + 1);
        assert_eq!(artifacts.last().map(|artifact| artifact.path), Some(path));
    }
    assert!(native_net_artifacts_for_target(&TargetConfig::Host, HostSystem::Other).is_none());
}

#[test]
fn awaitable_sets_end_with_the_receive_awaitable() {
    for artifacts in [
        iocp_net_awaitable_artifacts(),
        epoll_net_awaitable_artifacts(),
        kqueue_net_awaitable_artifacts(),
    ] {
        assert_eq!(artifacts.len(), 6);
        let last = artifacts.last().expect("awaitable artifact");
        assert_eq!(last.kind, "backend-awaitable-source");
        assert!(last.is_source);
        assert_eq!(artifacts[0].kind, "backend-header");
        assert!(!artifacts[0].is_source);
        assert_eq!(artifacts[2].kind, "backend-internal");
        assert_eq!(artifacts[4].kind, "backend-source");
    }
}

#[test]
fn provider_files_begin_and_end_with_their_own_parts() {
    let epoll = &epoll_net_awaitable_artifacts()[4].contents;
    assert!(epoll.starts_with("#define _GNU_SOURCE 1\n"));
    assert!(epoll.contains("const cr_backend_provider_desc cr_backend_epoll_provider_desc"));
    let kqueue = &kqueue_net_awaitable_artifacts()[4].contents;
    assert!(kqueue.starts_with("#define _DARWIN_C_SOURCE 1\n"));
    assert!(kqueue.contains("const cr_backend_provider_desc cr_backend_kqueue_provider_desc"));
    let iocp = &iocp_net_awaitable_artifacts()[4].contents;
    assert!(iocp.contains("const cr_backend_provider_desc cr_backend_iocp_provider_desc"));
}
