//! The C files that make up each native backend, and the choice of a backend
//! for a target.

use vstd::prelude::*;

use crate::backend_abi;
use crate::backend_abi::{backend_header, net_header};
use crate::config::TargetConfig;
use crate::text::copied;

pub mod common;
pub mod epoll;
pub mod iocp;
pub mod kqueue;
pub mod memory;
pub mod net;

verus! {

/// One C file that the compiler ships.
#[derive(Debug, PartialEq, Eq)]
pub struct BackendArtifact {
    /// Where the file goes, relative to the output directory.
    pub path: &'static str,
    /// The file's text.
    pub contents: String,
    /// What the file is for.
    pub kind: &'static str,
    /// Whether the file is compiled, rather than read by other files.
    pub is_source: bool,
}

/// The text of a [`BackendArtifact`]'s fields.
pub struct ArtifactView {
    pub path: Seq<char>,
    pub contents: Seq<char>,
    pub kind: Seq<char>,
    pub is_source: bool,
}

impl View for BackendArtifact {
    type V = ArtifactView;

    open spec fn view(&self) -> ArtifactView {
        ArtifactView {
            path: self.path@,
            contents: self.contents@,
            kind: self.kind@,
            is_source: self.is_source,
        }
    }
}

impl Clone for BackendArtifact {
    fn clone(&self) -> (r: Self)
        ensures
            r@ == self@,
    {
        BackendArtifact {
            path: self.path,
            contents: self.contents.clone(),
            kind: self.kind,
            is_source: self.is_source,
        }
    }
}

/// The system that the compiler itself runs on, as far as a backend depends
/// on it.
#[derive(Debug, Clone, Copy, PartialEq, Eq, Structural)]
pub enum HostSystem {
    Windows,
    Linux,
    Macos,
    Other,
}

/// The views of a list of artifacts.
pub open spec fn artifact_views(artifacts: Seq<BackendArtifact>) -> Seq<ArtifactView> {
    Seq::new(artifacts.len(), |i: int| artifacts[i]@)
}

/// A compiled file of a provider.
pub open spec fn provider(path: Seq<char>, contents: Seq<char>) -> ArtifactView {
    ArtifactView { path, contents, kind: "backend-source"@, is_source: true }
}

/// The files that every backend has.
pub open spec fn shared_files() -> Seq<ArtifactView> {
    seq![
        ArtifactView {
            path: "include/cr_backend.h"@,
            contents: backend_abi::BACKEND_HEADER@,
            kind: "backend-header"@,
            is_source: false,
        },
        ArtifactView {
            path: "include/cr_net.h"@,
            contents: backend_abi::NET_HEADER@,
            kind: "backend-header"@,
            is_source: false,
        },
        ArtifactView {
            path: "runtime/cr_backend_internal.h"@,
            contents: common::INTERNAL_HEADER@,
            kind: "backend-internal"@,
            is_source: false,
        },
        provider("runtime/cr_backend_common.c"@, common::COMMON_SOURCE@),
    ]
}

/// The in-memory provider's file.
pub open spec fn memory_file() -> ArtifactView {
    provider("runtime/cr_backend_memory.c"@, memory::source_text())
}

/// The completion-port provider's file.
pub open spec fn iocp_file() -> ArtifactView {
    provider("runtime/cr_backend_iocp.c"@, iocp::source_text())
}

/// The epoll provider's file.
pub open spec fn epoll_file() -> ArtifactView {
    provider("runtime/cr_backend_epoll.c"@, epoll::source_text())
}

/// The kqueue provider's file.
pub open spec fn kqueue_file() -> ArtifactView {
    provider("runtime/cr_backend_kqueue.c"@, kqueue::source_text())
}

/// The receive awaitable's file.
pub open spec fn awaitable_file() -> ArtifactView {
    ArtifactView {
        path: "runtime/cr_net_recv.c"@,
        contents: net::NET_RECEIVE_SOURCE@,
        kind: "backend-awaitable-source"@,
        is_source: true,
    }
}

/// The provider that serves network requests natively on a target, if there
/// is one. A host target takes the provider of the system it stands for.
pub open spec fn native_provider(target: TargetConfig, host: HostSystem) -> Option<ArtifactView> {
    match target {
        TargetConfig::WindowsMsvc | TargetConfig::WindowsGnu => Some(iocp_file()),
        TargetConfig::LinuxGnu | TargetConfig::LinuxMusl => Some(epoll_file()),
        TargetConfig::Macos => Some(kqueue_file()),
        TargetConfig::Host => match host {
            HostSystem::Windows => Some(iocp_file()),
            HostSystem::Linux => Some(epoll_file()),
            HostSystem::Macos => Some(kqueue_file()),
            HostSystem::Other => None,
        },
        TargetConfig::Wasm32Wasi | TargetConfig::Custom(_) => None,
    }
}

/// The files of the native backend of a target, if it has one.
pub open spec fn native_files(target: TargetConfig, host: HostSystem) -> Option<
    Seq<ArtifactView>,
> {
    match native_provider(target, host) {
        Some(file) => Some(shared_files().push(file)),
        None => None,
    }
}

/// Returns the headers and the core that all providers share.
#[must_use]
pub fn common_artifacts() -> (artifacts: Vec<BackendArtifact>)
    ensures
        artifact_views(artifacts@) == shared_files(),
{
    vec![
        BackendArtifact {
            path: "include/cr_backend.h",
            contents: copied(backend_header()),
            kind: "backend-header",
            is_source: false,
        },
        BackendArtifact {
            path: "include/cr_net.h",
            contents: copied(net_header()),
            kind: "backend-header",
            is_source: false,
        },
        BackendArtifact {
            path: "runtime/cr_backend_internal.h",
            contents: copied(common::INTERNAL_HEADER),
            kind: "backend-internal",
            is_source: false,
        },
        BackendArtifact {
            path: "runtime/cr_backend_common.c",
            contents: copied(common::COMMON_SOURCE),
            kind: "backend-source",
            is_source: true,
        },
    ]
}

/// Returns the shared files followed by one compiled provider file.
fn with_provider(path: &'static str, contents: String) -> (artifacts: Vec<BackendArtifact>)
    ensures
        artifact_views(artifacts@) == shared_files().push(provider(path@, contents@)),
{
    let mut artifacts = common_artifacts();
    let ghost before = artifacts@;
    artifacts.push(BackendArtifact { path, contents, kind: "backend-source", is_source: true });
    proof {
        assert(artifact_views(artifacts@) =~= artifact_views(before).push(
            provider(path@, contents@),
        ));
    }
    artifacts
}

/// Returns the artifacts followed by the receive awaitable.
fn with_awaitable(artifacts: Vec<BackendArtifact>) -> (result: Vec<BackendArtifact>)
    ensures
        artifact_views(result@) == artifact_views(artifacts@).push(awaitable_file()),
{
    let mut result = artifacts;
    result.push(net_awaitable_artifact());
    proof {
        assert(artifact_views(result@) =~= artifact_views(artifacts@).push(awaitable_file()));
    }
    result
}

/// Returns the files of the portable in-memory backend.
#[must_use]
pub fn memory_artifacts() -> (artifacts: Vec<BackendArtifact>)
    ensures
        artifact_views(artifacts@) == shared_files().push(memory_file()),
{
    with_provider("runtime/cr_backend_memory.c", memory::source())
}

/// Returns the file of the receive awaitable.
#[must_use]
pub fn net_awaitable_artifact() -> (artifact: BackendArtifact)
    ensures
        artifact@ == awaitable_file(),
{
    BackendArtifact {
        path: "runtime/cr_net_recv.c",
        contents: copied(net::NET_RECEIVE_SOURCE),
        kind: "backend-awaitable-source",
        is_source: true,
    }
}

/// Returns the files of the in-memory backend and of the receive awaitable.
#[must_use]
pub fn memory_net_awaitable_artifacts() -> (artifacts: Vec<BackendArtifact>)
    ensures
        artifact_views(artifacts@) == shared_files().push(memory_file()).push(awaitable_file()),
{
    with_awaitable(memory_artifacts())
}

/// Returns the files of the Windows completion-port backend.
#[must_use]
pub fn iocp_artifacts() -> (artifacts: Vec<BackendArtifact>)
    ensures
        artifact_views(artifacts@) == shared_files().push(iocp_file()),
{
    with_provider("runtime/cr_backend_iocp.c", iocp::source())
}

/// Returns the files of the Windows backend and of the receive awaitable.
#[must_use]
pub fn iocp_net_awaitable_artifacts() -> (artifacts: Vec<BackendArtifact>)
    ensures
        artifact_views(artifacts@) == shared_files().push(iocp_file()).push(awaitable_file()),
{
    with_awaitable(iocp_artifacts())
}

/// Returns the files of the Linux epoll backend.
#[must_use]
pub fn epoll_artifacts() -> (artifacts: Vec<BackendArtifact>)
    ensures
        artifact_views(artifacts@) == shared_files().push(epoll_file()),
{
    with_provider("runtime/cr_backend_epoll.c", epoll::source())
}

/// Returns the files of the Linux backend and of the receive awaitable.
#[must_use]
pub fn epoll_net_awaitable_artifacts() -> (artifacts: Vec<BackendArtifact>)
    ensures
        artifact_views(artifacts@) == shared_files().push(epoll_file()).push(awaitable_file()),
{
    with_awaitable(epoll_artifacts())
}

/// Returns the files of the macOS kqueue backend.
#[must_use]
pub fn kqueue_artifacts() -> (artifacts: Vec<BackendArtifact>)
    ensures
        artifact_views(artifacts@) == shared_files().push(kqueue_file()),
{
    with_provider("runtime/cr_backend_kqueue.c", kqueue::source())
}

/// Returns the files of the macOS backend and of the receive awaitable.
#[must_use]
pub fn kqueue_net_awaitable_artifacts() -> (artifacts: Vec<BackendArtifact>)
    ensures
        artifact_views(artifacts@) == shared_files().push(kqueue_file()).push(awaitable_file()),
{
    with_awaitable(kqueue_artifacts())
}

/// Returns the files of the native backend of `target`, for a compiler that
/// runs on `host`; `None` where the target has no native backend.
#[must_use]
pub fn native_net_artifacts_for_target(target: &TargetConfig, host: HostSystem) -> (artifacts:
    Option<Vec<BackendArtifact>>)
    ensures
        match artifacts {
            Some(files) => native_files(*target, host) == Some(artifact_views(files@)),
            None => native_files(*target, host) is None,
        },
{
    match target {
        TargetConfig::WindowsMsvc | TargetConfig::WindowsGnu => Some(iocp_artifacts()),
        TargetConfig::LinuxGnu | TargetConfig::LinuxMusl => Some(epoll_artifacts()),
        TargetConfig::Macos => Some(kqueue_artifacts()),
        TargetConfig::Host => match host {
            HostSystem::Windows => Some(iocp_artifacts()),
            HostSystem::Linux => Some(epoll_artifacts()),
            HostSystem::Macos => Some(kqueue_artifacts()),
            HostSystem::Other => None,
        },
        TargetConfig::Wasm32Wasi | TargetConfig::Custom(_) => None,
    }
}

/// Whether a file with the given path is among the files.
pub open spec fn has_path(files: Seq<ArtifactView>, path: Seq<char>) -> bool {
    exists|i: int| 0 <= i < files.len() && (#[trigger] files[i]).path == path
}

/// The path that the provider file of a system has.
pub open spec fn provider_path(system: HostSystem) -> Seq<char> {
    match system {
        HostSystem::Windows => "runtime/cr_backend_iocp.c"@,
        HostSystem::Linux => "runtime/cr_backend_epoll.c"@,
        HostSystem::Macos => "runtime/cr_backend_kqueue.c"@,
        HostSystem::Other => "runtime/cr_backend_memory.c"@,
    }
}

/// The system that a target stands for.
pub open spec fn system_of(target: TargetConfig, host: HostSystem) -> HostSystem {
    match target {
        TargetConfig::WindowsMsvc | TargetConfig::WindowsGnu => HostSystem::Windows,
        TargetConfig::LinuxGnu | TargetConfig::LinuxMusl => HostSystem::Linux,
        TargetConfig::Macos => HostSystem::Macos,
        TargetConfig::Host => host,
        TargetConfig::Wasm32Wasi | TargetConfig::Custom(_) => HostSystem::Other,
    }
}

proof fn paths_differ()
    ensures
        forall|a: HostSystem, b: HostSystem|
            a != b ==> #[trigger] provider_path(a) != #[trigger] provider_path(b),
        forall|a: HostSystem, i: int|
            0 <= i < 4 ==> #[trigger] provider_path(a) != (#[trigger] shared_files()[i]).path,
{
    reveal_strlit("include/cr_backend.h");
    reveal_strlit("include/cr_net.h");
    reveal_strlit("runtime/cr_backend_internal.h");
    reveal_strlit("runtime/cr_backend_common.c");
    reveal_strlit("runtime/cr_backend_memory.c");
    reveal_strlit("runtime/cr_backend_iocp.c");
    reveal_strlit("runtime/cr_backend_epoll.c");
    reveal_strlit("runtime/cr_backend_kqueue.c");
    let windows = "runtime/cr_backend_iocp.c"@;
    let linux = "runtime/cr_backend_epoll.c"@;
    let macos = "runtime/cr_backend_kqueue.c"@;
    let memory = "runtime/cr_backend_memory.c"@;
    let core = "runtime/cr_backend_common.c"@;
    assert(windows[19] == 'i' && memory[19] == 'm' && core[19] == 'c');
    assert(windows.len() == 25 && linux.len() == 26 && macos.len() == 27 && memory.len() == 27);
    assert(macos[19] == 'k');
}

/// A native backend holds the provider file of the system its target stands
/// for, and of no other system; a target that stands for no system with a
/// native provider has no native backend.
pub proof fn native_backend_matches_system(target: TargetConfig, host: HostSystem)
    ensures
        native_files(target, host) is Some <==> system_of(target, host) != HostSystem::Other,
        native_files(target, host) matches Some(files) ==> forall|system: HostSystem|
            has_path(files, #[trigger] provider_path(system)) <==> system == system_of(
                target,
                host,
            ),
{
    paths_differ();
    if let Some(files) = native_files(target, host) {
        assert forall|system: HostSystem|
            has_path(files, #[trigger] provider_path(system)) <==> system == system_of(
                target,
                host,
            ) by {
            assert(files.len() == 5);
            assert(files[4].path == provider_path(system_of(target, host)));
            assert(forall|i: int| 0 <= i < 4 ==> files[i] == #[trigger] shared_files()[i]);
        }
    }
}

/// Every backend file set begins with the shared files, so the headers and
/// the core are the same whichever provider is chosen.
pub proof fn native_backends_share_their_core(
    first: TargetConfig,
    second: TargetConfig,
    host: HostSystem,
)
    requires
        native_files(first, host) is Some,
        native_files(second, host) is Some,
    ensures
        native_files(first, host)->0.subrange(0, 4) == shared_files(),
        native_files(first, host)->0.subrange(0, 4) == native_files(second, host)->0.subrange(
            0,
            4,
        ),
{
    assert(native_files(first, host)->0.subrange(0, 4) =~= shared_files());
    assert(native_files(second, host)->0.subrange(0, 4) =~= shared_files());
}

} // verus!
