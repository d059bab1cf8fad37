//! The sandbox backend seam: what a backend can do, the class a VM snapshot may be restored on,
//! the descriptors a booted guest hands to the daemon, and where a transferred snapshot lands.
//!
//! Paths are Unix paths written as strings.
use vstd::prelude::*;

use crate::text;

verus! {

/// Which sandbox backend an instance came from.
#[derive(Debug, Clone, Copy, PartialEq, Eq, Structural)]
pub enum BackendKind {
    /// Linux/KVM Firecracker under the jailer.
    Firecracker,
    /// macOS Apple Virtualization.framework.
    VirtualizationFramework,
}

/// Post-escape isolation strength of a backend.
#[derive(Debug, Clone, Copy, PartialEq, Eq, Structural)]
pub enum IsolationTier {
    /// Hardware VM boundary plus an OS-level cage on escape (Firecracker's jailer).
    HardwareVmJailed,
    /// Hardware VM boundary only.
    HardwareVm,
}

/// How much the daemon may trust a backend's metering.
#[derive(Debug, Clone, Copy, PartialEq, Eq, Structural)]
pub enum MeterFidelity {
    /// Tick-accurate with a hard running memory bound.
    CgroupExact,
    /// Coarser host-side accounting with a boot-time memory cap.
    HostCoarse,
}

/// The guest CPU architecture a backend boots.
#[derive(Debug, Clone, Copy, PartialEq, Eq, Structural)]
pub enum GuestArch {
    X86_64,
    Aarch64,
}

/// The CPU-normalization class a VM snapshot is created under.
#[derive(Debug, Clone, Copy, PartialEq, Eq, Structural)]
pub enum CpuClass {
    /// Intel CPUs under the Firecracker T2CL static template.
    IntelT2CL,
}

/// The resume-compatibility class of a VM snapshot: backend x guest arch x CPU class.
#[derive(Debug, Clone, Copy, PartialEq, Eq, Structural)]
pub struct SnapshotClass {
    pub backend: BackendKind,
    pub guest_arch: GuestArch,
    pub cpu_class: CpuClass,
}

impl SnapshotClass {
    /// Whether a snapshot of this class can be restored by a backend that produces `target`
    /// snapshots: only on the very same class.
    pub fn restorable_on(&self, target: &SnapshotClass) -> (r: bool)
        ensures
            r == (*self == *target),
    {
        *self == *target
    }
}

/// What a backend can do.
#[derive(Debug, Clone, Copy, PartialEq, Eq)]
pub struct BackendCapabilities {
    pub backend: BackendKind,
    /// The guest CPU architecture the backend boots (the genome image must match).
    pub guest_arch: GuestArch,
    pub isolation: IsolationTier,
    pub metering: MeterFidelity,
    /// The VM-snapshot class this backend produces and restores, or `None` without support.
    pub snapshot: Option<SnapshotClass>,
    /// Whether this backend resumes a genome from an application-level checkpoint.
    pub app_checkpoint: bool,
}

/// A produced VM snapshot: the mem+vmstate pair, tagged with its class. `restore_data` is the
/// producing backend's own and is opaque here.
#[derive(Debug)]
pub struct SnapshotArtifact<D> {
    pub vmstate_path: String,
    pub mem_path: String,
    pub class: SnapshotClass,
    pub restore_data: D,
}

impl<D> SnapshotArtifact<D> {
    /// The size of the mem+vmstate pair in bytes, from the two files' lengths (a missing file has
    /// none and counts as 0).
    pub fn footprint_bytes(&self, vmstate_len: Option<u64>, mem_len: Option<u64>) -> (r: u64)
        requires
            vmstate_len.unwrap_or(0) + mem_len.unwrap_or(0) <= u64::MAX,
        ensures
            r == vmstate_len.unwrap_or(0) + mem_len.unwrap_or(0),
    {
        vmstate_len.unwrap_or(0) + mem_len.unwrap_or(0)
    }
}

/// Where one snapshot file is copied from and to.
#[derive(Debug)]
pub struct FileCopy {
    pub from: String,
    pub to: String,
}

/// The copies a transfer performs, and the artifact the target node restores from.
#[derive(Debug)]
pub struct TransferPlan<D> {
    pub vmstate: FileCopy,
    pub mem: FileCopy,
    pub moved: SnapshotArtifact<D>,
}

/// A snapshot file whose path has no final component cannot be transferred.
#[derive(Debug)]
pub enum TransferError {
    VmstateHasNoName,
    MemHasNoName,
}

/// The snapshot transfer seam: how the mem+vmstate pair moves from the source node to the target
/// node. The class and the backend's restore data carry over unchanged; only the paths change.
pub trait SnapshotTransfer {
    /// The directory on the target node that receives the pair.
    spec fn inbox(&self) -> Seq<char>;

    /// The copies that move `artifact`, and the artifact as it stands on the target node.
    fn transfer<D>(&self, artifact: SnapshotArtifact<D>) -> (r: Result<TransferPlan<D>, TransferError>)
        ensures
            match r {
                Ok(plan) => {
                    let v = text::last_component(artifact.vmstate_path@);
                    let m = text::last_component(artifact.mem_path@);
                    &&& v is Some && m is Some
                    &&& plan.vmstate.from@ == artifact.vmstate_path@
                    &&& plan.vmstate.to@ == text::joined(self.inbox(), v->0)
                    &&& plan.mem.from@ == artifact.mem_path@
                    &&& plan.mem.to@ == text::joined(self.inbox(), m->0)
                    &&& plan.moved.vmstate_path@ == plan.vmstate.to@
                    &&& plan.moved.mem_path@ == plan.mem.to@
                    &&& plan.moved.class == artifact.class
                    &&& plan.moved.restore_data == artifact.restore_data
                },
                Err(TransferError::VmstateHasNoName) => {
                    text::last_component(artifact.vmstate_path@) is None
                },
                Err(TransferError::MemHasNoName) => {
                    &&& text::last_component(artifact.vmstate_path@) is Some
                    &&& text::last_component(artifact.mem_path@) is None
                },
            },
    ;
}

/// The same-host transfer: copy the pair into a directory on the same machine.
#[derive(Debug)]
pub struct LocalDirTransfer {
    pub target_dir: String,
}

impl SnapshotTransfer for LocalDirTransfer {
    open spec fn inbox(&self) -> Seq<char> {
        self.target_dir@
    }

    fn transfer<D>(&self, artifact: SnapshotArtifact<D>) -> (r: Result<TransferPlan<D>, TransferError>) {
        let vmstate_name = match text::file_name(artifact.vmstate_path.as_str()) {
            Some(n) => n,
            None => return Err(TransferError::VmstateHasNoName),
        };
        let mem_name = match text::file_name(artifact.mem_path.as_str()) {
            Some(n) => n,
            None => return Err(TransferError::MemHasNoName),
        };
        let vmstate_to = text::path_join(self.target_dir.as_str(), vmstate_name.as_str());
        let mem_to = text::path_join(self.target_dir.as_str(), mem_name.as_str());
        Ok(
            TransferPlan {
                vmstate: FileCopy { from: artifact.vmstate_path, to: vmstate_to.clone() },
                mem: FileCopy { from: artifact.mem_path, to: mem_to.clone() },
                moved: SnapshotArtifact {
                    vmstate_path: vmstate_to,
                    mem_path: mem_to,
                    class: artifact.class,
                    restore_data: artifact.restore_data,
                },
            },
        )
    }
}

/// The content-addressed genome image: the guest kernel and the read-only rootfs.
#[derive(Debug)]
pub struct GuestImage {
    pub kernel: String,
    pub rootfs: String,
}

/// Where to restore a snapshot: the target-node facts that the snapshot does not carry.
#[derive(Debug)]
pub struct RestoreSpec {
    pub image: GuestImage,
    pub instance_id: String,
    pub gateway_port: u32,
    pub lockdown_egress: bool,
}

/// A backend-neutral request to boot one genome guest.
#[derive(Debug)]
pub struct GuestSpec {
    pub image: GuestImage,
    /// A stable id for this guest on the host.
    pub instance_id: String,
    /// The guest CID for this guest's vsock.
    pub guest_cid: u32,
    /// The gateway vsock port the genome dials and the daemon serves on.
    pub gateway_port: u32,
    pub vcpu_count: u8,
    pub mem_size_mib: usize,
    /// The genome workload requested on the guest boot parameters.
    pub workload: Option<String>,
    /// Install the per-VM egress lockdown.
    pub lockdown_egress: bool,
    /// Boot this guest so it can be snapshotted later.
    pub snapshot_capable: bool,
}

/// How the daemon's gateway reaches a guest over vsock.
#[derive(Debug)]
pub enum GatewayTransport {
    /// Firecracker's host-side vsock socket: the base path, and the guest's gateway port.
    FirecrackerVsockUds { uds_base: String, port: u32 },
    /// The macOS VZ helper's proxy socket.
    VzVsockProxyUds { uds_path: String, port: u32 },
}

/// Where the daemon reads host-authoritative CPU and memory consumption for a guest.
#[derive(Debug)]
pub enum MeterSource {
    /// The guest's dedicated cgroup v2, relative to the unified mount root.
    CgroupV2 { rel_path: String },
    /// macOS VZ process accounting: the helper process plus the VM service processes.
    HostProcess { root_pid: u32, service_pids: Vec<u32>, memory_mib: usize },
}

/// The host-kernel egress drop counter for a guest.
#[derive(Debug, Clone, Copy, PartialEq, Eq, Structural)]
pub struct EgressDropCounter {
    pub packets: u64,
    pub bytes: u64,
}

impl Default for EgressDropCounter {
    fn default() -> (r: Self)
        ensures
            r.packets == 0,
            r.bytes == 0,
    {
        EgressDropCounter { packets: 0, bytes: 0 }
    }
}

/// The per-VM egress lockdown control surface.
pub trait EgressControl {
    /// The host network interface the guest's egress arrives on.
    fn iface_name(&self) -> &str;

    /// The host-kernel drop counter for this guest's egress lockdown.
    fn drop_counter(&self) -> EgressDropCounter;
}

/// A booted genome guest, as far as its descriptors go: what the daemon serves the gateway over
/// and what it bills.
pub trait SandboxInstance {
    /// The vsock socket path and port the gateway is served on.
    spec fn transport_at(&self) -> (Seq<char>, u32);

    /// The network-interface control, present only under the egress lockdown.
    spec fn has_egress(&self) -> bool;

    /// The host-side vsock transport the daemon serves the gateway over for this guest.
    fn gateway_transport(&self) -> (r: GatewayTransport)
        ensures
            match r {
                GatewayTransport::FirecrackerVsockUds { uds_base, port } => (uds_base@, port)
                    == self.transport_at(),
                GatewayTransport::VzVsockProxyUds { uds_path, port } => (uds_path@, port)
                    == self.transport_at(),
            },
    ;

    /// The CPU and memory meter source for this guest.
    fn meter_source(&self) -> MeterSource;

    /// The egress control that this guest was booted with, if it was booted with one.
    fn egress_control(&self) -> (r: Option<&dyn EgressControl>)
        ensures
            r is Some <==> self.has_egress(),
    ;
}

/// A sandbox backend's capability descriptor, and the restore admission every backend shares.
pub trait SandboxBackend {
    /// What this backend can do.
    spec fn caps(&self) -> BackendCapabilities;

    /// What this backend can do.
    fn capabilities(&self) -> (r: BackendCapabilities)
        ensures
            r == self.caps(),
    ;
}

/// Whether a node with capabilities `caps` may restore a VM snapshot of class `class`: only a
/// backend that reports that very class. Otherwise the resume falls back to the app checkpoint.
pub fn may_restore(caps: &BackendCapabilities, class: &SnapshotClass) -> (r: bool)
    ensures
        r == (caps.snapshot == Some(*class)),
{
    match &caps.snapshot {
        Some(own) => class.restorable_on(own),
        None => false,
    }
}

/// A snapshot goes where it came from: it is restored on a backend of the very same class, the same in
/// backend, architecture and CPU class, and on no other.
pub proof fn snapshot_is_restored_on_its_class_only(
    class: SnapshotClass,
    target: SnapshotClass,
    caps: BackendCapabilities,
    restorable: bool,
    may: bool,
)
    requires
        call_ensures(SnapshotClass::restorable_on, (&class, &target), restorable),
        call_ensures(may_restore, (&caps, &class), may),
    ensures
        restorable <==> class.backend == target.backend && class.guest_arch == target.guest_arch
            && class.cpu_class == target.cpu_class,
        may <==> caps.snapshot is Some && caps.snapshot->0.backend == class.backend
            && caps.snapshot->0.guest_arch == class.guest_arch && caps.snapshot->0.cpu_class
            == class.cpu_class,
{
}

/// A transfer copies both files under their own names into the target directory, and what is restored
/// there is the same snapshot under the new paths. Its size is that of the two files.
pub proof fn transfer_keeps_names_and_class<D>(
    dir: LocalDirTransfer,
    artifact: SnapshotArtifact<D>,
    r: Result<TransferPlan<D>, TransferError>,
    vmstate_len: u64,
    mem_len: u64,
    size: u64,
)
    requires
        call_ensures(<LocalDirTransfer as SnapshotTransfer>::transfer::<D>, (&dir, artifact), r),
        call_ensures(
            SnapshotArtifact::<D>::footprint_bytes,
            (&artifact, Some(vmstate_len), Some(mem_len)),
            size,
        ),
    ensures
        size == vmstate_len + mem_len,
        r is Ok <==> text::last_component(artifact.vmstate_path@) is Some && text::last_component(
            artifact.mem_path@,
        ) is Some,
        r matches Ok(plan) ==> {
            &&& plan.vmstate.from@ == artifact.vmstate_path@
            &&& plan.mem.from@ == artifact.mem_path@
            &&& plan.vmstate.to@ == text::joined(
                dir.target_dir@,
                text::last_component(artifact.vmstate_path@)->0,
            )
            &&& plan.mem.to@ == text::joined(
                dir.target_dir@,
                text::last_component(artifact.mem_path@)->0,
            )
            &&& plan.moved.vmstate_path@ == plan.vmstate.to@
            &&& plan.moved.mem_path@ == plan.mem.to@
            &&& plan.moved.class == artifact.class
            &&& plan.moved.restore_data == artifact.restore_data
        },
{
}

} // verus!
