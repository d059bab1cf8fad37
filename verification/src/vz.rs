//! The Apple Virtualization.framework backend: boot admission, the files a boot prepares, the
//! helper process's command line and readiness protocol, and the handle of a booted guest.
//!
//! Boot is a machine of decisions: [`VzBoot::action`] names the next thing to do on the host and
//! [`VzBoot::step`] takes what came of it.
use vstd::prelude::*;
use vstd::string::StringExecFns;

use crate::elf;
use crate::sandbox::{
    BackendCapabilities, BackendKind, EgressControl, GatewayTransport, GuestArch, GuestSpec,
    IsolationTier, MeterFidelity, MeterSource, SandboxBackend, SandboxInstance, SnapshotClass,
};
use crate::text;

verus! {

/// How long a boot waits for the helper to report ready.
pub const VZ_READY_TIMEOUT_SECS: u64 = 30;

/// How long a stop waits after asking the helper to exit before killing it.
pub const VZ_STOP_TIMEOUT_SECS: u64 = 5;

/// The block size a raw disk image's length must be a multiple of.
pub const VZ_BLOCK_SIZE: u64 = 512;

/// How many characters of an instance id enter a file name.
pub const MAX_INSTANCE_ID_CHARS: usize = 32;

/// Apple Virtualization.framework backend on macOS.
#[derive(Debug, Clone, Copy)]
pub struct VzBackend;

impl VzBackend {
    pub fn new() -> (r: Self)
        ensures
            r.caps() == vz_capabilities(),
    {
        VzBackend
    }
}

impl Default for VzBackend {
    fn default() -> (r: Self)
        ensures
            r.caps() == vz_capabilities(),
    {
        VzBackend
    }
}

/// What the VZ backend reports: an AArch64 guest behind a hardware VM boundary, coarse host-side
/// metering, no VM snapshots, and application checkpoints.
pub open spec fn vz_capabilities() -> BackendCapabilities {
    BackendCapabilities {
        backend: BackendKind::VirtualizationFramework,
        guest_arch: GuestArch::Aarch64,
        isolation: IsolationTier::HardwareVm,
        metering: MeterFidelity::HostCoarse,
        snapshot: None,
        app_checkpoint: true,
    }
}

impl SandboxBackend for VzBackend {
    open spec fn caps(&self) -> BackendCapabilities {
        vz_capabilities()
    }

    fn capabilities(&self) -> (r: BackendCapabilities) {
        BackendCapabilities {
            backend: BackendKind::VirtualizationFramework,
            guest_arch: GuestArch::Aarch64,
            isolation: IsolationTier::HardwareVm,
            metering: MeterFidelity::HostCoarse,
            snapshot: None,
            app_checkpoint: true,
        }
    }
}

/// Why the VZ backend does not boot a guest spec.
#[derive(Debug, Clone, Copy, PartialEq, Eq, Structural)]
pub enum VzSpecError {
    /// VM-snapshot resume is unsupported; boot with `snapshot_capable` false.
    SnapshotCapable,
    /// Egress lockdown is not implemented.
    LockdownEgress,
    /// The kernel image is not a file.
    KernelNotFound,
    /// The rootfs image is not a file.
    RootfsNotFound,
}

/// Whether the VZ backend boots `spec`, given whether its kernel and rootfs are files.
pub fn validate_vz_boot_spec(spec: &GuestSpec, kernel_is_file: bool, rootfs_is_file: bool) -> (r:
    Result<(), VzSpecError>)
    ensures
        match r {
            Ok(()) => {
                !spec.snapshot_capable && !spec.lockdown_egress && kernel_is_file && rootfs_is_file
            },
            Err(VzSpecError::SnapshotCapable) => spec.snapshot_capable,
            Err(VzSpecError::LockdownEgress) => !spec.snapshot_capable && spec.lockdown_egress,
            Err(VzSpecError::KernelNotFound) => {
                !spec.snapshot_capable && !spec.lockdown_egress && !kernel_is_file
            },
            Err(VzSpecError::RootfsNotFound) => {
                !spec.snapshot_capable && !spec.lockdown_egress && kernel_is_file && !rootfs_is_file
            },
        },
{
    if spec.snapshot_capable {
        return Err(VzSpecError::SnapshotCapable);
    }
    if spec.lockdown_egress {
        return Err(VzSpecError::LockdownEgress);
    }
    if !kernel_is_file {
        return Err(VzSpecError::KernelNotFound);
    }
    if !rootfs_is_file {
        return Err(VzSpecError::RootfsNotFound);
    }
    Ok(())
}

// ---------------------------------------------------------------------------------------------
// File names
// ---------------------------------------------------------------------------------------------
/// A character as it may stand in a file name: ASCII letters, digits, `-` and `_` as they are,
/// anything else as `-`.
pub open spec fn safe_char(c: char) -> char {
    if text::is_ascii_alnum(c) || c == '-' || c == '_' {
        c
    } else {
        '-'
    }
}

/// The file-name form of an instance id: its first characters made safe, or `node` for none.
pub open spec fn safe_id(id: Seq<char>) -> Seq<char> {
    if id.len() == 0 {
        "node"@
    } else {
        let n = if id.len() < MAX_INSTANCE_ID_CHARS {
            id.len() as int
        } else {
            MAX_INSTANCE_ID_CHARS as int
        };
        id.take(n).map_values(|c: char| safe_char(c))
    }
}

/// The file-name form of an instance id.
pub fn sanitize_instance_id(instance_id: &str) -> (r: String)
    ensures
        r@ == safe_id(instance_id@),
{
    let chars = text::chars_of(instance_id);
    if chars.len() == 0 {
        return "node".to_owned();
    }
    let n: usize = if chars.len() < MAX_INSTANCE_ID_CHARS {
        chars.len()
    } else {
        MAX_INSTANCE_ID_CHARS
    };
    let mut out = String::new();
    let mut i: usize = 0;
    while i < n
        invariant
            chars@ == instance_id@,
            i <= n <= chars@.len(),
            out@ == chars@.take(i as int).map_values(|c: char| safe_char(c)),
        decreases n - i,
    {
        let c = chars[i];
        if text::ascii_alnum(c) || c == '-' || c == '_' {
            out.push(c);
        } else {
            out.push('-');
        }
        assert(chars@.take(i + 1).map_values(|c: char| safe_char(c)) =~= chars@.take(
            i as int,
        ).map_values(|c: char| safe_char(c)).push(safe_char(chars@[i as int])));
        i = i + 1;
    }
    out
}

/// `/tmp/kirby-vz-<pid>-<id>-<port><suffix>`.
pub open spec fn vz_temp_path(
    pid: u32,
    instance_id: Seq<char>,
    port: u32,
    suffix: Seq<char>,
) -> Seq<char> {
    "/tmp/kirby-vz-"@ + text::decimal(pid as nat) + "-"@ + safe_id(instance_id) + "-"@
        + text::decimal(port as nat) + suffix
}

fn temp_path(pid: u32, instance_id: &str, port: u32, suffix: &str) -> (r: String)
    ensures
        r@ == vz_temp_path(pid, instance_id@, port, suffix@),
{
    let mut s = "/tmp/kirby-vz-".to_owned();
    text::append_decimal(&mut s, pid as u64);
    s.append("-");
    s.append(sanitize_instance_id(instance_id).as_str());
    s.append("-");
    text::append_decimal(&mut s, port as u64);
    s.append(suffix);
    s
}

/// The socket the helper bridges the guest's vsock to.
pub fn vz_gateway_uds_path(pid: u32, instance_id: &str, gateway_port: u32) -> (r: String)
    ensures
        r@ == vz_temp_path(pid, instance_id@, gateway_port, ".sock"@),
{
    temp_path(pid, instance_id, gateway_port, ".sock")
}

/// An image as a boot uses it: its path, and the temporary file to remove at halt, if any.
#[derive(Debug)]
pub struct PreparedImage {
    pub path: String,
    pub temp: Option<String>,
}

/// What a boot does about the kernel file.
#[derive(Debug)]
pub enum KernelPlan {
    /// Boot the file as it is.
    UseAsIs,
    /// Write `image` to `path`, make it executable, and boot that.
    Convert { path: String, image: Vec<u8> },
}

/// What to do about a kernel with these file bytes: an ELF kernel is flattened into a temporary
/// raw image, anything else is booted as it is.
pub fn prepare_vz_kernel(kernel: &[u8], pid: u32, instance_id: &str, gateway_port: u32) -> (r:
    Result<KernelPlan, elf::ElfError>)
    ensures
        match r {
            Ok(KernelPlan::UseAsIs) => !elf::is_elf(kernel@),
            Ok(KernelPlan::Convert { path, image }) => {
                let segs = elf::loads(kernel@, elf::entry_count(kernel@) as nat);
                let base = elf::lowest_paddr(segs);
                &&& elf::is_elf(kernel@)
                &&& elf::flatten_error(kernel@) is None
                &&& image@ == Seq::new(
                    elf::extent(segs, base) as nat,
                    |k: int| elf::image_byte(kernel@, segs, base, k),
                )
                &&& path@ == vz_temp_path(pid, instance_id@, gateway_port, ".Image"@)
            },
            Err(e) => elf::is_elf(kernel@) && elf::flatten_error(kernel@) == Some(e),
        },
{
    match elf::elf64_aarch64_to_raw_image(kernel) {
        Err(e) => Err(e),
        Ok(None) => Ok(KernelPlan::UseAsIs),
        Ok(Some(image)) => Ok(
            KernelPlan::Convert {
                path: temp_path(pid, instance_id, gateway_port, ".Image"),
                image,
            },
        ),
    }
}

/// What a boot does about the rootfs file.
#[derive(Debug)]
pub enum RootfsPlan {
    /// Attach the file as it is.
    UseAsIs,
    /// Copy the file to `path`, extend the copy with zeros to `padded_len` bytes, attach that.
    Pad { path: String, padded_len: u64 },
}

/// What to do about a rootfs of `len` bytes: a length that is no multiple of the block size is
/// padded, in a temporary copy, to the next one that is.
pub fn prepare_vz_rootfs(len: u64, pid: u32, instance_id: &str, gateway_port: u32) -> (r:
    RootfsPlan)
    requires
        len <= u64::MAX - 511,
    ensures
        match r {
            RootfsPlan::UseAsIs => len % VZ_BLOCK_SIZE == 0,
            RootfsPlan::Pad { path, padded_len } => {
                &&& len % VZ_BLOCK_SIZE != 0
                &&& padded_len % VZ_BLOCK_SIZE == 0
                &&& len < padded_len < len + VZ_BLOCK_SIZE
                &&& path@ == vz_temp_path(pid, instance_id@, gateway_port, ".rootfs.raw"@)
            },
        },
{
    let over: u64 = len % VZ_BLOCK_SIZE;
    if over == 0 {
        return RootfsPlan::UseAsIs;
    }
    let padded_len: u64 = len + (VZ_BLOCK_SIZE - over);
    RootfsPlan::Pad {
        path: temp_path(pid, instance_id, gateway_port, ".rootfs.raw"),
        padded_len,
    }
}

// ---------------------------------------------------------------------------------------------
// The helper process
// ---------------------------------------------------------------------------------------------
/// Whether a process's executable path is that of a Virtualization.framework VM service.
pub fn is_vz_service_path(path: &str) -> (r: bool)
    ensures
        r == text::contains_text(path@, "com.apple.Virtualization.VirtualMachine"@),
{
    text::str_contains(path, "com.apple.Virtualization.VirtualMachine")
}

/// The entries of `after` that `before` does not hold, in order.
pub open spec fn fresh_pids(before: Seq<u32>, after: Seq<u32>) -> Seq<u32> {
    after.filter(|p: u32| !before.contains(p))
}

fn contains_pid(pids: &Vec<u32>, pid: u32) -> (r: bool)
    ensures
        r == pids@.contains(pid),
{
    let mut i: usize = 0;
    while i < pids.len()
        invariant
            i <= pids@.len(),
            forall|k: int| 0 <= k < i ==> pids@[k] != pid,
        decreases pids@.len() - i,
    {
        if pids[i] == pid {
            return true;
        }
        i = i + 1;
    }
    false
}

/// The VM service processes that a boot brought up: those listed after it and not before it, or
/// none when the probe drops them.
pub fn discovered_service_pids(before: &Vec<u32>, after: &Vec<u32>, drop_all: bool) -> (r: Vec<u32>)
    ensures
        drop_all ==> r@.len() == 0,
        !drop_all ==> r@ == fresh_pids(before@, after@),
{
    let mut out: Vec<u32> = Vec::new();
    if drop_all {
        return out;
    }
    let ghost keep = |p: u32| !before@.contains(p);
    let mut i: usize = 0;
    proof {
        reveal(Seq::filter);
        assert(after@.take(0).filter(keep) =~= Seq::<u32>::empty());
    }
    while i < after.len()
        invariant
            i <= after@.len(),
            keep == (|p: u32| !before@.contains(p)),
            out@ == after@.take(i as int).filter(keep),
        decreases after@.len() - i,
    {
        let pid: u32 = after[i];
        proof {
            reveal(Seq::filter);
            assert(after@.take(i + 1).drop_last() =~= after@.take(i as int));
            assert(after@.take(i + 1).last() == pid);
        }
        if !contains_pid(before, pid) {
            out.push(pid);
        }
        i = i + 1;
    }
    assert(after@.take(i as int) =~= after@);
    out
}

/// What the helper is launched with.
#[derive(Debug)]
pub struct HelperLaunch {
    pub kernel: String,
    pub rootfs: String,
    pub gateway_uds: String,
    pub gateway_port: u32,
    pub vcpu_count: u8,
    pub mem_size_mib: usize,
    pub workload: Option<String>,
    pub probe_stop_ms: Option<String>,
    pub probe_pause_ms: Option<String>,
}

/// A flag and its value, or nothing for no value.
pub open spec fn optional_flag(flag: Seq<char>, value: Option<String>) -> Seq<Seq<char>> {
    match value {
        Some(v) => seq![flag, v@],
        None => Seq::empty(),
    }
}

/// The helper's command line.
pub open spec fn helper_command_line(l: HelperLaunch) -> Seq<Seq<char>> {
    seq![
        "--kernel"@,
        l.kernel@,
        "--rootfs"@,
        l.rootfs@,
        "--gateway-uds"@,
        l.gateway_uds@,
        "--gateway-port"@,
        text::decimal(l.gateway_port as nat),
        "--cpus"@,
        text::decimal(l.vcpu_count as nat),
        "--memory-mib"@,
        text::decimal(l.mem_size_mib as nat),
    ] + optional_flag("--workload"@, l.workload) + optional_flag(
        "--probe-stop-vm-after-ready-ms"@,
        l.probe_stop_ms,
    ) + optional_flag("--probe-pause-vm-after-ready-ms"@, l.probe_pause_ms)
}

fn push_optional_flag(args: &mut Vec<String>, flag: &str, value: &Option<String>)
    ensures
        text::views(final(args)@) == text::views(old(args)@) + optional_flag(flag@, *value),
{
    match value {
        Some(v) => {
            text::push_str(args, flag);
            text::push_str(args, v.as_str());
        },
        None => {},
    }
    assert(text::views(args@) =~= text::views(old(args)@) + optional_flag(flag@, *value));
}

/// The helper's command line.
pub fn helper_args(l: &HelperLaunch) -> (r: Vec<String>)
    ensures
        text::views(r@) == helper_command_line(*l),
{
    let mut a: Vec<String> = Vec::new();
    assert(text::views(a@) =~= Seq::<Seq<char>>::empty());
    text::push_str(&mut a, "--kernel");
    text::push_str(&mut a, l.kernel.as_str());
    text::push_str(&mut a, "--rootfs");
    text::push_str(&mut a, l.rootfs.as_str());
    text::push_str(&mut a, "--gateway-uds");
    text::push_str(&mut a, l.gateway_uds.as_str());
    text::push_str(&mut a, "--gateway-port");
    text::push_str(&mut a, text::decimal_string(l.gateway_port as u64).as_str());
    text::push_str(&mut a, "--cpus");
    text::push_str(&mut a, text::decimal_string(l.vcpu_count as u64).as_str());
    text::push_str(&mut a, "--memory-mib");
    text::push_str(&mut a, text::decimal_string(l.mem_size_mib as u64).as_str());
    assert(text::views(a@) =~= seq![
        "--kernel"@,
        l.kernel@,
        "--rootfs"@,
        l.rootfs@,
        "--gateway-uds"@,
        l.gateway_uds@,
        "--gateway-port"@,
        text::decimal(l.gateway_port as nat),
        "--cpus"@,
        text::decimal(l.vcpu_count as nat),
        "--memory-mib"@,
        text::decimal(l.mem_size_mib as nat),
    ]);
    push_optional_flag(&mut a, "--workload", &l.workload);
    push_optional_flag(&mut a, "--probe-stop-vm-after-ready-ms", &l.probe_stop_ms);
    push_optional_flag(&mut a, "--probe-pause-vm-after-ready-ms", &l.probe_pause_ms);
    a
}

/// What the helper's stderr stream yields.
#[derive(Debug)]
pub enum StderrEvent {
    Line(String),
    /// The stream ended.
    Ended,
    /// The stream could not be read.
    ReadFailed,
}

/// What is reported to the waiting boot, at most once.
#[derive(Debug)]
pub enum Readiness {
    Ready,
    /// The helper reported this error line.
    Refused(String),
    ExitedBeforeReady,
    ReadFailedBeforeReady,
}

/// The readiness side of the helper's stderr: whether a boot is still waiting for a report.
#[derive(Debug)]
pub struct HelperReadiness {
    pub waiting: bool,
}

/// Whether a stderr line reports readiness.
pub open spec fn is_ready_line(line: Seq<char>) -> bool {
    "KIRBY_VZ_READY "@.is_prefix_of(line)
}

/// Whether a stderr line reports an error.
pub open spec fn is_error_line(line: Seq<char>) -> bool {
    !is_ready_line(line) && "KIRBY_VZ_ERROR "@.is_prefix_of(line)
}

impl HelperReadiness {
    pub fn new() -> (r: Self)
        ensures
            r.waiting,
    {
        HelperReadiness { waiting: true }
    }

    /// Take one stderr event: the first ready line, error line or end of stream is reported;
    /// everything after the report, and every other line, reports nothing.
    pub fn observe(&mut self, event: StderrEvent) -> (r: Option<Readiness>)
        ensures
            final(self).waiting == (old(self).waiting && r is None),
            !old(self).waiting ==> r is None,
            old(self).waiting ==> match event {
                StderrEvent::Line(line) => if is_ready_line(line@) {
                    r == Some(Readiness::Ready)
                } else if is_error_line(line@) {
                    r == Some(Readiness::Refused(line))
                } else {
                    r is None
                },
                StderrEvent::Ended => r == Some(Readiness::ExitedBeforeReady),
                StderrEvent::ReadFailed => r == Some(Readiness::ReadFailedBeforeReady),
            },
    {
        if !self.waiting {
            return None;
        }
        let report = match event {
            StderrEvent::Line(line) => if text::str_starts_with(line.as_str(), "KIRBY_VZ_READY ") {
                Some(Readiness::Ready)
            } else if text::str_starts_with(line.as_str(), "KIRBY_VZ_ERROR ") {
                Some(Readiness::Refused(line))
            } else {
                None
            },
            StderrEvent::Ended => Some(Readiness::ExitedBeforeReady),
            StderrEvent::ReadFailed => Some(Readiness::ReadFailedBeforeReady),
        };
        if report.is_some() {
            self.waiting = false;
        }
        report
    }
}

/// What a stop of the helper does next.
#[derive(Debug, Clone, Copy, PartialEq, Eq, Structural)]
pub enum StopAction {
    /// Nothing is left to do.
    Done,
    /// Ask the process to terminate, then wait for it up to the stop timeout.
    TerminateAndWait(u32),
    /// Only wait for the process, up to the stop timeout: it has no process id any more.
    Wait,
    /// Kill the process.
    Kill,
}

/// How to stop the helper: nothing for one that has exited, otherwise a termination request to
/// the process id it still has.
pub fn stop_first(exited: bool, pid: Option<u32>) -> (r: StopAction)
    ensures
        r == if exited {
            StopAction::Done
        } else {
            match pid {
                Some(p) => StopAction::TerminateAndWait(p),
                None => StopAction::Wait,
            }
        },
{
    if exited {
        return StopAction::Done;
    }
    match pid {
        Some(p) => StopAction::TerminateAndWait(p),
        None => StopAction::Wait,
    }
}

/// What follows the wait: a kill if it timed out.
pub fn stop_after_wait(timed_out: bool) -> (r: StopAction)
    ensures
        r == if timed_out {
            StopAction::Kill
        } else {
            StopAction::Done
        },
{
    if timed_out {
        StopAction::Kill
    } else {
        StopAction::Done
    }
}

// ---------------------------------------------------------------------------------------------
// A booted guest
// ---------------------------------------------------------------------------------------------
/// A booted macOS VZ guest. The helper process owns the VM; this is what the daemon knows of it.
#[derive(Debug)]
pub struct BootedVzVm {
    pub pid: u32,
    pub service_pids: Vec<u32>,
    pub memory_mib: usize,
    pub gateway_uds: String,
    pub gateway_port: u32,
    pub temp_kernel: Option<String>,
    pub temp_rootfs: Option<String>,
    /// Whether the helper has been seen to exit.
    pub exited: bool,
}

/// What polling the helper process gives.
#[derive(Debug, Clone, Copy, PartialEq, Eq, Structural)]
pub enum HelperPoll {
    StillRunning,
    Exited,
    Failed,
}

impl SandboxInstance for BootedVzVm {
    open spec fn transport_at(&self) -> (Seq<char>, u32) {
        (self.gateway_uds@, self.gateway_port)
    }

    open spec fn has_egress(&self) -> bool {
        false
    }

    fn gateway_transport(&self) -> (r: GatewayTransport)
        ensures
            r is VzVsockProxyUds,
    {
        GatewayTransport::VzVsockProxyUds {
            uds_path: self.gateway_uds.clone(),
            port: self.gateway_port,
        }
    }

    fn meter_source(&self) -> (r: MeterSource)
        ensures
            r matches MeterSource::HostProcess { root_pid, service_pids, memory_mib } && root_pid
                == self.pid && service_pids@ == self.service_pids@ && memory_mib == self.memory_mib,
    {
        MeterSource::HostProcess {
            root_pid: self.pid,
            service_pids: self.service_pids.clone(),
            memory_mib: self.memory_mib,
        }
    }

    fn egress_control(&self) -> (r: Option<&dyn EgressControl>) {
        None
    }
}

impl BootedVzVm {
    /// Whether the guest runs, given what polling the helper gave. An exit, once seen, is final:
    /// later polls do not count.
    pub fn is_running(&mut self, poll: HelperPoll) -> (r: bool)
        ensures
            r == (!old(self).exited && poll == HelperPoll::StillRunning),
            final(self).exited == (old(self).exited || poll == HelperPoll::Exited),
            final(self).pid == old(self).pid,
            final(self).service_pids == old(self).service_pids,
            final(self).memory_mib == old(self).memory_mib,
            final(self).gateway_uds == old(self).gateway_uds,
            final(self).gateway_port == old(self).gateway_port,
            final(self).temp_kernel == old(self).temp_kernel,
            final(self).temp_rootfs == old(self).temp_rootfs,
    {
        if self.exited {
            return false;
        }
        match poll {
            HelperPoll::StillRunning => true,
            HelperPoll::Exited => {
                self.exited = true;
                false
            },
            HelperPoll::Failed => false,
        }
    }

    /// The files a halt removes once the helper is stopped: the gateway socket, then the padded
    /// rootfs and the converted kernel where the boot made them.
    pub fn files_to_remove(&self) -> (r: Vec<String>)
        ensures
            text::views(r@) == removed_at_halt(*self),
    {
        let mut v: Vec<String> = Vec::new();
        assert(text::views(v@) =~= Seq::<Seq<char>>::empty());
        text::push_str(&mut v, self.gateway_uds.as_str());
        match &self.temp_rootfs {
            Some(p) => {
                text::push_str(&mut v, p.as_str());
            },
            None => {},
        }
        match &self.temp_kernel {
            Some(p) => {
                text::push_str(&mut v, p.as_str());
            },
            None => {},
        }
        assert(text::views(v@) =~= removed_at_halt(*self));
        v
    }
}

/// A path as a list of none or one.
pub open spec fn listed(p: Option<String>) -> Seq<Seq<char>> {
    match p {
        Some(s) => seq![s@],
        None => Seq::empty(),
    }
}

/// The files that go away with a guest.
pub open spec fn removed_at_halt(vm: BootedVzVm) -> Seq<Seq<char>> {
    seq![vm.gateway_uds@] + listed(vm.temp_rootfs) + listed(vm.temp_kernel)
}

// ---------------------------------------------------------------------------------------------
// Boot
// ---------------------------------------------------------------------------------------------
/// How far a boot has come: the host work it waits for.
#[derive(Debug, Clone, Copy, PartialEq, Eq, Structural)]
pub enum VzBootStage {
    CheckHelper,
    ClearSocket,
    PrepareKernel,
    PrepareRootfs,
    ListServicesBefore,
    Spawn,
    AwaitReady,
    ListServicesAfter,
}

/// What came of the host work.
#[derive(Debug)]
pub enum VzBootEvent {
    /// Whether the helper binary is a file.
    HelperChecked(bool),
    /// Whether no stale socket is left (there being none is as good as having removed it).
    SocketCleared(bool),
    /// The kernel to boot, or a failure to prepare it.
    KernelPrepared(Option<PreparedImage>),
    /// The rootfs to attach, or a failure to prepare it.
    RootfsPrepared(Option<PreparedImage>),
    /// The VM service processes on the host.
    ServicesListed(Vec<u32>),
    /// The spawned helper's process id, or a failure to spawn it with its pipes.
    Spawned(Option<u32>),
    /// The helper's report.
    Reported(Readiness),
    /// The readiness channel closed without a report.
    ChannelClosed,
    /// No report came within the ready timeout.
    TimedOut,
}

/// Why a boot failed.
#[derive(Debug)]
pub enum VzBootError {
    HelperMissing,
    SocketStuck,
    KernelFailed,
    RootfsFailed,
    SpawnFailed,
    /// The helper reported something other than ready.
    NotReady(Readiness),
    ChannelClosed,
    NotReadyInTime,
    /// An event that the stage does not wait for.
    OutOfOrder,
}

/// The next host work of a boot.
#[derive(Debug)]
pub enum VzBootAction {
    CheckHelper,
    /// Remove a stale socket at this path.
    ClearSocket(String),
    PrepareKernel,
    PrepareRootfs,
    ListServices,
    /// Spawn the helper with these arguments.
    Spawn(Vec<String>),
    /// Wait for the readiness report for this many seconds.
    AwaitReady(u64),
}

/// A boot in progress.
#[derive(Debug)]
pub struct VzBoot {
    pub spec: GuestSpec,
    pub stage: VzBootStage,
    pub gateway_uds: String,
    pub kernel: PreparedImage,
    pub rootfs: PreparedImage,
    pub services_before: Vec<u32>,
    pub helper_pid: u32,
    pub probe_stop_ms: Option<String>,
    pub probe_pause_ms: Option<String>,
    /// Whether the probe that drops the discovered service processes is set.
    pub probe_drop_services: bool,
}

/// What a step of a boot gives.
#[derive(Debug)]
pub enum VzBootStep {
    /// The boot goes on.
    Next(VzBoot),
    /// The guest is up.
    Booted(BootedVzVm),
    /// The boot failed; `stop_helper` says whether a spawned helper has to be stopped, and
    /// `remove` which files the boot leaves to be removed then.
    Failed { error: VzBootError, stop_helper: bool, remove: Vec<String> },
}

/// Whether a helper process is up at `stage`.
pub open spec fn helper_is_up(stage: VzBootStage) -> bool {
    stage == VzBootStage::AwaitReady || stage == VzBootStage::ListServicesAfter
}

/// The files that a boot which fails now has made so far: the gateway socket that a spawned helper
/// binds, the padded rootfs and the converted kernel.
pub open spec fn left_behind(b: VzBoot) -> Seq<Seq<char>> {
    (if helper_is_up(b.stage) {
        seq![b.gateway_uds@]
    } else {
        Seq::empty()
    }) + listed(b.rootfs.temp) + listed(b.kernel.temp)
}

/// The stage after `stage`, for an event that lets the boot go on.
pub open spec fn stage_after(stage: VzBootStage) -> VzBootStage {
    match stage {
        VzBootStage::CheckHelper => VzBootStage::ClearSocket,
        VzBootStage::ClearSocket => VzBootStage::PrepareKernel,
        VzBootStage::PrepareKernel => VzBootStage::PrepareRootfs,
        VzBootStage::PrepareRootfs => VzBootStage::ListServicesBefore,
        VzBootStage::ListServicesBefore => VzBootStage::Spawn,
        VzBootStage::Spawn => VzBootStage::AwaitReady,
        VzBootStage::AwaitReady => VzBootStage::ListServicesAfter,
        VzBootStage::ListServicesAfter => VzBootStage::ListServicesAfter,
    }
}

/// Why the boot fails at `stage` on `event`, if it does.
pub open spec fn step_error(stage: VzBootStage, event: VzBootEvent) -> Option<VzBootError> {
    match (stage, event) {
        (VzBootStage::CheckHelper, VzBootEvent::HelperChecked(ok)) => if ok {
            None
        } else {
            Some(VzBootError::HelperMissing)
        },
        (VzBootStage::ClearSocket, VzBootEvent::SocketCleared(ok)) => if ok {
            None
        } else {
            Some(VzBootError::SocketStuck)
        },
        (VzBootStage::PrepareKernel, VzBootEvent::KernelPrepared(p)) => if p is Some {
            None
        } else {
            Some(VzBootError::KernelFailed)
        },
        (VzBootStage::PrepareRootfs, VzBootEvent::RootfsPrepared(p)) => if p is Some {
            None
        } else {
            Some(VzBootError::RootfsFailed)
        },
        (VzBootStage::ListServicesBefore, VzBootEvent::ServicesListed(_)) => None,
        (VzBootStage::Spawn, VzBootEvent::Spawned(pid)) => if pid is Some {
            None
        } else {
            Some(VzBootError::SpawnFailed)
        },
        (VzBootStage::AwaitReady, VzBootEvent::Reported(report)) => if report is Ready {
            None
        } else {
            Some(VzBootError::NotReady(report))
        },
        (VzBootStage::AwaitReady, VzBootEvent::ChannelClosed) => Some(VzBootError::ChannelClosed),
        (VzBootStage::AwaitReady, VzBootEvent::TimedOut) => Some(VzBootError::NotReadyInTime),
        (VzBootStage::ListServicesAfter, VzBootEvent::ServicesListed(_)) => None,
        _ => Some(VzBootError::OutOfOrder),
    }
}

/// `after` is `before` one stage on, with what `event` brought put in its place and everything
/// else as it was.
pub open spec fn advanced(before: VzBoot, event: VzBootEvent, after: VzBoot) -> bool {
    &&& after.stage == stage_after(before.stage)
    &&& after.spec == before.spec
    &&& after.gateway_uds == before.gateway_uds
    &&& after.kernel == match event {
        VzBootEvent::KernelPrepared(Some(p)) => p,
        _ => before.kernel,
    }
    &&& after.rootfs == match event {
        VzBootEvent::RootfsPrepared(Some(p)) => p,
        _ => before.rootfs,
    }
    &&& after.services_before == match event {
        VzBootEvent::ServicesListed(pids) => pids,
        _ => before.services_before,
    }
    &&& after.helper_pid == match event {
        VzBootEvent::Spawned(Some(pid)) => pid,
        _ => before.helper_pid,
    }
    &&& after.probe_stop_ms == before.probe_stop_ms
    &&& after.probe_pause_ms == before.probe_pause_ms
    &&& after.probe_drop_services == before.probe_drop_services
}

/// What the probe variables of the environment hold.
#[derive(Debug)]
pub struct VzProbes {
    pub stop_vm_after_ready_ms: Option<String>,
    pub pause_vm_after_ready_ms: Option<String>,
    pub drop_service_pids: bool,
}

impl VzBoot {
    /// Start a boot of `spec` by the process `own_pid`, if the backend boots it at all.
    pub fn begin(
        spec: GuestSpec,
        own_pid: u32,
        kernel_is_file: bool,
        rootfs_is_file: bool,
        probes: VzProbes,
    ) -> (r: Result<VzBoot, VzSpecError>)
        ensures
            match r {
                Ok(b) => {
                    &&& !spec.snapshot_capable && !spec.lockdown_egress && kernel_is_file
                        && rootfs_is_file
                    &&& b.spec == spec
                    &&& b.stage == VzBootStage::CheckHelper
                    &&& b.gateway_uds@ == vz_temp_path(
                        own_pid,
                        spec.instance_id@,
                        spec.gateway_port,
                        ".sock"@,
                    )
                    &&& b.kernel.path@ == spec.image.kernel@ && b.kernel.temp is None
                    &&& b.rootfs.path@ == spec.image.rootfs@ && b.rootfs.temp is None
                    &&& b.services_before@.len() == 0
                    &&& b.probe_stop_ms == probes.stop_vm_after_ready_ms
                    &&& b.probe_pause_ms == probes.pause_vm_after_ready_ms
                    &&& b.probe_drop_services == probes.drop_service_pids
                },
                Err(VzSpecError::SnapshotCapable) => spec.snapshot_capable,
                Err(VzSpecError::LockdownEgress) => !spec.snapshot_capable && spec.lockdown_egress,
                Err(VzSpecError::KernelNotFound) => {
                    !spec.snapshot_capable && !spec.lockdown_egress && !kernel_is_file
                },
                Err(VzSpecError::RootfsNotFound) => {
                    !spec.snapshot_capable && !spec.lockdown_egress && kernel_is_file
                        && !rootfs_is_file
                },
            },
    {
        match validate_vz_boot_spec(&spec, kernel_is_file, rootfs_is_file) {
            Err(e) => Err(e),
            Ok(()) => {
                let uds = vz_gateway_uds_path(own_pid, spec.instance_id.as_str(), spec.gateway_port);
                let kernel = PreparedImage { path: spec.image.kernel.clone(), temp: None };
                let rootfs = PreparedImage { path: spec.image.rootfs.clone(), temp: None };
                Ok(
                    VzBoot {
                        spec,
                        stage: VzBootStage::CheckHelper,
                        gateway_uds: uds,
                        kernel,
                        rootfs,
                        services_before: Vec::new(),
                        helper_pid: 0,
                        probe_stop_ms: probes.stop_vm_after_ready_ms,
                        probe_pause_ms: probes.pause_vm_after_ready_ms,
                        probe_drop_services: probes.drop_service_pids,
                    },
                )
            },
        }
    }

    /// What the helper is launched with.
    pub open spec fn launch(&self, l: HelperLaunch) -> bool {
        &&& l.kernel@ == self.kernel.path@
        &&& l.rootfs@ == self.rootfs.path@
        &&& l.gateway_uds@ == self.gateway_uds@
        &&& l.gateway_port == self.spec.gateway_port
        &&& l.vcpu_count == self.spec.vcpu_count
        &&& l.mem_size_mib == self.spec.mem_size_mib
        &&& l.workload == self.spec.workload
        &&& l.probe_stop_ms == self.probe_stop_ms
        &&& l.probe_pause_ms == self.probe_pause_ms
    }

    /// The host work that the boot waits for.
    pub fn action(&self) -> (r: VzBootAction)
        ensures
            match self.stage {
                VzBootStage::CheckHelper => r is CheckHelper,
                VzBootStage::ClearSocket => r matches VzBootAction::ClearSocket(p) && p@
                    == self.gateway_uds@,
                VzBootStage::PrepareKernel => r is PrepareKernel,
                VzBootStage::PrepareRootfs => r is PrepareRootfs,
                VzBootStage::ListServicesBefore => r is ListServices,
                VzBootStage::Spawn => r matches VzBootAction::Spawn(args) && exists|l: HelperLaunch|
                    self.launch(l) && text::views(args@) == #[trigger] helper_command_line(l),
                VzBootStage::AwaitReady => r == VzBootAction::AwaitReady(VZ_READY_TIMEOUT_SECS),
                VzBootStage::ListServicesAfter => r is ListServices,
            },
    {
        match self.stage {
            VzBootStage::CheckHelper => VzBootAction::CheckHelper,
            VzBootStage::ClearSocket => VzBootAction::ClearSocket(self.gateway_uds.clone()),
            VzBootStage::PrepareKernel => VzBootAction::PrepareKernel,
            VzBootStage::PrepareRootfs => VzBootAction::PrepareRootfs,
            VzBootStage::ListServicesBefore => VzBootAction::ListServices,
            VzBootStage::Spawn => {
                let l = HelperLaunch {
                    kernel: self.kernel.path.clone(),
                    rootfs: self.rootfs.path.clone(),
                    gateway_uds: self.gateway_uds.clone(),
                    gateway_port: self.spec.gateway_port,
                    vcpu_count: self.spec.vcpu_count,
                    mem_size_mib: self.spec.mem_size_mib,
                    workload: self.spec.workload.clone(),
                    probe_stop_ms: self.probe_stop_ms.clone(),
                    probe_pause_ms: self.probe_pause_ms.clone(),
                };
                let args = helper_args(&l);
                assert(self.launch(l));
                VzBootAction::Spawn(args)
            },
            VzBootStage::AwaitReady => VzBootAction::AwaitReady(VZ_READY_TIMEOUT_SECS),
            VzBootStage::ListServicesAfter => VzBootAction::ListServices,
        }
    }

    fn failed(self, error: VzBootError) -> (r: VzBootStep)
        ensures
            r matches VzBootStep::Failed { error: why, stop_helper, remove } && why == error
                && stop_helper == helper_is_up(self.stage) && text::views(remove@) == left_behind(
                self,
            ),
    {
        let stop_helper = self.stage == VzBootStage::AwaitReady || self.stage
            == VzBootStage::ListServicesAfter;
        let mut remove: Vec<String> = Vec::new();
        assert(text::views(remove@) =~= Seq::<Seq<char>>::empty());
        if stop_helper {
            text::push_str(&mut remove, self.gateway_uds.as_str());
        }
        match &self.rootfs.temp {
            Some(p) => {
                text::push_str(&mut remove, p.as_str());
            },
            None => {},
        }
        match &self.kernel.temp {
            Some(p) => {
                text::push_str(&mut remove, p.as_str());
            },
            None => {},
        }
        assert(text::views(remove@) =~= left_behind(self));
        VzBootStep::Failed { error, stop_helper, remove }
    }

    /// Take what came of the host work. The boot succeeds only after the helper reported ready. A
    /// failure asks for the helper to be stopped exactly when one is up, and for every file that the
    /// boot has made to be removed.
    pub fn step(self, event: VzBootEvent) -> (r: VzBootStep)
        ensures
            match r {
                VzBootStep::Next(b) => {
                    &&& step_error(self.stage, event) is None
                    &&& self.stage != VzBootStage::ListServicesAfter
                    &&& advanced(self, event, b)
                },
                VzBootStep::Booted(vm) => {
                    &&& self.stage == VzBootStage::ListServicesAfter
                    &&& event matches VzBootEvent::ServicesListed(after)
                    &&& vm.service_pids@ == if self.probe_drop_services {
                        Seq::empty()
                    } else {
                        fresh_pids(self.services_before@, after@)
                    }
                    &&& vm.pid == self.helper_pid
                    &&& vm.memory_mib == self.spec.mem_size_mib
                    &&& vm.gateway_uds == self.gateway_uds
                    &&& vm.gateway_port == self.spec.gateway_port
                    &&& vm.temp_kernel == self.kernel.temp
                    &&& vm.temp_rootfs == self.rootfs.temp
                    &&& !vm.exited
                },
                VzBootStep::Failed { error, stop_helper, remove } => {
                    &&& step_error(self.stage, event) == Some(error)
                    &&& stop_helper == helper_is_up(self.stage)
                    &&& text::views(remove@) == left_behind(self)
                },
            },
    {
        let mut b = self;
        match (b.stage, event) {
            (VzBootStage::CheckHelper, VzBootEvent::HelperChecked(ok)) => {
                if !ok {
                    return b.failed(VzBootError::HelperMissing);
                }
                b.stage = VzBootStage::ClearSocket;
                VzBootStep::Next(b)
            },
            (VzBootStage::ClearSocket, VzBootEvent::SocketCleared(ok)) => {
                if !ok {
                    return b.failed(VzBootError::SocketStuck);
                }
                b.stage = VzBootStage::PrepareKernel;
                VzBootStep::Next(b)
            },
            (VzBootStage::PrepareKernel, VzBootEvent::KernelPrepared(p)) => match p {
                Some(image) => {
                    b.kernel = image;
                    b.stage = VzBootStage::PrepareRootfs;
                    VzBootStep::Next(b)
                },
                None => b.failed(VzBootError::KernelFailed),
            },
            (VzBootStage::PrepareRootfs, VzBootEvent::RootfsPrepared(p)) => match p {
                Some(image) => {
                    b.rootfs = image;
                    b.stage = VzBootStage::ListServicesBefore;
                    VzBootStep::Next(b)
                },
                None => b.failed(VzBootError::RootfsFailed),
            },
            (VzBootStage::ListServicesBefore, VzBootEvent::ServicesListed(pids)) => {
                b.services_before = pids;
                b.stage = VzBootStage::Spawn;
                VzBootStep::Next(b)
            },
            (VzBootStage::Spawn, VzBootEvent::Spawned(pid)) => match pid {
                Some(pid) => {
                    b.helper_pid = pid;
                    b.stage = VzBootStage::AwaitReady;
                    VzBootStep::Next(b)
                },
                None => b.failed(VzBootError::SpawnFailed),
            },
            (VzBootStage::AwaitReady, VzBootEvent::Reported(report)) => match report {
                Readiness::Ready => {
                    b.stage = VzBootStage::ListServicesAfter;
                    VzBootStep::Next(b)
                },
                other => b.failed(VzBootError::NotReady(other)),
            },
            (VzBootStage::AwaitReady, VzBootEvent::ChannelClosed) => b.failed(VzBootError::ChannelClosed),
            (VzBootStage::AwaitReady, VzBootEvent::TimedOut) => b.failed(VzBootError::NotReadyInTime),
            (VzBootStage::ListServicesAfter, VzBootEvent::ServicesListed(after)) => {
                let service_pids = discovered_service_pids(
                    &b.services_before,
                    &after,
                    b.probe_drop_services,
                );
                VzBootStep::Booted(
                    BootedVzVm {
                        pid: b.helper_pid,
                        service_pids,
                        memory_mib: b.spec.mem_size_mib,
                        gateway_uds: b.gateway_uds,
                        gateway_port: b.spec.gateway_port,
                        temp_kernel: b.kernel.temp,
                        temp_rootfs: b.rootfs.temp,
                        exited: false,
                    },
                )
            },
            _ => b.failed(VzBootError::OutOfOrder),
        }
    }
}

// ---------------------------------------------------------------------------------------------
// Laws
// ---------------------------------------------------------------------------------------------
/// No VM snapshot of any class may be restored on the VZ backend: its guests resume from
/// application checkpoints only.
pub proof fn vz_never_restores_a_snapshot(class: SnapshotClass)
    ensures
        vz_capabilities().snapshot != Some(class),
        vz_capabilities().app_checkpoint,
{
}

/// The file-name form of an instance id is never empty, never longer than the id's cut, and made
/// of safe characters alone, so it cannot leave the directory it is placed in.
pub proof fn safe_id_is_a_file_name(id: Seq<char>)
    ensures
        0 < safe_id(id).len() <= MAX_INSTANCE_ID_CHARS,
        forall|k: int|
            0 <= k < safe_id(id).len() ==> {
                let c = #[trigger] safe_id(id)[k];
                text::is_ascii_alnum(c) || c == '-' || c == '_'
            },
{
    reveal_strlit("node");
}

/// Making an instance id safe twice changes nothing.
pub proof fn safe_id_is_idempotent(id: Seq<char>)
    ensures
        safe_id(safe_id(id)) == safe_id(id),
{
    safe_id_is_a_file_name(id);
    let s = safe_id(id);
    let n = s.len() as int;
    assert(s.take(n) =~= s);
    assert(safe_id(s) =~= s);
}

/// A boot that is stopped at any stage after the helper came up asks for the helper to be stopped,
/// and one that fails before never does.
pub proof fn helper_is_up_from_spawn_on(stage: VzBootStage)
    ensures
        helper_is_up(stage_after(VzBootStage::Spawn)),
        helper_is_up(stage) ==> helper_is_up(stage_after(stage)),
        helper_is_up(stage_after(stage)) && !helper_is_up(stage) ==> stage == VzBootStage::Spawn,
{
}

/// A boot that fails once the helper is up leaves no more behind than a guest's halt removes.
pub proof fn failed_boot_is_cleaned_up_like_a_halt(b: VzBoot, vm: BootedVzVm)
    requires
        helper_is_up(b.stage),
        vm.gateway_uds == b.gateway_uds,
        vm.temp_kernel == b.kernel.temp,
        vm.temp_rootfs == b.rootfs.temp,
    ensures
        left_behind(b) == removed_at_halt(vm),
{
}

/// A guest can only come up through a ready report: the one event that leaves the waiting stage
/// without failing is the helper's own.
pub proof fn only_a_ready_report_leaves_the_wait(event: VzBootEvent)
    ensures
        step_error(VzBootStage::AwaitReady, event) is None <==> event == VzBootEvent::Reported(
            Readiness::Ready,
        ),
{
}

// ---------------------------------------------------------------------------------------------
// What the calls come to
// ---------------------------------------------------------------------------------------------
/// A boot from beginning to end: it checks the helper, clears the socket, prepares kernel and rootfs,
/// lists the services, spawns the helper, waits for its report and lists the services again, each
/// step once. The guest that comes up is the spawned helper's, of the spec's memory and port, reached
/// over the boot's socket, with the services that came up meanwhile and the files that the boot made.
pub proof fn boot_brings_the_spawned_guest_up(
    spec: GuestSpec,
    own_pid: u32,
    probes: VzProbes,
    b0: VzBoot,
    b1: VzBoot,
    b2: VzBoot,
    b3: VzBoot,
    b4: VzBoot,
    b5: VzBoot,
    b6: VzBoot,
    b7: VzBoot,
    kernel: PreparedImage,
    rootfs: PreparedImage,
    before: Vec<u32>,
    pid: u32,
    after: Vec<u32>,
    last: VzBootStep,
    service: u32,
)
    requires
        call_ensures(VzBoot::begin, (spec, own_pid, true, true, probes), Ok(b0)),
        call_ensures(VzBoot::step, (b0, VzBootEvent::HelperChecked(true)), VzBootStep::Next(b1)),
        call_ensures(VzBoot::step, (b1, VzBootEvent::SocketCleared(true)), VzBootStep::Next(b2)),
        call_ensures(
            VzBoot::step,
            (b2, VzBootEvent::KernelPrepared(Some(kernel))),
            VzBootStep::Next(b3),
        ),
        call_ensures(
            VzBoot::step,
            (b3, VzBootEvent::RootfsPrepared(Some(rootfs))),
            VzBootStep::Next(b4),
        ),
        call_ensures(VzBoot::step, (b4, VzBootEvent::ServicesListed(before)), VzBootStep::Next(b5)),
        call_ensures(VzBoot::step, (b5, VzBootEvent::Spawned(Some(pid))), VzBootStep::Next(b6)),
        call_ensures(
            VzBoot::step,
            (b6, VzBootEvent::Reported(Readiness::Ready)),
            VzBootStep::Next(b7),
        ),
        call_ensures(VzBoot::step, (b7, VzBootEvent::ServicesListed(after)), last),
    ensures
        b0.stage is CheckHelper && b1.stage is ClearSocket && b2.stage is PrepareKernel,
        b3.stage is PrepareRootfs && b4.stage is ListServicesBefore && b5.stage is Spawn,
        b6.stage is AwaitReady && b7.stage is ListServicesAfter,
        b5.kernel == kernel && b5.rootfs == rootfs && b5.spec == spec,
        last is Booted,
        ({
            let vm = last->Booted_0;
            &&& vm.pid == pid
            &&& vm.memory_mib == spec.mem_size_mib
            &&& vm.gateway_port == spec.gateway_port
            &&& vm.gateway_uds@ == "/tmp/kirby-vz-"@ + text::decimal(own_pid as nat) + "-"@
                + safe_id(spec.instance_id@) + "-"@ + text::decimal(spec.gateway_port as nat)
                + ".sock"@
            &&& vm.temp_kernel == kernel.temp
            &&& vm.temp_rootfs == rootfs.temp
            &&& !vm.exited
            &&& probes.drop_service_pids ==> vm.service_pids@.len() == 0
            &&& !probes.drop_service_pids ==> (vm.service_pids@.contains(service)
                <==> after@.contains(service) && !before@.contains(service))
        }),
{
    fresh_pids_are_those_that_came_up(before@, after@, service);
}

/// The services of a boot are those listed after it and not before it.
pub proof fn fresh_pids_are_those_that_came_up(before: Seq<u32>, after: Seq<u32>, pid: u32)
    ensures
        fresh_pids(before, after).contains(pid) <==> after.contains(pid) && !before.contains(pid),
    decreases after.len(),
{
    let keep = |p: u32| !before.contains(p);
    let kept = after.filter(keep);
    reveal(Seq::filter);
    if after.len() > 0 {
        let init = after.drop_last();
        let last = after.last();
        fresh_pids_are_those_that_came_up(before, init, pid);
        let earlier = init.filter(keep);
        assert(after.contains(pid) <==> init.contains(pid) || pid == last) by {
            if init.contains(pid) {
                let i = choose|i: int| 0 <= i < init.len() && init[i] == pid;
                assert(after[i] == pid);
            }
            if pid == last {
                assert(after[after.len() - 1] == pid);
            }
            if after.contains(pid) && pid != last {
                let i = choose|i: int| 0 <= i < after.len() && after[i] == pid;
                assert(init[i] == pid);
            }
        }
        if keep(last) {
            assert(kept == earlier.push(last));
            if earlier.contains(pid) {
                let i = choose|i: int| 0 <= i < earlier.len() && earlier[i] == pid;
                assert(kept[i] == pid);
            }
            if pid == last {
                assert(kept[earlier.len() as int] == pid);
            }
            if kept.contains(pid) && pid != last {
                let i = choose|i: int| 0 <= i < kept.len() && kept[i] == pid;
                assert(earlier[i] == pid);
            }
        } else {
            assert(kept == earlier);
        }
    }
}

/// Which specs are booted: those that need neither snapshots nor the egress lockdown, whose kernel and
/// rootfs are files. The first rule that is broken is named.
pub proof fn vz_boots_plain_guests_only(
    spec: GuestSpec,
    own_pid: u32,
    kernel_is_file: bool,
    rootfs_is_file: bool,
    probes: VzProbes,
    valid: Result<(), VzSpecError>,
    begun: Result<VzBoot, VzSpecError>,
)
    requires
        call_ensures(validate_vz_boot_spec, (&spec, kernel_is_file, rootfs_is_file), valid),
        call_ensures(
            VzBoot::begin,
            (spec, own_pid, kernel_is_file, rootfs_is_file, probes),
            begun,
        ),
    ensures
        valid is Ok <==> !spec.snapshot_capable && !spec.lockdown_egress && kernel_is_file
            && rootfs_is_file,
        begun is Ok <==> valid is Ok,
        spec.snapshot_capable ==> valid == Err::<(), _>(VzSpecError::SnapshotCapable),
        !spec.snapshot_capable && spec.lockdown_egress ==> valid == Err::<(), _>(
            VzSpecError::LockdownEgress,
        ),
        begun matches Ok(b) ==> b.spec == spec && b.kernel.path@ == spec.image.kernel@
            && b.rootfs.path@ == spec.image.rootfs@ && b.probe_stop_ms
            == probes.stop_vm_after_ready_ms && b.probe_pause_ms == probes.pause_vm_after_ready_ms,
{
}

/// The helper is launched for this guest: its arguments name the prepared kernel and rootfs, the boot's
/// socket, and the spec's port, CPUs, memory and workload, each behind its flag.
pub proof fn helper_is_launched_for_the_guest(b: VzBoot, r: VzBootAction)
    requires
        b.stage is Spawn,
        call_ensures(VzBoot::action, (&b,), r),
    ensures
        r is Spawn,
        ({
            let args = text::views(r->Spawn_0@);
            &&& args.len() >= 12
            &&& args[0] == "--kernel"@ && args[1] == b.kernel.path@
            &&& args[2] == "--rootfs"@ && args[3] == b.rootfs.path@
            &&& args[4] == "--gateway-uds"@ && args[5] == b.gateway_uds@
            &&& args[6] == "--gateway-port"@ && args[7] == text::decimal(
                b.spec.gateway_port as nat,
            )
            &&& args[8] == "--cpus"@ && args[9] == text::decimal(b.spec.vcpu_count as nat)
            &&& args[10] == "--memory-mib"@ && args[11] == text::decimal(b.spec.mem_size_mib as nat)
            &&& b.spec.workload is Some ==> args.len() >= 14 && args[12] == "--workload"@ && args[13]
                == b.spec.workload->0@
            &&& b.spec.workload is None && b.probe_stop_ms is None && b.probe_pause_ms is None
                ==> args.len() == 12
            &&& b.spec.workload is Some && b.probe_stop_ms is None && b.probe_pause_ms is None
                ==> args.len() == 14
            &&& b.spec.workload is Some && b.probe_stop_ms is Some && b.probe_pause_ms is Some
                ==> args.len() == 18 && args[14] == "--probe-stop-vm-after-ready-ms"@ && args[15]
                == b.probe_stop_ms->0@ && args[16] == "--probe-pause-vm-after-ready-ms"@ && args[17]
                == b.probe_pause_ms->0@
        }),
{
    let args = text::views(r->Spawn_0@);
    let l = choose|l: HelperLaunch| b.launch(l) && args == #[trigger] helper_command_line(l);
    assert(args == helper_command_line(l));
}

/// A boot goes on with the event that its stage waits for, if that is a good one, and fails with
/// anything else; it then asks for the helper to be stopped exactly if one is up, and for the files
/// that it made to be removed.
pub proof fn boot_fails_with_what_went_wrong(b: VzBoot, event: VzBootEvent, r: VzBootStep)
    requires
        call_ensures(VzBoot::step, (b, event), r),
    ensures
        ({
            let good = match b.stage {
                VzBootStage::CheckHelper => event == VzBootEvent::HelperChecked(true),
                VzBootStage::ClearSocket => event == VzBootEvent::SocketCleared(true),
                VzBootStage::PrepareKernel => event matches VzBootEvent::KernelPrepared(Some(_)),
                VzBootStage::PrepareRootfs => event matches VzBootEvent::RootfsPrepared(Some(_)),
                VzBootStage::ListServicesBefore => event is ServicesListed,
                VzBootStage::Spawn => event matches VzBootEvent::Spawned(Some(_)),
                VzBootStage::AwaitReady => event == VzBootEvent::Reported(Readiness::Ready),
                VzBootStage::ListServicesAfter => event is ServicesListed,
            };
            &&& r is Failed <==> !good
            &&& r is Booted <==> good && b.stage is ListServicesAfter
        }),
        r matches VzBootStep::Failed { error, stop_helper, remove } ==> {
            &&& stop_helper <==> b.stage is AwaitReady || b.stage is ListServicesAfter
            &&& stop_helper ==> text::views(remove@).contains(b.gateway_uds@)
            &&& b.kernel.temp matches Some(p) ==> text::views(remove@).contains(p@)
            &&& b.rootfs.temp matches Some(p) ==> text::views(remove@).contains(p@)
            &&& b.stage is AwaitReady && event is TimedOut ==> error is NotReadyInTime
            &&& b.stage is AwaitReady && event is ChannelClosed ==> error is ChannelClosed
            &&& b.stage is CheckHelper && event is HelperChecked ==> error is HelperMissing
            &&& b.stage is ClearSocket && event is SocketCleared ==> error is SocketStuck
            &&& b.stage is PrepareKernel && event is KernelPrepared ==> error is KernelFailed
            &&& b.stage is PrepareRootfs && event is RootfsPrepared ==> error is RootfsFailed
            &&& b.stage is Spawn && event is Spawned ==> error is SpawnFailed
            &&& b.stage is AwaitReady && event is Reported ==> (error matches VzBootError::NotReady(
                report,
            ) && event == VzBootEvent::Reported(report))
        },
        r matches VzBootStep::Next(n) ==> n.spec == b.spec && n.gateway_uds == b.gateway_uds,
{
    if r matches VzBootStep::Failed { error, stop_helper, remove } {
        let files = text::views(r->remove@);
        let sock = if helper_is_up(b.stage) {
            seq![b.gateway_uds@]
        } else {
            Seq::empty()
        };
        assert(files == sock + listed(b.rootfs.temp) + listed(b.kernel.temp));
        if helper_is_up(b.stage) {
            assert(files[0] == b.gateway_uds@);
        }
        if b.rootfs.temp is Some {
            assert(files[sock.len() as int] == b.rootfs.temp->0@);
        }
        if b.kernel.temp is Some {
            assert(files[(sock.len() + listed(b.rootfs.temp).len()) as int] == b.kernel.temp->0@);
        }
    }
}

/// What a boot waits for at each stage.
pub proof fn stage_names_its_host_work(b: VzBoot, r: VzBootAction)
    requires
        call_ensures(VzBoot::action, (&b,), r),
    ensures
        b.stage is CheckHelper <==> r is CheckHelper,
        b.stage is ClearSocket ==> (r matches VzBootAction::ClearSocket(p) && p@ == b.gateway_uds@),
        b.stage is PrepareKernel <==> r is PrepareKernel,
        b.stage is PrepareRootfs <==> r is PrepareRootfs,
        b.stage is ListServicesBefore || b.stage is ListServicesAfter <==> r is ListServices,
        b.stage is AwaitReady ==> r == VzBootAction::AwaitReady(30),
{
}

/// The helper's report: the first ready line says ready, the first error line is handed on, and the end
/// of the stream before either is a failure. After the report nothing more is reported.
pub proof fn helper_reports_once(
    watch: &mut HelperReadiness,
    again: &mut HelperReadiness,
    event: StderrEvent,
    next: StderrEvent,
    r: Option<Readiness>,
    second: Option<Readiness>,
)
    requires
        call_ensures(HelperReadiness::observe, (watch, event), r),
        *final(watch) == *old(again),
        call_ensures(HelperReadiness::observe, (again, next), second),
    ensures
        r is Some ==> second is None,
        !old(watch).waiting ==> r is None,
        old(watch).waiting && event is Ended ==> r == Some(Readiness::ExitedBeforeReady),
        old(watch).waiting && event is ReadFailed ==> r == Some(Readiness::ReadFailedBeforeReady),
        old(watch).waiting ==> (event matches StderrEvent::Line(line) ==> {
            &&& r == Some(Readiness::Ready) <==> "KIRBY_VZ_READY "@.is_prefix_of(line@)
            &&& "KIRBY_VZ_ERROR "@.is_prefix_of(line@) && !("KIRBY_VZ_READY "@.is_prefix_of(line@))
                ==> r == Some(Readiness::Refused(line))
            &&& !("KIRBY_VZ_ERROR "@.is_prefix_of(line@)) && !("KIRBY_VZ_READY "@.is_prefix_of(
                line@,
            )) ==> r is None
        }),
{
}

/// How a helper is stopped: one that has exited is left alone, one that still has a process id is asked
/// to terminate, and whatever outlives the wait is killed.
pub proof fn helper_is_stopped_gently_first(
    exited: bool,
    pid: Option<u32>,
    first: StopAction,
    timed_out: bool,
    then: StopAction,
)
    requires
        call_ensures(stop_first, (exited, pid), first),
        call_ensures(stop_after_wait, (timed_out,), then),
    ensures
        exited ==> first == StopAction::Done,
        !exited ==> (pid matches Some(p) ==> first == StopAction::TerminateAndWait(p)),
        !exited && pid is None ==> first == StopAction::Wait,
        timed_out <==> then == StopAction::Kill,
        !timed_out <==> then == StopAction::Done,
{
}

/// A rootfs is padded to whole blocks: a length of whole 512-byte blocks is used as it is, any other is
/// padded to the next multiple, by less than a block.
pub proof fn rootfs_is_padded_to_whole_blocks(
    len: u64,
    pid: u32,
    instance_id: &str,
    port: u32,
    r: RootfsPlan,
)
    requires
        len <= u64::MAX - 511,
        call_ensures(prepare_vz_rootfs, (len, pid, instance_id, port), r),
    ensures
        len % 512 == 0 <==> r is UseAsIs,
        r matches RootfsPlan::Pad { path, padded_len } ==> padded_len == (len / 512 + 1) * 512
            && path@ == "/tmp/kirby-vz-"@ + text::decimal(pid as nat) + "-"@ + safe_id(
            instance_id@,
        ) + "-"@ + text::decimal(port as nat) + ".rootfs.raw"@,
{
}

/// A kernel that is no ELF file is booted as it is; one that is, as its flat image in a file of the
/// boot's own.
pub proof fn elf_kernel_is_converted(
    kernel: &[u8],
    pid: u32,
    instance_id: &str,
    port: u32,
    r: Result<KernelPlan, elf::ElfError>,
    flat: Result<Option<Vec<u8>>, elf::ElfError>,
    uds: String,
)
    requires
        call_ensures(prepare_vz_kernel, (kernel, pid, instance_id, port), r),
        call_ensures(elf::elf64_aarch64_to_raw_image, (kernel,), flat),
        call_ensures(vz_gateway_uds_path, (pid, instance_id, port), uds),
    ensures
        flat is Err <==> r is Err,
        flat matches Ok(None) <==> (r matches Ok(KernelPlan::UseAsIs)),
        flat matches Ok(Some(image)) ==> (r matches Ok(KernelPlan::Convert { path, image: written })
            && written@ == image@ && path@ == "/tmp/kirby-vz-"@ + text::decimal(pid as nat) + "-"@
            + safe_id(instance_id@) + "-"@ + text::decimal(port as nat) + ".Image"@),
        uds@ == "/tmp/kirby-vz-"@ + text::decimal(pid as nat) + "-"@ + safe_id(instance_id@) + "-"@
            + text::decimal(port as nat) + ".sock"@,
{
}

proof fn lemma_safe_char(c: char)
    ensures
        safe_char(c) == if ('a' <= c && c <= 'z') || ('A' <= c && c <= 'Z') || ('0' <= c && c <= '9')
            || c == '-' || c == '_' {
            c
        } else {
            '-'
        },
{
}

/// A guest without an id is `node`.
pub proof fn empty_id_is_node(id: &str, r: String)
    requires
        call_ensures(sanitize_instance_id, (id,), r),
        id@.len() == 0,
    ensures
        r@ == "node"@,
{
}

/// A short id of safe characters is its own file-name form, a long one is cut to 32, and what is not
/// safe becomes a hyphen.
pub proof fn safe_ids_are_kept(id: &str, r: String, k: int)
    requires
        call_ensures(sanitize_instance_id, (id,), r),
        0 <= k < id@.len(),
    ensures
        r@.len() == if id@.len() < 32 {
            id@.len() as int
        } else {
            32
        },
        k < 32 && (('a' <= id@[k] && id@[k] <= 'z') || ('A' <= id@[k] && id@[k] <= 'Z') || ('0'
            <= id@[k] && id@[k] <= '9') || id@[k] == '-' || id@[k] == '_') ==> r@[k] == id@[k],
        k < 32 && !(('a' <= id@[k] && id@[k] <= 'z') || ('A' <= id@[k] && id@[k] <= 'Z') || ('0'
            <= id@[k] && id@[k] <= '9') || id@[k] == '-' || id@[k] == '_') ==> r@[k] == '-',
{
    let n = if id@.len() < 32 {
        id@.len() as int
    } else {
        32
    };
    if k < 32 {
        assert(id@.take(n)[k] == id@[k]);
        assert(safe_id(id@)[k] == safe_char(id@[k]));
        lemma_safe_char(id@[k]);
    }
}

/// A guest that was seen to exit stays gone, and one runs exactly while the poll says so.
pub proof fn exited_guest_stays_gone(
    vm: &mut BootedVzVm,
    later: &mut BootedVzVm,
    poll: HelperPoll,
    next: HelperPoll,
    running: bool,
    still: bool,
)
    requires
        call_ensures(BootedVzVm::is_running, (vm, poll), running),
        *final(vm) == *old(later),
        call_ensures(BootedVzVm::is_running, (later, next), still),
    ensures
        running <==> !old(vm).exited && poll == HelperPoll::StillRunning,
        poll == HelperPoll::Exited || old(vm).exited ==> !still,
        !old(vm).exited && poll != HelperPoll::Exited && next == HelperPoll::StillRunning ==> still,
        final(vm).gateway_uds == old(vm).gateway_uds && final(vm).pid == old(vm).pid,
{
}

/// What a guest is known by: the gateway is served over its socket and port, its helper, services and
/// memory are billed, and a halt removes its socket and the files that its boot made.
pub proof fn guest_is_known_by_its_boot(
    vm: BootedVzVm,
    transport: GatewayTransport,
    meter: MeterSource,
    files: Vec<String>,
)
    requires
        call_ensures(<BootedVzVm as SandboxInstance>::gateway_transport, (&vm,), transport),
        call_ensures(<BootedVzVm as SandboxInstance>::meter_source, (&vm,), meter),
        call_ensures(BootedVzVm::files_to_remove, (&vm,), files),
    ensures
        transport matches GatewayTransport::VzVsockProxyUds { uds_path, port } && uds_path@
            == vm.gateway_uds@ && port == vm.gateway_port,
        meter matches MeterSource::HostProcess { root_pid, service_pids, memory_mib } && root_pid
            == vm.pid && service_pids@ == vm.service_pids@ && memory_mib == vm.memory_mib,
        text::views(files@)[0] == vm.gateway_uds@,
        vm.temp_rootfs matches Some(p) ==> text::views(files@).contains(p@),
        vm.temp_kernel matches Some(p) ==> text::views(files@).contains(p@),
        files@.len() == 1 + (if vm.temp_rootfs is Some {
            1int
        } else {
            0
        }) + (if vm.temp_kernel is Some {
            1int
        } else {
            0
        }),
{
    let names = text::views(files@);
    assert(names.len() == files@.len());
    if vm.temp_rootfs is Some {
        assert(names[1] == vm.temp_rootfs->0@);
    }
    if vm.temp_kernel is Some {
        assert(names[(1 + listed(vm.temp_rootfs).len()) as int] == vm.temp_kernel->0@);
    }
}

/// What the backend reports: AArch64 guests behind a hardware VM, coarse metering, checkpoints and no
/// snapshots.
pub proof fn vz_reports_what_it_can_do(backend: VzBackend, caps: BackendCapabilities)
    requires
        call_ensures(<VzBackend as SandboxBackend>::capabilities, (&backend,), caps),
    ensures
        caps.backend == BackendKind::VirtualizationFramework,
        caps.guest_arch == GuestArch::Aarch64,
        caps.isolation == IsolationTier::HardwareVm,
        caps.metering == MeterFidelity::HostCoarse,
        caps.snapshot is None,
        caps.app_checkpoint,
{
}

/// A VM service is known by its name, wherever in the path it stands.
pub proof fn service_is_known_by_its_name(
    before: Seq<char>,
    after: Seq<char>,
    path: &str,
    r: bool,
)
    requires
        call_ensures(is_vz_service_path, (path,), r),
    ensures
        path@ == before + "com.apple.Virtualization.VirtualMachine"@ + after ==> r,
        r ==> exists|at: int|
            0 <= at && at + 39 <= path@.len() && #[trigger] path@.subrange(at, at + 39)
                == "com.apple.Virtualization.VirtualMachine"@,
{
    reveal_strlit("com.apple.Virtualization.VirtualMachine");
    let needle = "com.apple.Virtualization.VirtualMachine"@;
    if path@ == before + needle + after {
        let at = before.len() as int;
        assert(path@.subrange(at, at + needle.len()) =~= needle);
        assert(text::occurs_at(path@, needle, at));
    }
    if r {
        let at = choose|at: int| #[trigger] text::occurs_at(path@, needle, at);
        assert(path@.subrange(at, at + 39) == needle);
    }
}

/// The waits of a boot and of a halt are bounded, and halting is the shorter one.
pub proof fn waits_are_bounded()
    ensures
        VZ_READY_TIMEOUT_SECS == 30,
        VZ_STOP_TIMEOUT_SECS == 5,
{
}

/// A VZ guest is served and billed by its boot, and has no egress control.
pub proof fn guest_has_no_egress_control(vm: BootedVzVm, r: Option<&dyn EgressControl>)
    requires
        call_ensures(<BootedVzVm as SandboxInstance>::egress_control, (&vm,), r),
    ensures
        r is None,
{
}

/// A boot's probes stay as they were given, and no step changes what the boot is of: the guest, its
/// socket, and all that the step's event does not bring.
pub proof fn step_keeps_what_it_does_not_bring(
    spec: GuestSpec,
    own_pid: u32,
    probes: VzProbes,
    begun: VzBoot,
    b: VzBoot,
    event: VzBootEvent,
    next: VzBoot,
)
    requires
        call_ensures(VzBoot::begin, (spec, own_pid, true, true, probes), Ok(begun)),
        call_ensures(VzBoot::step, (b, event), VzBootStep::Next(next)),
    ensures
        begun.probe_stop_ms == probes.stop_vm_after_ready_ms,
        begun.probe_pause_ms == probes.pause_vm_after_ready_ms,
        begun.probe_drop_services == probes.drop_service_pids,
        next.probe_stop_ms == b.probe_stop_ms,
        next.probe_pause_ms == b.probe_pause_ms,
        next.probe_drop_services == b.probe_drop_services,
        next.spec == b.spec,
        next.gateway_uds == b.gateway_uds,
        !(event is KernelPrepared) ==> next.kernel == b.kernel,
        !(event is RootfsPrepared) ==> next.rootfs == b.rootfs,
        !(event is ServicesListed) ==> next.services_before == b.services_before,
        !(event is Spawned) ==> next.helper_pid == b.helper_pid,
{
}

} // verus!
