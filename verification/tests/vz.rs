use kirby_node::elf::{elf64_aarch64_to_raw_image, read_u16_le, read_u32_le, read_u64_le, ElfError};
use kirby_node::sandbox::{
    may_restore, BackendCapabilities, BackendKind, CpuClass, EgressDropCounter, GatewayTransport,
    GuestArch, GuestImage, GuestSpec, IsolationTier, LocalDirTransfer, MeterFidelity, MeterSource,
    SandboxBackend, SandboxInstance, SnapshotArtifact, SnapshotClass, SnapshotTransfer,
    TransferError,
};
use kirby_node::vz::{
    discovered_service_pids, is_vz_service_path, prepare_vz_kernel, prepare_vz_rootfs,
    sanitize_instance_id, stop_after_wait, stop_first, validate_vz_boot_spec, vz_gateway_uds_path,
    HelperPoll, HelperReadiness, KernelPlan, PreparedImage, Readiness, RootfsPlan, StderrEvent,
    StopAction, VzBackend, VzBoot, VzBootAction, VzBootError, VzBootEvent, VzBootStep, VzProbes,
    VzSpecError, VZ_READY_TIMEOUT_SECS,
};

fn spec() -> GuestSpec {
    GuestSpec {
        image: GuestImage { kernel: "/img/Image".to_string(), rootfs: "/img/root.raw".to_string() },
        instance_id: "agent/1".to_string(),
        guest_cid: 3,
        gateway_port: 5000,
        vcpu_count: 2,
        mem_size_mib: 256,
        workload: Some("brain".to_string()),
        lockdown_egress: false,
        snapshot_capable: false,
    }
}

fn probes() -> VzProbes {
    VzProbes {
        stop_vm_after_ready_ms: None,
        pause_vm_after_ready_ms: Some("20".to_string()),
        drop_service_pids: false,
    }
}

fn begin() -> VzBoot {
    VzBoot::begin(spec(), 77, true, true, probes()).unwrap()
}

fn next(boot: VzBoot, event: VzBootEvent) -> VzBoot {
    match boot.step(event) {
        VzBootStep::Next(b) => b,
        other => panic!("{other:?}"),
    }
}

fn prepared(path: &str, temp: Option<&str>) -> Option<PreparedImage> {
    Some(PreparedImage { path: path.to_string(), temp: temp.map(|t| t.to_string()) })
}

fn at_spawn() -> VzBoot {
    let b = next(begin(), VzBootEvent::HelperChecked(true));
    let b = next(b, VzBootEvent::SocketCleared(true));
    let b = next(b, VzBootEvent::KernelPrepared(prepared("/tmp/k", Some("/tmp/k"))));
    let b = next(b, VzBootEvent::RootfsPrepared(prepared("/tmp/r", Some("/tmp/r"))));
    next(b, VzBootEvent::ServicesListed(vec![1, 2]))
}

#[test]
fn vz_reports_what_it_can_do() {
    let caps = VzBackend::new().capabilities();
    assert_eq!(caps.backend, BackendKind::VirtualizationFramework);
    assert_eq!(caps.guest_arch, GuestArch::Aarch64);
    assert_eq!(caps.isolation, IsolationTier::HardwareVm);
    assert_eq!(caps.metering, MeterFidelity::HostCoarse);
    assert!(caps.snapshot.is_none());
    assert!(caps.app_checkpoint);
    assert!(VzBackend::default().capabilities().snapshot.is_none());
}

#[test]
fn vz_refuses_what_it_cannot_boot() {
    assert!(validate_vz_boot_spec(&spec(), true, true).is_ok());
    let mut s = spec();
    s.lockdown_egress = true;
    assert_eq!(validate_vz_boot_spec(&s, true, true), Err(VzSpecError::LockdownEgress));
    s.snapshot_capable = true;
    assert_eq!(validate_vz_boot_spec(&s, true, true), Err(VzSpecError::SnapshotCapable));
    assert_eq!(validate_vz_boot_spec(&spec(), false, true), Err(VzSpecError::KernelNotFound));
    assert_eq!(validate_vz_boot_spec(&spec(), true, false), Err(VzSpecError::RootfsNotFound));
    assert!(VzBoot::begin(s, 1, true, true, probes()).is_err());
}

#[test]
fn instance_ids_become_file_names() {
    assert_eq!(sanitize_instance_id("agent/1"), "agent-1");
    assert_eq!(sanitize_instance_id(""), "node");
    assert_eq!(sanitize_instance_id("../../etc"), "------etc");
    assert_eq!(sanitize_instance_id(&"x".repeat(40)), "x".repeat(32));
    assert_eq!(vz_gateway_uds_path(77, "agent/1", 5000), "/tmp/kirby-vz-77-agent-1-5000.sock");
}

#[test]
fn boot_brings_a_guest_up() {
    let b = begin();
    assert!(matches!(b.action(), VzBootAction::CheckHelper));
    let b = next(b, VzBootEvent::HelperChecked(true));
    match b.action() {
        VzBootAction::ClearSocket(path) => assert_eq!(path, "/tmp/kirby-vz-77-agent-1-5000.sock"),
        other => panic!("{other:?}"),
    }
    let b = next(b, VzBootEvent::SocketCleared(true));
    assert!(matches!(b.action(), VzBootAction::PrepareKernel));
    let b = next(b, VzBootEvent::KernelPrepared(prepared("/tmp/k", Some("/tmp/k"))));
    assert!(matches!(b.action(), VzBootAction::PrepareRootfs));
    let b = next(b, VzBootEvent::RootfsPrepared(prepared("/img/root.raw", None)));
    assert!(matches!(b.action(), VzBootAction::ListServices));
    let b = next(b, VzBootEvent::ServicesListed(vec![10, 11]));
    match b.action() {
        VzBootAction::Spawn(args) => assert_eq!(
            args.join(" "),
            "--kernel /tmp/k --rootfs /img/root.raw \
             --gateway-uds /tmp/kirby-vz-77-agent-1-5000.sock --gateway-port 5000 --cpus 2 \
             --memory-mib 256 --workload brain --probe-pause-vm-after-ready-ms 20"
        ),
        other => panic!("{other:?}"),
    }
    let b = next(b, VzBootEvent::Spawned(Some(900)));
    assert!(matches!(b.action(), VzBootAction::AwaitReady(VZ_READY_TIMEOUT_SECS)));
    let b = next(b, VzBootEvent::Reported(Readiness::Ready));
    assert!(matches!(b.action(), VzBootAction::ListServices));
    let mut vm = match b.step(VzBootEvent::ServicesListed(vec![10, 12, 11, 13])) {
        VzBootStep::Booted(vm) => vm,
        other => panic!("{other:?}"),
    };
    assert_eq!(vm.pid, 900);
    assert_eq!(vm.service_pids, vec![12, 13]);
    assert_eq!(vm.files_to_remove(), vec![vm.gateway_uds.clone(), "/tmp/k".to_string()]);
    assert!(matches!(
        vm.gateway_transport(),
        GatewayTransport::VzVsockProxyUds { uds_path, port: 5000 } if uds_path == vm.gateway_uds
    ));
    assert!(matches!(
        vm.meter_source(),
        MeterSource::HostProcess { root_pid: 900, service_pids, memory_mib: 256 }
            if service_pids == vec![12, 13]
    ));
    assert!(vm.egress_control().is_none());
    assert!(vm.is_running(HelperPoll::StillRunning));
    assert!(!vm.is_running(HelperPoll::Failed));
    assert!(vm.is_running(HelperPoll::StillRunning));
    assert!(!vm.is_running(HelperPoll::Exited));
    assert!(!vm.is_running(HelperPoll::StillRunning));
}

#[test]
fn failed_boot_says_what_to_clean_up() {
    match begin().step(VzBootEvent::HelperChecked(false)) {
        VzBootStep::Failed { error: VzBootError::HelperMissing, stop_helper, remove } => {
            assert!(!stop_helper);
            assert!(remove.is_empty());
        }
        other => panic!("{other:?}"),
    }
    match at_spawn().step(VzBootEvent::Spawned(None)) {
        VzBootStep::Failed { error: VzBootError::SpawnFailed, stop_helper, remove } => {
            assert!(!stop_helper);
            assert_eq!(remove, vec!["/tmp/r".to_string(), "/tmp/k".to_string()]);
        }
        other => panic!("{other:?}"),
    }
    let waiting = next(at_spawn(), VzBootEvent::Spawned(Some(5)));
    let socket = waiting.gateway_uds.clone();
    match waiting.step(VzBootEvent::TimedOut) {
        VzBootStep::Failed { error: VzBootError::NotReadyInTime, stop_helper, remove } => {
            assert!(stop_helper);
            assert_eq!(remove, vec![socket, "/tmp/r".to_string(), "/tmp/k".to_string()]);
        }
        other => panic!("{other:?}"),
    }
}

#[test]
fn every_boot_fault_is_told_apart() {
    let fault = |b: VzBoot, e: VzBootEvent| match b.step(e) {
        VzBootStep::Failed { error, .. } => error,
        other => panic!("{other:?}"),
    };
    let clearing = || next(begin(), VzBootEvent::HelperChecked(true));
    let kernel = || next(clearing(), VzBootEvent::SocketCleared(true));
    let rootfs = || next(kernel(), VzBootEvent::KernelPrepared(prepared("/k", None)));
    let waiting = || next(at_spawn(), VzBootEvent::Spawned(Some(5)));
    assert!(matches!(
        fault(clearing(), VzBootEvent::SocketCleared(false)),
        VzBootError::SocketStuck
    ));
    assert!(matches!(fault(kernel(), VzBootEvent::KernelPrepared(None)), VzBootError::KernelFailed));
    assert!(matches!(fault(rootfs(), VzBootEvent::RootfsPrepared(None)), VzBootError::RootfsFailed));
    assert!(matches!(fault(waiting(), VzBootEvent::ChannelClosed), VzBootError::ChannelClosed));
    assert!(matches!(
        fault(waiting(), VzBootEvent::Reported(Readiness::ExitedBeforeReady)),
        VzBootError::NotReady(Readiness::ExitedBeforeReady)
    ));
    assert!(matches!(fault(begin(), VzBootEvent::TimedOut), VzBootError::OutOfOrder));
}

#[test]
fn helper_reports_once() {
    let line = |s: &str| StderrEvent::Line(s.to_string());
    let mut r = HelperReadiness::new();
    assert!(r.observe(line("starting")).is_none());
    assert!(matches!(r.observe(line("KIRBY_VZ_READY vm")), Some(Readiness::Ready)));
    assert!(r.observe(line("KIRBY_VZ_ERROR late")).is_none());
    assert!(r.observe(StderrEvent::Ended).is_none());
    let mut r = HelperReadiness::new();
    assert!(matches!(
        r.observe(line("KIRBY_VZ_ERROR no kernel")),
        Some(Readiness::Refused(l)) if l == "KIRBY_VZ_ERROR no kernel"
    ));
    let mut r = HelperReadiness::new();
    assert!(matches!(r.observe(StderrEvent::Ended), Some(Readiness::ExitedBeforeReady)));
    let mut r = HelperReadiness::new();
    assert!(matches!(r.observe(StderrEvent::ReadFailed), Some(Readiness::ReadFailedBeforeReady)));
}

#[test]
fn helper_is_terminated_then_killed() {
    assert_eq!(stop_first(true, Some(3)), StopAction::Done);
    assert_eq!(stop_first(false, Some(3)), StopAction::TerminateAndWait(3));
    assert_eq!(stop_first(false, None), StopAction::Wait);
    assert_eq!(stop_after_wait(true), StopAction::Kill);
    assert_eq!(stop_after_wait(false), StopAction::Done);
}

#[test]
fn service_processes_are_those_that_came_up() {
    assert_eq!(discovered_service_pids(&vec![1, 2], &vec![3, 2, 4], false), vec![3, 4]);
    assert!(discovered_service_pids(&vec![1], &vec![3], true).is_empty());
    assert!(is_vz_service_path(
        "/System/x/com.apple.Virtualization.VirtualMachine.xpc/Contents/MacOS/vm"
    ));
    assert!(!is_vz_service_path("/usr/bin/true"));
}

#[test]
fn rootfs_is_padded_to_a_block() {
    assert!(matches!(prepare_vz_rootfs(1024, 1, "a", 2), RootfsPlan::UseAsIs));
    assert!(matches!(prepare_vz_rootfs(0, 1, "a", 2), RootfsPlan::UseAsIs));
    match prepare_vz_rootfs(1025, 1, "a", 2) {
        RootfsPlan::Pad { path, padded_len } => {
            assert_eq!(path, "/tmp/kirby-vz-1-a-2.rootfs.raw");
            assert_eq!(padded_len, 1536);
        }
        other => panic!("{other:?}"),
    }
}

/// An ELF64 file with the program headers `(type, offset, paddr, filesz)` behind its header.
fn elf(headers: &[(u32, u64, u64, u64)], tail: &[u8]) -> Vec<u8> {
    let mut b = vec![0u8; 64];
    b[0..6].copy_from_slice(&[0x7f, b'E', b'L', b'F', 2, 1]);
    b[18..20].copy_from_slice(&183u16.to_le_bytes());
    b[32..40].copy_from_slice(&64u64.to_le_bytes());
    b[54..56].copy_from_slice(&56u16.to_le_bytes());
    b[56..58].copy_from_slice(&(headers.len() as u16).to_le_bytes());
    for (kind, offset, paddr, filesz) in headers {
        let mut h = [0u8; 56];
        h[0..4].copy_from_slice(&kind.to_le_bytes());
        h[8..16].copy_from_slice(&offset.to_le_bytes());
        h[24..32].copy_from_slice(&paddr.to_le_bytes());
        h[32..40].copy_from_slice(&filesz.to_le_bytes());
        b.extend_from_slice(&h);
    }
    b.extend_from_slice(tail);
    b
}

#[test]
fn elf_kernel_is_flattened_by_load_address() {
    let at = 64 + 56 * 4;
    let file = elf(
        &[(1, at + 2, 0x8000_0006, 2), (6, 0, 0, 64), (1, at, 0x8000_0000, 2), (1, at, 0x9, 0)],
        &[1, 2, 3, 4],
    );
    let image = elf64_aarch64_to_raw_image(&file).unwrap().unwrap();
    assert_eq!(image, vec![1, 2, 0, 0, 0, 0, 3, 4]);
    match prepare_vz_kernel(&file, 1, "a", 2).unwrap() {
        KernelPlan::Convert { path, image } => {
            assert_eq!(path, "/tmp/kirby-vz-1-a-2.Image");
            assert_eq!(image.len(), 8);
        }
        other => panic!("{other:?}"),
    }
}

#[test]
fn later_segment_covers_an_earlier_one() {
    let at = 64 + 56 * 2;
    let file = elf(&[(1, at, 0x10, 3), (1, at + 3, 0x11, 1)], &[1, 2, 3, 9]);
    assert_eq!(elf64_aarch64_to_raw_image(&file).unwrap().unwrap(), vec![1, 9, 3]);
}

#[test]
fn relocated_kernel_has_the_same_image() {
    let at = 64 + 56 * 2;
    let image = |shift: u64, vaddr: u8| {
        let headers = [(1, at, 0x10 + shift, 3), (1, at + 3, 0x15 + shift, 1)];
        let mut file = elf(&headers, &[1, 2, 3, 9]);
        file[64 + 16] = vaddr;
        file[64 + 56 + 40] = vaddr;
        elf64_aarch64_to_raw_image(&file).unwrap().unwrap()
    };
    assert_eq!(image(0, 0), vec![1, 2, 3, 0, 0, 9]);
    assert_eq!(image(0x4000_0000, 7), image(0, 0));
}

#[test]
fn raw_kernel_is_used_as_it_is() {
    assert!(elf64_aarch64_to_raw_image(b"ARM\x64 raw").unwrap().is_none());
    assert!(elf64_aarch64_to_raw_image(&[]).unwrap().is_none());
    assert!(matches!(prepare_vz_kernel(b"raw", 1, "a", 2), Ok(KernelPlan::UseAsIs)));
}

#[test]
fn every_elf_fault_is_told_apart() {
    let fault = |b: &[u8]| elf64_aarch64_to_raw_image(b).unwrap_err();
    let good = elf(&[(1, 120, 0, 1)], &[1]);
    let with = |at: usize, bytes: &[u8]| {
        let mut b = good.clone();
        b[at..at + bytes.len()].copy_from_slice(bytes);
        b
    };
    assert_eq!(fault(&good[..4]), ElfError::NotElf64);
    assert_eq!(fault(&with(4, &[1])), ElfError::NotElf64);
    assert_eq!(fault(&with(5, &[2])), ElfError::NotLittleEndian);
    assert_eq!(fault(&good[..10]), ElfError::ShortRead(18));
    assert_eq!(fault(&with(18, &[62, 0])), ElfError::WrongMachine(62));
    assert_eq!(fault(&good[..30]), ElfError::ShortRead(32));
    assert_eq!(fault(&good[..50]), ElfError::ShortRead(54));
    assert_eq!(fault(&good[..57]), ElfError::ShortRead(56));
    assert_eq!(fault(&with(54, &[55, 0])), ElfError::HeaderTooSmall(55));
    assert_eq!(fault(&with(32, &[0xff; 8])), ElfError::HeaderEndOverflow);
    let mut two = with(32, &[0xff; 8]);
    two[32..40].copy_from_slice(&(u64::MAX - 30).to_le_bytes());
    assert_eq!(fault(&two), ElfError::HeaderEndOverflow);
    assert_eq!(fault(&good[..119]), ElfError::HeaderPastEof(0));
    assert_eq!(fault(&with(64 + 8, &[0xff; 8])), ElfError::LoadRangeOverflow);
    assert_eq!(fault(&with(64 + 8, &[121])), ElfError::LoadPastEof(0));
    assert_eq!(fault(&with(64 + 32, &[0])), ElfError::NoLoadableSegments);
    let far = elf(&[(1, 64, 0, 1), (1, 64, u64::MAX, 1)], &[]);
    assert_eq!(fault(&far), ElfError::ImageSizeOverflow);
}

#[test]
fn elf_fields_are_little_endian() {
    let b = [1, 2, 3, 4, 5, 6, 7, 8, 9];
    assert_eq!(read_u16_le(&b, 1), Ok(0x0302));
    assert_eq!(read_u32_le(&b, 1), Ok(0x0504_0302));
    assert_eq!(read_u64_le(&b, 1), Ok(0x0908_0706_0504_0302));
    assert_eq!(read_u16_le(&b, 8), Err(ElfError::ShortRead(8)));
    assert_eq!(read_u32_le(&b, 6), Err(ElfError::ShortRead(6)));
    assert_eq!(read_u64_le(&b, 2), Err(ElfError::ShortRead(2)));
}

fn class(backend: BackendKind, guest_arch: GuestArch) -> SnapshotClass {
    SnapshotClass { backend, guest_arch, cpu_class: CpuClass::IntelT2CL }
}

#[test]
fn snapshot_restores_on_its_own_class_only() {
    let fc = class(BackendKind::Firecracker, GuestArch::X86_64);
    assert!(fc.restorable_on(&class(BackendKind::Firecracker, GuestArch::X86_64)));
    assert!(!fc.restorable_on(&class(BackendKind::Firecracker, GuestArch::Aarch64)));
    assert!(!fc.restorable_on(&class(BackendKind::VirtualizationFramework, GuestArch::X86_64)));
    let caps = BackendCapabilities {
        backend: BackendKind::Firecracker,
        guest_arch: GuestArch::X86_64,
        isolation: IsolationTier::HardwareVmJailed,
        metering: MeterFidelity::CgroupExact,
        snapshot: Some(class(BackendKind::Firecracker, GuestArch::X86_64)),
        app_checkpoint: true,
    };
    assert!(may_restore(&caps, &fc));
    assert!(!may_restore(&VzBackend::new().capabilities(), &fc));
}

fn artifact(vmstate: &str, mem: &str) -> SnapshotArtifact<u8> {
    SnapshotArtifact {
        vmstate_path: vmstate.to_string(),
        mem_path: mem.to_string(),
        class: class(BackendKind::Firecracker, GuestArch::X86_64),
        restore_data: 9,
    }
}

#[test]
fn transfer_keeps_names_class_and_data() {
    let t = LocalDirTransfer { target_dir: "/dst".to_string() };
    let plan = t.transfer(artifact("/src/a.vmstate", "/src/a.mem")).unwrap();
    assert_eq!((plan.vmstate.from.as_str(), plan.vmstate.to.as_str()), ("/src/a.vmstate", "/dst/a.vmstate"));
    assert_eq!((plan.mem.from.as_str(), plan.mem.to.as_str()), ("/src/a.mem", "/dst/a.mem"));
    assert_eq!(plan.moved.vmstate_path, "/dst/a.vmstate");
    assert_eq!(plan.moved.mem_path, "/dst/a.mem");
    assert_eq!(plan.moved.class, class(BackendKind::Firecracker, GuestArch::X86_64));
    assert_eq!(plan.moved.restore_data, 9);
    assert!(matches!(t.transfer(artifact("/", "/src/a.mem")), Err(TransferError::VmstateHasNoName)));
    assert!(matches!(t.transfer(artifact("/src/a", "..")), Err(TransferError::MemHasNoName)));
}

#[test]
fn footprint_counts_the_files_that_are_there() {
    let a = artifact("/a", "/b");
    assert_eq!(a.footprint_bytes(Some(3), Some(4)), 7);
    assert_eq!(a.footprint_bytes(None, Some(4)), 4);
    assert_eq!(a.footprint_bytes(None, None), 0);
}

#[test]
fn drop_counter_starts_at_zero() {
    let c = EgressDropCounter::default();
    assert_eq!((c.packets, c.bytes), (0, 0));
}
