use kirby_node::boot::{BootConfig, GenomeEvent};
use kirby_node::sandbox::{
    BackendKind, CpuClass, GuestArch, GuestImage, SnapshotArtifact, SnapshotClass,
};
use kirby_node::snapshot_run::{
    node1_booted, observe_post_resume, parse_fingerprint, parse_generation, PostResumeObservation,
    PostResumeWatch, SnapshotRunConfig, SnapshotRunOutcome,
};

fn boot() -> BootConfig {
    BootConfig {
        image: GuestImage { kernel: "/img/vmlinux".to_string(), rootfs: "/img/rootfs".to_string() },
        node_id: "node-1".to_string(),
        task: "t".to_string(),
        budget_sats: 100,
        initial_sats: 70,
        allow: vec!["mint".to_string()],
        guest_cid: 3,
        gateway_port: 5000,
        vcpu_count: 1,
        mem_size_mib: 128,
        hello_timeout_ms: 40_000,
        workload: None,
        brain: None,
        memory: None,
        diarist: None,
        lockdown_egress: false,
        snapshot_capable: false,
        restore_checkpoint: None,
    }
}

fn artifact() -> SnapshotArtifact<u32> {
    SnapshotArtifact {
        vmstate_path: "/jail/vmstate".to_string(),
        mem_path: "/jail/mem".to_string(),
        class: SnapshotClass {
            backend: BackendKind::Firecracker,
            guest_arch: GuestArch::X86_64,
            cpu_class: CpuClass::IntelT2CL,
        },
        restore_data: 9,
    }
}

fn event(kind: &str, detail: &str) -> GenomeEvent {
    GenomeEvent { kind: kind.to_string(), detail: detail.to_string() }
}

#[test]
fn parse_fingerprint_extracts_the_hex() {
    let detail = "beat=2 task=g7-demo gen_seen=1 fingerprint=deadbeef fp_gen=1";
    assert_eq!(parse_fingerprint(detail).as_deref(), Some("deadbeef"));
    assert_eq!(parse_fingerprint("beat=1 task=t gen_seen=0"), None);
}

#[test]
fn parse_generation_extracts_the_value() {
    assert_eq!(parse_generation("generation=1"), Some(1));
    assert_eq!(parse_generation("generation=0"), Some(0));
    assert_eq!(parse_generation("something else"), None);
    assert_eq!(parse_generation("generation=x generation=1"), None);
}

#[test]
fn a_run_derives_the_second_node() {
    let config = SnapshotRunConfig::new(boot(), "/tmp");
    assert_eq!(config.node2_id, "node-1-n2");
    assert_eq!(config.transfer_dir, "/tmp/kirby-snapshot-node-1");
    assert_eq!(config.treasury_path("/tmp"), "/tmp/kirby-treasury-snap-node-1");
    assert_eq!(config.boot.workload.as_deref(), Some("snapshot"));
    assert!(config.boot.snapshot_capable);
    let guest = config.node1_guest();
    assert_eq!(guest.instance_id, "node-1");
    assert!(guest.snapshot_capable);
    let restore = config.node2_restore();
    assert_eq!(restore.instance_id, "node-1-n2");
    assert_eq!(restore.gateway_port, 5000);
    assert_eq!(config.session().allowlisted_destinations, vec!["mint".to_string()]);
    let control = SnapshotRunConfig::new_negative_control(boot(), "/tmp");
    assert_eq!(control.boot.workload.as_deref(), Some("resume-noredrive"));
}

#[test]
fn a_move_that_goes_well_survives() {
    let config = SnapshotRunConfig::new(boot(), "/tmp");
    let running = node1_booted(&config, true).unwrap();
    assert_eq!(running.treasury_initial_sats, 70);
    let alive = running.heard(Some("beat=1 fingerprint=aa"), 0, Ok(70)).unwrap();
    let snap = alive.snapshotted(&config, Ok(artifact())).unwrap();
    assert_eq!(snap.plan.vmstate.to, "/tmp/kirby-snapshot-node-1/vmstate");
    assert_eq!(snap.plan.mem.to, "/tmp/kirby-snapshot-node-1/mem");
    let moved = snap.transferred(Ok((Some(10), Some(100)))).unwrap();
    assert_eq!(moved.snapshot_bytes, 110);
    assert_eq!(moved.bumps(), 1);
    let (ready, art) = moved.reopened(Ok(70), 1).unwrap();
    assert_eq!(art.restore_data, 9);
    let restored = ready.restored(Ok(true)).unwrap();
    let heard = observe_post_resume(
        &vec![
            event("entropy_nonce_call", "generation=1"),
            event("heartbeat", "beat=2 fingerprint=bb"),
        ],
        1,
    );
    let outcome = restored.judged(heard);
    assert!(outcome.passed());
    assert!(outcome.g7_passed());
    assert!(!outcome.fingerprints_equal());
    assert_eq!(outcome.post_resume_detail.as_deref(), Some("beat=2 fingerprint=bb"));
}

#[test]
fn reused_entropy_is_caught() {
    let base = SnapshotRunOutcome {
        pre_snapshot_round_trip: true,
        snapshot_bytes: 1,
        node1_killed: true,
        node2_reached_running: true,
        post_resume_round_trip: true,
        post_resume_detail: None,
        generation_pre: 3,
        generation_post: 4,
        treasury_pre: 5,
        treasury_post: 5,
        fingerprint_pre: Some("aa".to_string()),
        fingerprint_post: Some("aa".to_string()),
        entropy_call_before_post_resume_act: true,
    };
    assert!(base.passed() && base.fingerprints_equal() && !base.g7_passed());
    let fresh = SnapshotRunOutcome { fingerprint_post: Some("bb".to_string()), ..base.clone() };
    assert!(fresh.g7_passed());
    let late = SnapshotRunOutcome { entropy_call_before_post_resume_act: false, ..fresh.clone() };
    assert!(!late.g7_passed());
    let unbumped = SnapshotRunOutcome { generation_post: 3, ..fresh.clone() };
    assert!(!unbumped.passed() && !unbumped.g7_passed());
    let refilled = SnapshotRunOutcome { treasury_post: 6, ..fresh.clone() };
    assert!(!refilled.passed());
    let edge = SnapshotRunOutcome {
        generation_pre: u64::MAX,
        generation_post: 0,
        ..fresh
    };
    assert!(!edge.passed());
}

#[test]
fn failures_say_whether_node_one_is_up() {
    let config = SnapshotRunConfig::new(boot(), "/tmp");
    let f = node1_booted(&config, false).unwrap_err();
    assert!(f.halt_node1);
    let f = node1_booted(&config, true).unwrap().heard(None, 0, Ok(70)).unwrap_err();
    assert!(f.halt_node1 && f.message.contains("pre-snapshot heartbeat"));
    let f = node1_booted(&config, true)
        .unwrap()
        .heard(Some("beat=1"), 0, Err("sled is gone".to_string()))
        .unwrap_err();
    assert!(f.halt_node1);
    assert_eq!(f.message, "sled is gone");
    let alive = node1_booted(&config, true).unwrap().heard(Some("beat=1"), 0, Ok(70)).unwrap();
    let f = alive
        .snapshotted::<u32>(&config, Err("no kvm".to_string()))
        .unwrap_err();
    assert!(f.halt_node1);
    assert_eq!(f.message, "node 1: snapshot failed: no kvm");
}

#[test]
fn only_a_call_at_the_new_generation_counts() {
    let heard = observe_post_resume(
        &vec![event("entropy_nonce_call", "generation=0"), event("heartbeat", "beat=1")],
        1,
    );
    assert!(!heard.entropy_call_before_act);
    let heard = observe_post_resume(
        &vec![event("heartbeat", "beat=1"), event("entropy_nonce_call", "generation=1")],
        1,
    );
    assert!(!heard.entropy_call_before_act);
    assert_eq!(heard.heartbeat.as_deref(), Some("beat=1"));
    let silent = PostResumeWatch::new(1).expired();
    assert!(matches!(
        silent,
        PostResumeObservation { heartbeat: None, entropy_call_before_act: false }
    ));
}
