use kirby_node::boot::{CheckpointRef, GenomeEvent};
use kirby_node::config::{
    validate_agent_label, FundingConfig, GenomeImage, IdentityConfig, KirbyConfig, LabelError,
    MemoryConfig, RelayConfig, ResolvedBackend, RunMode, Workload, WorkloadKind,
};
use kirby_node::run_agent::{
    agent_boot_config, agent_state_emitter, bootstrap_birth, bootstrap_end, evidence_line,
    latest_stored_checkpoint, metered_run, lifecycle_event, pin_diarist_memory_key, presence_config,
    resume_down, resume_outcome, resume_up, ActDestinations, DeathReason, EndReason, Lifecycle,
    MeteredOutcome, MissingCheckpoint, NotRunning, RestoreWatch, RunAgentConfig, RunAgentOutcome,
    RunConfigError, StoredFile, Terminated, DEFAULT_METER_TICK_MS, DEFAULT_VCPU,
};
use kirby_node::sandbox::{GuestArch, GuestImage};

fn memory_defaults() -> MemoryConfig {
    MemoryConfig { key_path: None, settings: String::new() }
}

fn test_config(mode: RunMode) -> KirbyConfig {
    KirbyConfig {
        identity: IdentityConfig {
            key_path: "/tmp/kirby/node.key".to_string(),
            treasury_dir: "/tmp/kirby".to_string(),
        },
        relay: RelayConfig {
            url: "ws://127.0.0.1:7777".to_string(),
            presence_interval_secs: 15,
            presence_stale_after_secs: 45,
        },
        backend: ResolvedBackend::Firecracker,
        genome_image: GenomeImage::Path("/tmp/kirby/img".to_string()),
        workload: Workload {
            kind: WorkloadKind::Other,
            genome_workload: "app-checkpoint".to_string(),
            submits_checkpoint: true,
        },
        brain: "brain-block".to_string(),
        memory: memory_defaults(),
        diarist: "diarist-block".to_string(),
        meter: "meter-block".to_string(),
        mode,
        funding: FundingConfig { initial_sats: 3_000 },
        agent_id: "agent-0".to_string(),
        node_id: "node-1".to_string(),
    }
}

fn run_of(kind: WorkloadKind, submits_checkpoint: bool) -> RunAgentConfig {
    let mut cfg = test_config(RunMode::Bootstrap);
    cfg.workload = Workload { kind, genome_workload: "w".to_string(), submits_checkpoint };
    RunAgentConfig::from_config(cfg, Some(GuestArch::X86_64)).unwrap()
}

fn dests() -> ActDestinations {
    ActDestinations {
        brain_completion: "brain.completion".to_string(),
        memory: "memory.act".to_string(),
    }
}

fn image() -> GuestImage {
    GuestImage { kernel: "k".to_string(), rootfs: "r".to_string() }
}

#[test]
fn diarist_memory_key_pins_to_identity_when_unset() {
    let identity_key = "/var/lib/kirby/node.nostr.key";

    let mem = memory_defaults();
    assert!(mem.key_path.is_none(), "the default memory key is unset");
    let pinned = pin_diarist_memory_key(&mem, identity_key);
    assert_eq!(
        pinned.key_path,
        Some(identity_key.to_string()),
        "an unset memory key pins to the resolved node identity key"
    );

    let explicit = "/custom/journal.key".to_string();
    let mem2 = MemoryConfig { key_path: Some(explicit.clone()), ..memory_defaults() };
    let pinned2 = pin_diarist_memory_key(&mem2, identity_key);
    assert_eq!(pinned2.key_path, Some(explicit), "an explicit memory key is not overridden");
}

#[test]
fn run_config_resolves_local_image_and_defaults() {
    let run =
        RunAgentConfig::from_config(test_config(RunMode::Bootstrap), Some(GuestArch::X86_64))
            .unwrap();
    assert!(run.image_dir.ends_with("img"));
    assert_eq!(run.meter_tick_ms, DEFAULT_METER_TICK_MS);
    assert_eq!(run.vcpu_count, DEFAULT_VCPU);
    assert!(run.checkpoint_dir.ends_with("checkpoints-agent-0"));
    assert_eq!(run.checkpoint_dir, "/tmp/kirby/checkpoints-agent-0");
}

#[test]
fn run_config_url_image_is_a_stub_error() {
    let mut cfg = test_config(RunMode::Bootstrap);
    cfg.genome_image = GenomeImage::Url("https://example.com/img.tar".to_string());
    let err = RunAgentConfig::from_config(cfg, Some(GuestArch::X86_64)).unwrap_err();
    assert!(err.message().contains("not yet implemented"));
}

#[test]
fn bootstrap_birth_gate_predicate() {
    let outcome = RunAgentOutcome {
        npub: "npub1test".to_string(),
        backend: ResolvedBackend::Firecracker,
        mode: RunMode::Bootstrap,
        reached_running: true,
        born_emitted: true,
        died_emitted: false,
        restore_seen: false,
        burned_sats: 0,
        remaining_sats: 3_000,
        end_reason: EndReason::Stopped,
    };
    assert!(outcome.bootstrap_birth_passed());
    let no_born = RunAgentOutcome { born_emitted: false, ..outcome.clone() };
    assert!(!no_born.bootstrap_birth_passed());
}

#[test]
fn die_when_broke_gate_predicate() {
    let outcome = RunAgentOutcome {
        npub: "npub1test".to_string(),
        backend: ResolvedBackend::Firecracker,
        mode: RunMode::Bootstrap,
        reached_running: true,
        born_emitted: true,
        died_emitted: true,
        restore_seen: false,
        burned_sats: 2_900,
        remaining_sats: 100,
        end_reason: EndReason::BudgetExhausted,
    };
    assert!(outcome.die_when_broke_passed());
    let zero_burn = RunAgentOutcome { burned_sats: 0, ..outcome.clone() };
    assert!(!zero_burn.die_when_broke_passed());
    let stopped = RunAgentOutcome { end_reason: EndReason::Stopped, ..outcome };
    assert!(!stopped.die_when_broke_passed());
}

#[test]
fn resume_gate_predicate() {
    let outcome = RunAgentOutcome {
        npub: "npub1test".to_string(),
        backend: ResolvedBackend::Vz,
        mode: RunMode::Resume,
        reached_running: true,
        born_emitted: false,
        died_emitted: true,
        restore_seen: true,
        burned_sats: 0,
        remaining_sats: 3_000,
        end_reason: EndReason::Resumed,
    };
    assert!(outcome.resume_passed());
    let with_born = RunAgentOutcome { born_emitted: true, ..outcome.clone() };
    assert!(!with_born.resume_passed());
    let no_restore = RunAgentOutcome { restore_seen: false, ..outcome };
    assert!(!no_restore.resume_passed());
}

#[test]
fn run_config_refuses_a_bad_label_and_a_foreign_image() {
    let mut cfg = test_config(RunMode::Bootstrap);
    cfg.agent_id = "a/b".to_string();
    let err = RunAgentConfig::from_config(cfg, Some(GuestArch::X86_64)).unwrap_err();
    assert_eq!(err, RunConfigError::InvalidAgentId(LabelError::BadCharacter));
    let err =
        RunAgentConfig::from_config(test_config(RunMode::Bootstrap), Some(GuestArch::Aarch64))
            .unwrap_err();
    assert_eq!(err, RunConfigError::WrongArch);
    let err = RunAgentConfig::from_config(test_config(RunMode::Bootstrap), None).unwrap_err();
    assert_eq!(err, RunConfigError::WrongArch);
    let mut vz = test_config(RunMode::Resume);
    vz.backend = ResolvedBackend::Vz;
    let run = RunAgentConfig::from_config(vz, Some(GuestArch::Aarch64)).unwrap();
    assert_eq!(run.backend(), ResolvedBackend::Vz);
}

#[test]
fn agent_labels_are_checked() {
    assert_eq!(validate_agent_label("agent-0.A_b"), Ok(()));
    assert_eq!(validate_agent_label(""), Err(LabelError::Empty));
    assert_eq!(validate_agent_label(&"a".repeat(64)), Ok(()));
    assert_eq!(validate_agent_label(&"a".repeat(65)), Err(LabelError::TooLong));
    assert_eq!(validate_agent_label("a b"), Err(LabelError::BadCharacter));
    assert_eq!(validate_agent_label(".."), Err(LabelError::PathComponent));
    assert_eq!(validate_agent_label("."), Err(LabelError::PathComponent));
}

#[test]
fn evidence_is_one_line() {
    let outcome = RunAgentOutcome {
        npub: "npub1test".to_string(),
        backend: ResolvedBackend::Firecracker,
        mode: RunMode::Bootstrap,
        reached_running: true,
        born_emitted: true,
        died_emitted: false,
        restore_seen: false,
        burned_sats: 12,
        remaining_sats: 2_988,
        end_reason: EndReason::Stopped,
    };
    let line = evidence_line(&outcome);
    assert!(line.starts_with("KIRBY-RUN mode="), "{line}");
    assert!(line.contains(" npub=npub1test reached_running=true born=true died=false "), "{line}");
    assert!(line.contains(" restore_seen=false burned_sats=12 remaining_sats=2988 end="), "{line}");
}

#[test]
fn a_mind_reaches_only_its_acts() {
    let boot = |kind| agent_boot_config(&run_of(kind, false), image(), None, "/id.key", &dests());
    let brain = boot(WorkloadKind::Brain);
    assert_eq!(brain.allow, vec!["brain.completion".to_string()]);
    assert_eq!(brain.brain.as_deref(), Some("brain-block"));
    assert!(brain.memory.is_none() && brain.diarist.is_none());
    let memory = boot(WorkloadKind::Memory);
    assert_eq!(memory.allow, vec!["memory.act".to_string()]);
    assert!(memory.memory.unwrap().key_path.is_none());
    let diarist = boot(WorkloadKind::Diarist);
    assert_eq!(
        diarist.allow,
        vec!["brain.completion".to_string(), "memory.act".to_string()]
    );
    assert_eq!(diarist.memory.unwrap().key_path.as_deref(), Some("/id.key"));
    assert_eq!(diarist.diarist.as_deref(), Some("diarist-block"));
    let other = boot(WorkloadKind::Other);
    assert_eq!(other.allow, vec!["mint.test.local".to_string()]);
    assert_eq!(other.task, "kirby-run-agent-0");
    assert_eq!(other.initial_sats, 3_000);
    assert!(!other.lockdown_egress && !other.snapshot_capable);
}

#[test]
fn presence_and_state_follow_the_configuration() {
    let cfg = test_config(RunMode::Bootstrap);
    let p = presence_config(&cfg);
    assert_eq!(p.relay_url, "ws://127.0.0.1:7777");
    assert_eq!((p.interval_secs, p.stale_after_secs), (15, 45));
    assert!(p.endpoint.is_none());
    let e = agent_state_emitter(&cfg, ResolvedBackend::Vz);
    assert_eq!(e.budget_sats, 3_000);
    assert_eq!(e.backend, ResolvedBackend::Vz.label());
}

fn metered(terminated: Terminated, latest_checkpoint: Option<Vec<u8>>) -> MeteredOutcome {
    MeteredOutcome { terminated, burned_sats: 2_900, remaining_at_halt: 100, latest_checkpoint }
}

#[test]
fn a_broke_agent_is_born_and_dies_with_nothing() {
    let run = run_of(WorkloadKind::Other, true);
    let born = bootstrap_birth(&run);
    assert_eq!((born.event.as_str(), born.reason.as_str()), ("born", "funded"));
    assert_eq!(born.treasury_sats, 3_000);
    let end = bootstrap_end(
        &run,
        "npub".to_string(),
        ResolvedBackend::Firecracker,
        true,
        metered(Terminated::BudgetExhausted, Some(vec![1, 2])),
    )
    .unwrap();
    assert_eq!(end.checkpoint, Some(vec![1, 2]));
    assert_eq!((end.died.event.as_str(), end.died.reason.as_str()), ("died", "broke"));
    assert_eq!(end.died.treasury_sats, 0);
    assert_eq!(end.dead.lifecycle, "dead");
    let outcome = end.outcome(true);
    assert!(outcome.die_when_broke_passed());
    assert!(outcome.bootstrap_birth_passed());
    assert!(!outcome.resume_passed());
    assert_eq!(outcome.remaining_sats, 100);
}

#[test]
fn a_stopped_agent_keeps_what_it_has() {
    let run = run_of(WorkloadKind::Other, false);
    let end = bootstrap_end(
        &run,
        "npub".to_string(),
        ResolvedBackend::Firecracker,
        true,
        metered(Terminated::Stopped, Some(vec![1])),
    )
    .unwrap();
    assert_eq!(end.checkpoint, None);
    assert_eq!(end.died.reason, DeathReason::Stopped.as_str());
    assert_eq!(end.died.treasury_sats, 100);
    assert!(!end.outcome(true).die_when_broke_passed());
}

#[test]
fn a_missing_checkpoint_is_an_error() {
    let run = run_of(WorkloadKind::Other, true);
    let r = bootstrap_end(
        &run,
        "npub".to_string(),
        ResolvedBackend::Firecracker,
        true,
        metered(Terminated::Stopped, None),
    );
    assert_eq!(r.unwrap_err(), MissingCheckpoint);
}

fn stored(name: String, is_file: bool, modified_ns: i128) -> StoredFile {
    StoredFile { name, is_file, modified_ns, len: 7 }
}

#[test]
fn the_newest_checkpoint_is_resumed() {
    let a = "a".repeat(64);
    let b = "b".repeat(64);
    let files = vec![
        stored("note.txt".to_string(), true, 99),
        stored(a.clone(), true, 10),
        stored(b.clone(), true, 20),
        stored("c".repeat(64), false, 30),
        stored("g".repeat(64), true, 40),
    ];
    let latest = latest_stored_checkpoint(&files).unwrap();
    assert_eq!(latest.sha256, b);
    assert_eq!(latest.len, 7);
    let tie = vec![stored(a.clone(), true, 5), stored(b, true, 5)];
    assert_eq!(latest_stored_checkpoint(&tie).unwrap().sha256, a);
    assert!(latest_stored_checkpoint(&vec![]).is_none());
}

#[test]
fn a_restore_is_seen_by_hash_and_length() {
    let watch = RestoreWatch::new(&CheckpointRef { sha256: "ab".to_string(), len: 12 });
    let event = |kind: &str, detail: &str| GenomeEvent {
        kind: kind.to_string(),
        detail: detail.to_string(),
    };
    assert!(!watch.observe(&event("heartbeat", "sha256=ab len=12")));
    assert!(!watch.observe(&event("checkpoint_restore_seen", "sha256=ab len=9")));
    assert!(!watch.observe(&event("checkpoint_restore_seen", "len=12")));
    assert!(watch.observe(&event("checkpoint_restore_seen", "sha256=ab len=12")));
}

#[test]
fn metered_run_has_the_configured_rates() {
    let run = run_of(WorkloadKind::Other, true);
    let boot = agent_boot_config(&run, image(), None, "/k", &dests());
    let metered = metered_run(&run, ResolvedBackend::Vz, boot);
    assert_eq!(metered.rates, "meter-block");
    assert_eq!((metered.tick_ms, metered.max_run_ms), (100, 600_000));
    assert_eq!(metered.boot.task, "kirby-run-agent-0");
    assert_eq!(metered.agent_state.backend, "vz");
    assert_eq!(metered.agent_state.budget_sats, 3_000);
}

#[test]
fn a_resumed_agent_continues() {
    let run = run_of(WorkloadKind::Other, true);
    assert_eq!(resume_up(&run, false, Some(5)).unwrap_err(), NotRunning);
    let up = resume_up(&run, true, Some(5)).unwrap();
    assert_eq!(up.treasury_sats, 5);
    let fallback = resume_up(&run, true, None).unwrap();
    assert_eq!(fallback.treasury_sats, 3_000);
    let (state, died) = resume_down(&run, &up);
    assert_eq!(state.lifecycle, "dead");
    assert_eq!(died.event, "died");
    let outcome =
        resume_outcome(&up, "npub".to_string(), ResolvedBackend::Vz, true, true);
    assert!(outcome.resume_passed());
    assert_eq!((outcome.burned_sats, outcome.remaining_sats), (0, 5));
    assert_eq!(outcome.end_reason, EndReason::Resumed);
}

#[test]
fn milestones_have_their_names() {
    let e = lifecycle_event(Lifecycle::Died(DeathReason::Broke), 4);
    assert_eq!((e.event.as_str(), e.reason.as_str(), e.treasury_sats), ("died", "broke", 4));
    let e = lifecycle_event(Lifecycle::Born, 1);
    assert_eq!((e.event.as_str(), e.reason.as_str()), ("born", "funded"));
}
