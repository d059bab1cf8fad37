//! One run of a sovereign agent: boot it, let it live until its money is gone or it is stopped, and
//! say what came of it; or continue it from its latest checkpoint.
//!
//! Booting, publishing and waiting are the caller's. This module decides what is booted, what is
//! published and what a run amounts to.
use vstd::prelude::*;
use vstd::string::StringExecFns;

use crate::boot::{BootConfig, CheckpointRef, GenomeEvent};
use crate::config;
use crate::config::{
    GenomeImage, KirbyConfig, LabelError, MemoryConfig, ResolvedBackend, RunMode, WorkloadKind,
};
use crate::crypto;
use crate::sandbox::{GuestArch, GuestImage};
use crate::text;

verus! {

/// The metering tick, in milliseconds.
pub const DEFAULT_METER_TICK_MS: u64 = 100;

/// The longest run, in milliseconds.
pub const DEFAULT_MAX_RUN_MS: u64 = 600_000;

/// The agent's virtual CPUs.
pub const DEFAULT_VCPU: u8 = 1;

/// The agent's memory, in MiB.
pub const DEFAULT_MEM_MIB: usize = 128;

/// The agent's vsock CID.
pub const DEFAULT_CID: u32 = 3;

/// The gateway's vsock port.
pub const DEFAULT_PORT: u32 = 5000;

/// How long to wait for the genome's first words, in milliseconds.
pub const DEFAULT_HELLO_TIMEOUT_MS: u64 = 40_000;

// ---------------------------------------------------------------------------------------------
// Outcomes
// ---------------------------------------------------------------------------------------------
/// A milestone of an agent's life.
#[derive(Debug, Clone, Copy, PartialEq, Eq, Structural)]
pub enum Lifecycle {
    Born,
    Died(DeathReason),
}

/// Why an agent died.
#[derive(Debug, Clone, Copy, PartialEq, Eq, Structural)]
pub enum DeathReason {
    /// Its budget was exhausted.
    Broke,
    /// It was stopped before that.
    Stopped,
}

impl DeathReason {
    /// The reason's name.
    pub open spec fn spec_str(self) -> Seq<char> {
        match self {
            DeathReason::Broke => "broke"@,
            DeathReason::Stopped => "stopped"@,
        }
    }

    /// The reason's name.
    pub fn as_str(self) -> (r: &'static str)
        ensures
            r@ == self.spec_str(),
    {
        match self {
            DeathReason::Broke => "broke",
            DeathReason::Stopped => "stopped",
        }
    }
}

/// How a run ended.
#[derive(Debug, Clone, Copy, PartialEq, Eq, Structural)]
pub enum EndReason {
    /// The agent's budget was exhausted, and it was halted.
    BudgetExhausted,
    /// The run was stopped before that.
    Stopped,
    /// A resumed agent continued.
    Resumed,
}

impl EndReason {
    /// The reason's name.
    pub open spec fn spec_name(self) -> Seq<char> {
        match self {
            EndReason::BudgetExhausted => "BudgetExhausted"@,
            EndReason::Stopped => "Stopped"@,
            EndReason::Resumed => "Resumed"@,
        }
    }

    /// The reason's name.
    pub fn name(self) -> (r: &'static str)
        ensures
            r@ == self.spec_name(),
    {
        match self {
            EndReason::BudgetExhausted => "BudgetExhausted",
            EndReason::Stopped => "Stopped",
            EndReason::Resumed => "Resumed",
        }
    }
}

/// What a run amounts to.
#[derive(Debug, Clone)]
pub struct RunAgentOutcome {
    /// The node's public identity.
    pub npub: String,
    pub backend: ResolvedBackend,
    pub mode: RunMode,
    /// Whether the agent ran in its sandbox.
    pub reached_running: bool,
    pub born_emitted: bool,
    pub died_emitted: bool,
    /// Whether a resumed agent saw its checkpoint.
    pub restore_seen: bool,
    pub burned_sats: u64,
    pub remaining_sats: u64,
    pub end_reason: EndReason,
}

impl RunAgentOutcome {
    /// The agent was born: it ran, and its birth was published.
    pub open spec fn born(&self) -> bool {
        self.mode == RunMode::Bootstrap && self.reached_running && self.born_emitted
    }

    /// The agent died broke: its budget was exhausted by what the meter read, and its death was
    /// published.
    pub open spec fn died_broke(&self) -> bool {
        self.end_reason == EndReason::BudgetExhausted && self.died_emitted && self.burned_sats > 0
    }

    /// The agent was continued: it ran and saw its checkpoint, and was not born again.
    pub open spec fn continued(&self) -> bool {
        self.mode == RunMode::Resume && self.reached_running && self.restore_seen
            && !self.born_emitted
    }

    /// Whether the agent was born.
    pub fn bootstrap_birth_passed(&self) -> (r: bool)
        ensures
            r == self.born(),
    {
        self.mode == RunMode::Bootstrap && self.reached_running && self.born_emitted
    }

    /// Whether the agent died broke.
    pub fn die_when_broke_passed(&self) -> (r: bool)
        ensures
            r == self.died_broke(),
    {
        self.end_reason == EndReason::BudgetExhausted && self.died_emitted && self.burned_sats > 0
    }

    /// Whether the agent was continued.
    pub fn resume_passed(&self) -> (r: bool)
        ensures
            r == self.continued(),
    {
        self.mode == RunMode::Resume && self.reached_running && self.restore_seen
            && !self.born_emitted
    }
}

/// The line of evidence of an outcome.
pub open spec fn evidence_text(o: RunAgentOutcome) -> Seq<char> {
    "KIRBY-RUN mode="@ + o.mode.spec_name() + " backend="@ + o.backend.spec_label() + " npub="@
        + o.npub@ + " reached_running="@ + text::bool_text(o.reached_running) + " born="@
        + text::bool_text(o.born_emitted) + " died="@ + text::bool_text(o.died_emitted)
        + " restore_seen="@ + text::bool_text(o.restore_seen) + " burned_sats="@ + text::decimal(
        o.burned_sats as nat,
    ) + " remaining_sats="@ + text::decimal(o.remaining_sats as nat) + " end="@
        + o.end_reason.spec_name()
}

/// The line of evidence of an outcome.
pub fn evidence_line(o: &RunAgentOutcome) -> (r: String)
    ensures
        r@ == evidence_text(*o),
{
    let mut s = "KIRBY-RUN mode=".to_owned();
    s.append(o.mode.name());
    s.append(" backend=");
    s.append(o.backend.label());
    s.append(" npub=");
    s.append(o.npub.as_str());
    s.append(" reached_running=");
    text::append_bool(&mut s, o.reached_running);
    s.append(" born=");
    text::append_bool(&mut s, o.born_emitted);
    s.append(" died=");
    text::append_bool(&mut s, o.died_emitted);
    s.append(" restore_seen=");
    text::append_bool(&mut s, o.restore_seen);
    s.append(" burned_sats=");
    text::append_decimal(&mut s, o.burned_sats);
    s.append(" remaining_sats=");
    text::append_decimal(&mut s, o.remaining_sats);
    s.append(" end=");
    s.append(o.end_reason.name());
    s
}

// ---------------------------------------------------------------------------------------------
// The run's inputs
// ---------------------------------------------------------------------------------------------
/// The resolved inputs of one run.
#[derive(Debug)]
pub struct RunAgentConfig {
    pub config: KirbyConfig,
    /// The genome image's directory.
    pub image_dir: String,
    pub meter_tick_ms: u64,
    pub max_run_ms: u64,
    pub guest_cid: u32,
    pub gateway_port: u32,
    pub vcpu_count: u8,
    pub mem_size_mib: usize,
    pub hello_timeout_ms: u64,
    /// Where the agent's checkpoints are kept.
    pub checkpoint_dir: String,
}

/// Why a configuration cannot be run.
#[derive(Debug, Clone, Copy, PartialEq, Eq, Structural)]
pub enum RunConfigError {
    InvalidAgentId(LabelError),
    /// The image would have to be downloaded.
    UrlImage,
    /// The image is of another architecture than the backend boots, or of none.
    WrongArch,
}

impl RunConfigError {
    /// The error as a line of a log.
    pub fn message(self) -> (r: &'static str)
        ensures
            r@ == match self {
                RunConfigError::InvalidAgentId(_) => "agent_id is not a valid agent label"@,
                RunConfigError::UrlImage => "fetching a genome image by URL is not yet implemented"@,
                RunConfigError::WrongArch => "genome image is not of the backend's architecture"@,
            },
    {
        match self {
            RunConfigError::InvalidAgentId(_) => "agent_id is not a valid agent label",
            RunConfigError::UrlImage => "fetching a genome image by URL is not yet implemented",
            RunConfigError::WrongArch => "genome image is not of the backend's architecture",
        }
    }
}

/// Why a configuration cannot be run, if it cannot.
pub open spec fn run_config_error(config: KirbyConfig, image_arch: Option<GuestArch>) -> Option<
    RunConfigError,
> {
    if config::label_error(config.agent_id@) is Some {
        Some(RunConfigError::InvalidAgentId(config::label_error(config.agent_id@)->0))
    } else if config.genome_image is Url {
        Some(RunConfigError::UrlImage)
    } else if image_arch != Some(config.backend.spec_arch()) {
        Some(RunConfigError::WrongArch)
    } else {
        None
    }
}

impl RunAgentConfig {
    /// The inputs of a run: a local image of the backend's architecture, and the default sandbox.
    /// `image_arch` is the architecture that the image's manifest names.
    pub fn from_config(config: KirbyConfig, image_arch: Option<GuestArch>) -> (r: Result<
        RunAgentConfig,
        RunConfigError,
    >)
        ensures
            match r {
                Ok(run) => {
                    &&& run_config_error(config, image_arch) is None
                    &&& run.config == config
                    &&& config.genome_image matches GenomeImage::Path(dir) && run.image_dir@
                        == dir@
                    &&& run.meter_tick_ms == DEFAULT_METER_TICK_MS
                    &&& run.max_run_ms == DEFAULT_MAX_RUN_MS
                    &&& run.guest_cid == DEFAULT_CID
                    &&& run.gateway_port == DEFAULT_PORT
                    &&& run.vcpu_count == DEFAULT_VCPU
                    &&& run.mem_size_mib == DEFAULT_MEM_MIB
                    &&& run.hello_timeout_ms == DEFAULT_HELLO_TIMEOUT_MS
                    &&& run.checkpoint_dir@ == text::joined(
                        config.identity.treasury_dir@,
                        "checkpoints-"@ + config.agent_id@,
                    )
                },
                Err(e) => run_config_error(config, image_arch) == Some(e),
            },
    {
        match config::validate_agent_label(config.agent_id.as_str()) {
            Ok(()) => {},
            Err(e) => return Err(RunConfigError::InvalidAgentId(e)),
        }
        let image_dir = match &config.genome_image {
            GenomeImage::Path(dir) => dir.clone(),
            GenomeImage::Url(_) => return Err(RunConfigError::UrlImage),
        };
        match image_arch {
            Some(arch) => {
                if arch != config.backend.arch() {
                    return Err(RunConfigError::WrongArch);
                }
            },
            None => return Err(RunConfigError::WrongArch),
        }
        let mut name = "checkpoints-".to_owned();
        name.append(config.agent_id.as_str());
        let checkpoint_dir = text::path_join(config.identity.treasury_dir.as_str(), name.as_str());
        Ok(
            RunAgentConfig {
                config,
                image_dir,
                meter_tick_ms: DEFAULT_METER_TICK_MS,
                max_run_ms: DEFAULT_MAX_RUN_MS,
                guest_cid: DEFAULT_CID,
                gateway_port: DEFAULT_PORT,
                vcpu_count: DEFAULT_VCPU,
                mem_size_mib: DEFAULT_MEM_MIB,
                hello_timeout_ms: DEFAULT_HELLO_TIMEOUT_MS,
                checkpoint_dir,
            },
        )
    }

    /// The backend the run boots on.
    pub fn backend(&self) -> (r: ResolvedBackend)
        ensures
            r == self.config.backend,
    {
        self.config.backend
    }
}

// ---------------------------------------------------------------------------------------------
// What the node publishes
// ---------------------------------------------------------------------------------------------
/// The node's presence on the relay.
#[derive(Debug)]
pub struct PresenceConfig {
    pub relay_url: String,
    pub node_id: String,
    pub endpoint: Option<String>,
    pub interval_secs: u64,
    pub stale_after_secs: u64,
}

/// The node's presence, from its configuration. A sovereign node has no endpoint.
pub fn presence_config(config: &KirbyConfig) -> (r: PresenceConfig)
    ensures
        r.relay_url@ == config.relay.url@,
        r.node_id@ == config.node_id@,
        r.endpoint is None,
        r.interval_secs == config.relay.presence_interval_secs,
        r.stale_after_secs == config.relay.presence_stale_after_secs,
{
    PresenceConfig {
        relay_url: config.relay.url.clone(),
        node_id: config.node_id.clone(),
        endpoint: None,
        interval_secs: config.relay.presence_interval_secs,
        stale_after_secs: config.relay.presence_stale_after_secs,
    }
}

/// What the node publishes of its living agent, on the cadence of its presence.
#[derive(Debug)]
pub struct AgentStateEmitter {
    pub relay_url: String,
    pub agent_id: String,
    pub node_id: String,
    pub backend: String,
    pub interval_secs: u64,
    pub budget_sats: u64,
}

/// Whether `r` publishes the agent of `config`, living on `backend`.
pub open spec fn emits(r: AgentStateEmitter, config: KirbyConfig, backend: ResolvedBackend) -> bool {
    &&& r.relay_url@ == config.relay.url@
    &&& r.agent_id@ == config.agent_id@
    &&& r.node_id@ == config.node_id@
    &&& r.backend@ == backend.spec_label()
    &&& r.interval_secs == config.relay.presence_interval_secs
    &&& r.budget_sats == config.funding.initial_sats
}

/// The emitter of a living agent's state.
pub fn agent_state_emitter(config: &KirbyConfig, backend: ResolvedBackend) -> (r: AgentStateEmitter)
    ensures
        emits(r, *config, backend),
{
    AgentStateEmitter {
        relay_url: config.relay.url.clone(),
        agent_id: config.agent_id.clone(),
        node_id: config.node_id.clone(),
        backend: backend.label().to_owned(),
        interval_secs: config.relay.presence_interval_secs,
        budget_sats: config.funding.initial_sats,
    }
}

/// One state of the agent to publish.
#[derive(Debug)]
pub struct AgentState {
    pub treasury_sats: u64,
    pub runway_secs: Option<u64>,
    pub lifecycle: String,
}

/// One milestone of the agent to publish.
#[derive(Debug)]
pub struct LifecycleEvent {
    pub event: String,
    pub reason: String,
    pub treasury_sats: u64,
}

/// The name of a milestone, and its reason.
pub open spec fn lifecycle_names(which: Lifecycle) -> (Seq<char>, Seq<char>) {
    match which {
        Lifecycle::Born => ("born"@, "funded"@),
        Lifecycle::Died(reason) => ("died"@, reason.spec_str()),
    }
}

/// The milestone as it is published.
pub fn lifecycle_event(which: Lifecycle, treasury_sats: u64) -> (r: LifecycleEvent)
    ensures
        (r.event@, r.reason@) == lifecycle_names(which),
        r.treasury_sats == treasury_sats,
{
    let (event, reason) = match which {
        Lifecycle::Born => ("born", "funded"),
        Lifecycle::Died(reason) => ("died", reason.as_str()),
    };
    LifecycleEvent { event: event.to_owned(), reason: reason.to_owned(), treasury_sats }
}

// ---------------------------------------------------------------------------------------------
// What is booted
// ---------------------------------------------------------------------------------------------
/// The diarist's memory: its key is the one configured, or the node's own. The journal is encrypted
/// under it, and only a key that outlives the run can read it again.
pub fn pin_diarist_memory_key(memory: &MemoryConfig, identity_key: &str) -> (r: MemoryConfig)
    ensures
        r.key_path is Some,
        r.key_path->0@ == match memory.key_path {
            Some(k) => k@,
            None => identity_key@,
        },
        r.settings@ == memory.settings@,
{
    let key = match &memory.key_path {
        Some(k) => k.clone(),
        None => identity_key.to_owned(),
    };
    MemoryConfig { key_path: Some(key), settings: memory.settings.clone() }
}

/// The destinations of the acts that think and remember.
#[derive(Debug)]
pub struct ActDestinations {
    pub brain_completion: String,
    pub memory: String,
}

/// The destinations that a workload can reach.
pub open spec fn reachable(kind: WorkloadKind, dests: ActDestinations) -> Seq<Seq<char>> {
    match kind {
        WorkloadKind::Brain => seq![dests.brain_completion@],
        WorkloadKind::Memory => seq![dests.memory@],
        WorkloadKind::Diarist => seq![dests.brain_completion@, dests.memory@],
        WorkloadKind::Other => seq!["mint.test.local"@],
    }
}

/// A workload that thinks carries the brain's block.
pub open spec fn thinks(kind: WorkloadKind) -> bool {
    kind == WorkloadKind::Brain || kind == WorkloadKind::Diarist
}

/// A workload that remembers carries the memory's block.
pub open spec fn remembers(kind: WorkloadKind) -> bool {
    kind == WorkloadKind::Memory || kind == WorkloadKind::Diarist
}

/// Whether `boot` boots the agent of `run`.
pub open spec fn boots(
    boot: BootConfig,
    run: RunAgentConfig,
    dests: ActDestinations,
    identity_key: Seq<char>,
) -> bool {
    let cfg = run.config;
    let kind = cfg.workload.kind;
    &&& boot.node_id@ == cfg.node_id@
    &&& boot.task@ == "kirby-run-"@ + cfg.agent_id@
    &&& boot.budget_sats == cfg.funding.initial_sats
    &&& boot.initial_sats == cfg.funding.initial_sats
    &&& text::views(boot.allow@) == reachable(kind, dests)
    &&& boot.guest_cid == run.guest_cid
    &&& boot.gateway_port == run.gateway_port
    &&& boot.vcpu_count == run.vcpu_count
    &&& boot.mem_size_mib == run.mem_size_mib
    &&& boot.hello_timeout_ms == run.hello_timeout_ms
    &&& boot.workload is Some && boot.workload->0@ == cfg.workload.genome_workload@
    &&& boot.brain is Some <==> thinks(kind)
    &&& boot.brain matches Some(b) ==> b@ == cfg.brain@
    &&& boot.memory is Some <==> remembers(kind)
    &&& boot.memory matches Some(m) ==> {
        &&& m.settings@ == cfg.memory.settings@
        &&& m.key_path is Some <==> cfg.memory.key_path is Some || kind == WorkloadKind::Diarist
        &&& m.key_path matches Some(k) ==> k@ == match cfg.memory.key_path {
            Some(own) => own@,
            None => identity_key,
        }
    }
    &&& boot.diarist is Some <==> kind == WorkloadKind::Diarist
    &&& boot.diarist matches Some(d) ==> d@ == cfg.diarist@
    &&& !boot.lockdown_egress
    &&& !boot.snapshot_capable
}

/// How to boot the agent of a run. What it can reach, and which blocks it carries, follow from its
/// workload: one that thinks or remembers reaches nothing else.
pub fn agent_boot_config(
    run: &RunAgentConfig,
    image: GuestImage,
    restore_checkpoint: Option<CheckpointRef>,
    identity_key: &str,
    dests: &ActDestinations,
) -> (r: BootConfig)
    ensures
        boots(r, *run, *dests, identity_key@),
        r.image == image,
        r.restore_checkpoint == restore_checkpoint,
{
    let cfg = &run.config;
    let mut allow: Vec<String> = Vec::new();
    assert(text::views(allow@) =~= Seq::<Seq<char>>::empty());
    let mut brain: Option<String> = None;
    let mut memory: Option<MemoryConfig> = None;
    let mut diarist: Option<String> = None;
    match cfg.workload.kind {
        WorkloadKind::Brain => {
            text::push_str(&mut allow, dests.brain_completion.as_str());
            brain = Some(cfg.brain.clone());
        },
        WorkloadKind::Memory => {
            text::push_str(&mut allow, dests.memory.as_str());
            let key_path = match &cfg.memory.key_path {
                Some(k) => Some(k.clone()),
                None => None,
            };
            memory = Some(MemoryConfig { key_path, settings: cfg.memory.settings.clone() });
        },
        WorkloadKind::Diarist => {
            text::push_str(&mut allow, dests.brain_completion.as_str());
            text::push_str(&mut allow, dests.memory.as_str());
            brain = Some(cfg.brain.clone());
            memory = Some(pin_diarist_memory_key(&cfg.memory, identity_key));
            diarist = Some(cfg.diarist.clone());
        },
        WorkloadKind::Other => {
            text::push_str(&mut allow, "mint.test.local");
        },
    }
    assert(text::views(allow@) =~= reachable(cfg.workload.kind, *dests));
    let mut task = "kirby-run-".to_owned();
    task.append(cfg.agent_id.as_str());
    BootConfig {
        image,
        node_id: cfg.node_id.clone(),
        task,
        budget_sats: cfg.funding.initial_sats,
        initial_sats: cfg.funding.initial_sats,
        allow,
        guest_cid: run.guest_cid,
        gateway_port: run.gateway_port,
        vcpu_count: run.vcpu_count,
        mem_size_mib: run.mem_size_mib,
        hello_timeout_ms: run.hello_timeout_ms,
        workload: Some(cfg.workload.genome_workload.clone()),
        brain,
        memory,
        diarist,
        lockdown_egress: false,
        snapshot_capable: false,
        restore_checkpoint,
    }
}

/// A mind reaches nothing but its acts: an agent that thinks or remembers cannot reach the mint.
pub proof fn mind_reaches_only_its_acts(
    kind: WorkloadKind,
    dests: ActDestinations,
    destination: Seq<char>,
)
    requires
        thinks(kind) || remembers(kind),
        reachable(kind, dests).contains(destination),
    ensures
        destination == dests.brain_completion@ || destination == dests.memory@,
        !thinks(kind) ==> destination == dests.memory@,
        !remembers(kind) ==> destination == dests.brain_completion@,
{
}

/// The diarist's journal never goes under a throwaway key: the booted diarist has the configured key
/// or the node's own.
pub proof fn diarist_journal_has_a_lasting_key(
    boot: BootConfig,
    run: RunAgentConfig,
    dests: ActDestinations,
    identity_key: Seq<char>,
)
    requires
        boots(boot, run, dests, identity_key),
        run.config.workload.kind == WorkloadKind::Diarist,
    ensures
        boot.memory is Some,
        boot.memory->0.key_path is Some,
        run.config.memory.key_path is None ==> boot.memory->0.key_path->0@ == identity_key,
{
}

// ---------------------------------------------------------------------------------------------
// A life from birth to death
// ---------------------------------------------------------------------------------------------
/// How the metered run ended.
#[derive(Debug, Clone, Copy, PartialEq, Eq, Structural)]
pub enum Terminated {
    BudgetExhausted,
    Stopped,
}

/// How to run an agent under the meter.
#[derive(Debug)]
pub struct MeteredRunConfig {
    pub boot: BootConfig,
    pub tick_ms: u64,
    /// How long the run may last if the money does.
    pub max_run_ms: u64,
    /// What is published of the agent meanwhile.
    pub agent_state: AgentStateEmitter,
    /// The meter's rates, as written.
    pub rates: String,
}

/// How to run the agent that `boot` boots under the meter.
pub fn metered_run(run: &RunAgentConfig, backend: ResolvedBackend, boot: BootConfig) -> (r:
    MeteredRunConfig)
    ensures
        r.boot == boot,
        r.tick_ms == run.meter_tick_ms,
        r.max_run_ms == run.max_run_ms,
        r.rates@ == run.config.meter@,
        emits(r.agent_state, run.config, backend),
{
    MeteredRunConfig {
        boot,
        tick_ms: run.meter_tick_ms,
        max_run_ms: run.max_run_ms,
        agent_state: agent_state_emitter(&run.config, backend),
        rates: run.config.meter.clone(),
    }
}

/// What the metered run of an agent came to.
#[derive(Debug)]
pub struct MeteredOutcome {
    pub terminated: Terminated,
    pub burned_sats: u64,
    pub remaining_at_halt: u64,
    /// The latest checkpoint that the agent submitted.
    pub latest_checkpoint: Option<Vec<u8>>,
}

/// What is left to do once the metered run is over.
#[derive(Debug)]
pub struct BootstrapEnd {
    /// The checkpoint to store.
    pub checkpoint: Option<Vec<u8>>,
    /// The death to publish.
    pub died: LifecycleEvent,
    /// The last state to publish.
    pub dead: AgentState,
    /// The outcome as it stands before the death is published.
    pub pending: RunAgentOutcome,
}

/// The agent's workload submits checkpoints, and it submitted none: there is nothing to resume from.
#[derive(Debug, Clone, Copy, PartialEq, Eq, Structural)]
pub struct MissingCheckpoint;

/// The birth to publish when the agent is funded.
pub fn bootstrap_birth(run: &RunAgentConfig) -> (r: LifecycleEvent)
    ensures
        r.event@ == "born"@,
        r.reason@ == "funded"@,
        r.treasury_sats == run.config.funding.initial_sats,
{
    lifecycle_event(Lifecycle::Born, run.config.funding.initial_sats)
}

/// How a metered run's end counts.
pub open spec fn end_of(t: Terminated) -> EndReason {
    match t {
        Terminated::BudgetExhausted => EndReason::BudgetExhausted,
        Terminated::Stopped => EndReason::Stopped,
    }
}

/// The death of a metered agent, and the treasury it is published with: nothing is left of a broke
/// agent's.
pub open spec fn death_of(m: MeteredOutcome) -> (DeathReason, u64) {
    match m.terminated {
        Terminated::BudgetExhausted => (DeathReason::Broke, 0),
        Terminated::Stopped => (DeathReason::Stopped, m.remaining_at_halt),
    }
}

/// What a metered run leaves to do: store its checkpoint, where the workload submits one, and
/// publish the agent's death and last state.
pub fn bootstrap_end(
    run: &RunAgentConfig,
    npub: String,
    backend: ResolvedBackend,
    born_emitted: bool,
    metered: MeteredOutcome,
) -> (r: Result<BootstrapEnd, MissingCheckpoint>)
    ensures
        r is Err <==> run.config.workload.submits_checkpoint && metered.latest_checkpoint is None,
        r matches Ok(end) ==> {
            &&& end.checkpoint == if run.config.workload.submits_checkpoint {
                metered.latest_checkpoint
            } else {
                None
            }
            &&& (end.died.event@, end.died.reason@) == lifecycle_names(
                Lifecycle::Died(death_of(metered).0),
            )
            &&& end.died.treasury_sats == death_of(metered).1
            &&& end.dead.treasury_sats == death_of(metered).1
            &&& end.dead.runway_secs is None
            &&& end.dead.lifecycle@ == "dead"@
            &&& end.pending == (RunAgentOutcome {
                npub,
                backend,
                mode: RunMode::Bootstrap,
                reached_running: true,
                born_emitted,
                died_emitted: false,
                restore_seen: false,
                burned_sats: metered.burned_sats,
                remaining_sats: metered.remaining_at_halt,
                end_reason: end_of(metered.terminated),
            })
        },
{
    let checkpoint = if run.config.workload.submits_checkpoint {
        if metered.latest_checkpoint.is_none() {
            return Err(MissingCheckpoint);
        }
        metered.latest_checkpoint
    } else {
        None
    };
    let end_reason = match metered.terminated {
        Terminated::BudgetExhausted => EndReason::BudgetExhausted,
        Terminated::Stopped => EndReason::Stopped,
    };
    let (reason, treasury_sats) = match metered.terminated {
        Terminated::BudgetExhausted => (DeathReason::Broke, 0),
        Terminated::Stopped => (DeathReason::Stopped, metered.remaining_at_halt),
    };
    Ok(
        BootstrapEnd {
            checkpoint,
            died: lifecycle_event(Lifecycle::Died(reason), treasury_sats),
            dead: AgentState { treasury_sats, runway_secs: None, lifecycle: "dead".to_owned() },
            pending: RunAgentOutcome {
                npub,
                backend,
                mode: RunMode::Bootstrap,
                reached_running: true,
                born_emitted,
                died_emitted: false,
                restore_seen: false,
                burned_sats: metered.burned_sats,
                remaining_sats: metered.remaining_at_halt,
                end_reason,
            },
        },
    )
}

impl BootstrapEnd {
    /// The run's outcome, once the publishing of the death has been tried.
    pub fn outcome(self, died_emitted: bool) -> (r: RunAgentOutcome)
        ensures
            r == (RunAgentOutcome { died_emitted, ..self.pending }),
    {
        RunAgentOutcome { died_emitted, ..self.pending }
    }
}

/// A bootstrap run is a birth exactly if the birth was published, a death by bankruptcy exactly if
/// the budget ran out by what the meter read and the death was published, and never a resumption.
pub proof fn bootstrap_outcome_is_as_published(
    pending: RunAgentOutcome,
    metered: MeteredOutcome,
    died_emitted: bool,
)
    requires
        pending.mode == RunMode::Bootstrap,
        pending.reached_running,
        !pending.restore_seen,
        pending.burned_sats == metered.burned_sats,
        pending.end_reason == end_of(metered.terminated),
    ensures
        ({
            let o = RunAgentOutcome { died_emitted, ..pending };
            &&& o.born() <==> pending.born_emitted
            &&& o.died_broke() <==> metered.terminated == Terminated::BudgetExhausted
                && died_emitted && metered.burned_sats > 0
            &&& !o.continued()
        }),
{
}

// ---------------------------------------------------------------------------------------------
// A life continued
// ---------------------------------------------------------------------------------------------
/// A file of the checkpoint store.
#[derive(Debug)]
pub struct StoredFile {
    pub name: String,
    pub is_file: bool,
    /// When it was last modified, in nanoseconds since the epoch; 0 if that is unknown.
    pub modified_ns: i128,
    pub len: u64,
}

/// Whether a file is a checkpoint: a regular file named by 64 hexadecimal digits.
pub open spec fn is_checkpoint(f: StoredFile) -> bool {
    &&& f.is_file
    &&& f.name@.len() == 64
    &&& forall|i: int| 0 <= i < f.name@.len() ==> crypto::hex_value(#[trigger] f.name@[i]) is Some
}

/// The position of the newest checkpoint of a store, the first of several.
pub open spec fn newest(files: Seq<StoredFile>) -> Option<int>
    decreases files.len(),
{
    if files.len() == 0 {
        None
    } else {
        let best = newest(files.drop_last());
        let last = files.len() - 1;
        if is_checkpoint(files[last]) && (best is None || files[last].modified_ns
            > files[best->0].modified_ns) {
            Some(last)
        } else {
            best
        }
    }
}

fn hex_digit(c: char) -> (r: bool)
    ensures
        r == (crypto::hex_value(c) is Some),
{
    ('0' <= c && c <= '9') || ('a' <= c && c <= 'f') || ('A' <= c && c <= 'F')
}

fn is_checkpoint_name(name: &str) -> (r: bool)
    ensures
        r == (name@.len() == 64 && forall|i: int|
            0 <= i < name@.len() ==> crypto::hex_value(#[trigger] name@[i]) is Some),
{
    let chars = text::chars_of(name);
    if chars.len() != 64 {
        return false;
    }
    let mut i: usize = 0;
    while i < chars.len()
        invariant
            i <= chars@.len(),
            chars@ == name@,
            forall|j: int| 0 <= j < i ==> crypto::hex_value(#[trigger] name@[j]) is Some,
        decreases chars@.len() - i,
    {
        if !hex_digit(chars[i]) {
            assert(crypto::hex_value(name@[i as int]) is None);
            return false;
        }
        i = i + 1;
    }
    true
}

/// The checkpoint to resume from: the newest of the store. There is none in an empty store.
pub fn latest_stored_checkpoint(files: &Vec<StoredFile>) -> (r: Option<CheckpointRef>)
    ensures
        match newest(files@) {
            None => r is None,
            Some(i) => r is Some && 0 <= i < files@.len() && r->0.sha256@ == files@[i].name@
                && r->0.len == files@[i].len,
        },
{
    let mut best: Option<usize> = None;
    let mut i: usize = 0;
    assert(files@.take(0) =~= Seq::<StoredFile>::empty());
    while i < files.len()
        invariant
            i <= files@.len(),
            best is Some <==> newest(files@.take(i as int)) is Some,
            best matches Some(b) ==> newest(files@.take(i as int)) == Some(b as int) && b < i,
        decreases files@.len() - i,
    {
        let ghost next = files@.take(i + 1);
        assert(next.drop_last() =~= files@.take(i as int));
        let newer = match best {
            None => true,
            Some(b) => {
                assert(next[b as int] == files@[b as int]);
                files[i].modified_ns > files[b].modified_ns
            },
        };
        if files[i].is_file && is_checkpoint_name(files[i].name.as_str()) && newer {
            best = Some(i);
        }
        i = i + 1;
    }
    assert(files@.take(i as int) =~= files@);
    match best {
        Some(b) => Some(CheckpointRef { sha256: files[b].name.clone(), len: files[b].len }),
        None => None,
    }
}

/// The resumed checkpoint is a checkpoint, and none is newer. There is none exactly if the store
/// holds none.
pub proof fn resumed_checkpoint_is_the_newest(files: Seq<StoredFile>)
    ensures
        match newest(files) {
            None => forall|i: int| 0 <= i < files.len() ==> !is_checkpoint(#[trigger] files[i]),
            Some(b) => {
                &&& 0 <= b < files.len()
                &&& is_checkpoint(files[b])
                &&& forall|i: int|
                    0 <= i < files.len() && is_checkpoint(#[trigger] files[i])
                        ==> files[i].modified_ns <= files[b].modified_ns
            },
        },
    decreases files.len(),
{
    if files.len() > 0 {
        let init = files.drop_last();
        resumed_checkpoint_is_the_newest(init);
        assert forall|i: int| 0 <= i < init.len() implies init[i] == #[trigger] files[i] by {}
    }
}

/// Waiting for a resumed agent to say that it saw its checkpoint.
#[derive(Debug)]
pub struct RestoreWatch {
    sha: String,
    len: String,
}

impl RestoreWatch {
    /// The texts that the agent's words must hold: the checkpoint's hash and length.
    pub closed spec fn marks(&self) -> (Seq<char>, Seq<char>) {
        (self.sha@, self.len@)
    }

    /// Wait for `checkpoint`.
    pub fn new(checkpoint: &CheckpointRef) -> (r: Self)
        ensures
            r.marks() == ("sha256="@ + checkpoint.sha256@, "len="@ + text::decimal(
                checkpoint.len as nat,
            )),
    {
        let mut sha = "sha256=".to_owned();
        sha.append(checkpoint.sha256.as_str());
        let mut len = "len=".to_owned();
        text::append_decimal(&mut len, checkpoint.len);
        RestoreWatch { sha, len }
    }

    /// Whether an event says that the agent saw this checkpoint, which ends the wait.
    pub fn observe(&self, event: &GenomeEvent) -> (r: bool)
        ensures
            r == (event.kind@ == "checkpoint_restore_seen"@ && text::contains_text(
                event.detail@,
                self.marks().0,
            ) && text::contains_text(event.detail@, self.marks().1)),
    {
        text::str_eq(event.kind.as_str(), "checkpoint_restore_seen") && text::str_contains(
            event.detail.as_str(),
            self.sha.as_str(),
        ) && text::str_contains(event.detail.as_str(), self.len.as_str())
    }
}

/// A resumed agent that runs.
#[derive(Debug)]
pub struct ResumedAgent {
    /// The treasury it is published with.
    pub treasury_sats: u64,
    /// The state to publish now.
    pub running: AgentState,
}

/// The resumed agent did not reach the running state: halt it.
#[derive(Debug, Clone, Copy, PartialEq, Eq, Structural)]
pub struct NotRunning;

/// Take a resumed agent up, if it runs. Its treasury is the persisted one, or the configured one
/// where that cannot be read.
pub fn resume_up(run: &RunAgentConfig, reached_running: bool, remaining: Option<u64>) -> (r: Result<
    ResumedAgent,
    NotRunning,
>)
    ensures
        r is Ok <==> reached_running,
        r matches Ok(up) ==> {
            let sats = remaining.unwrap_or(run.config.funding.initial_sats);
            &&& up.treasury_sats == sats
            &&& up.running.treasury_sats == sats
            &&& up.running.runway_secs is None
            &&& up.running.lifecycle@ == "running"@
        },
{
    if !reached_running {
        return Err(NotRunning);
    }
    let treasury_sats: u64 = match remaining {
        Some(sats) => sats,
        None => run.config.funding.initial_sats,
    };
    Ok(
        ResumedAgent {
            treasury_sats,
            running: AgentState {
                treasury_sats,
                runway_secs: None,
                lifecycle: "running".to_owned(),
            },
        },
    )
}

/// The last state and the death to publish when the resumed agent is torn down.
pub fn resume_down(run: &RunAgentConfig, up: &ResumedAgent) -> (r: (AgentState, LifecycleEvent))
    ensures
        r.0.treasury_sats == up.treasury_sats,
        r.0.runway_secs is None,
        r.0.lifecycle@ == "dead"@,
        (r.1.event@, r.1.reason@) == lifecycle_names(Lifecycle::Died(DeathReason::Stopped)),
        r.1.treasury_sats == run.config.funding.initial_sats,
{
    let dead = AgentState {
        treasury_sats: up.treasury_sats,
        runway_secs: None,
        lifecycle: "dead".to_owned(),
    };
    let died = lifecycle_event(
        Lifecycle::Died(DeathReason::Stopped),
        run.config.funding.initial_sats,
    );
    (dead, died)
}

/// The outcome of a resume run whose agent ran. Nothing was metered, so the treasury is as it was.
pub fn resume_outcome(
    up: &ResumedAgent,
    npub: String,
    backend: ResolvedBackend,
    restore_seen: bool,
    died_emitted: bool,
) -> (r: RunAgentOutcome)
    ensures
        r == (RunAgentOutcome {
            npub,
            backend,
            mode: RunMode::Resume,
            reached_running: true,
            born_emitted: false,
            died_emitted,
            restore_seen,
            burned_sats: 0,
            remaining_sats: up.treasury_sats,
            end_reason: EndReason::Resumed,
        }),
        r.continued() <==> restore_seen,
        !r.born(),
        !r.died_broke(),
{
    RunAgentOutcome {
        npub,
        backend,
        mode: RunMode::Resume,
        reached_running: true,
        born_emitted: false,
        died_emitted,
        restore_seen,
        burned_sats: 0,
        remaining_sats: up.treasury_sats,
        end_reason: EndReason::Resumed,
    }
}

// ---------------------------------------------------------------------------------------------
// What the calls come to
// ---------------------------------------------------------------------------------------------
/// The guest is told what it was configured to run: the boot configuration names the run's workload,
/// node, agent, money and sandbox, and boots the given image from the given checkpoint.
pub proof fn boot_carries_the_configured_run(
    run: RunAgentConfig,
    image: GuestImage,
    restore: Option<CheckpointRef>,
    identity_key: &str,
    dests: ActDestinations,
    boot: BootConfig,
)
    requires
        call_ensures(agent_boot_config, (&run, image, restore, identity_key, &dests), boot),
    ensures
        boot.workload is Some,
        boot.workload->0@ == run.config.workload.genome_workload@,
        boot.node_id@ == run.config.node_id@,
        boot.task@ == "kirby-run-"@ + run.config.agent_id@,
        boot.budget_sats == run.config.funding.initial_sats,
        boot.initial_sats == run.config.funding.initial_sats,
        boot.guest_cid == run.guest_cid,
        boot.gateway_port == run.gateway_port,
        boot.vcpu_count == run.vcpu_count,
        boot.mem_size_mib == run.mem_size_mib,
        boot.hello_timeout_ms == run.hello_timeout_ms,
        boot.image == image,
        boot.restore_checkpoint == restore,
        !boot.lockdown_egress,
        !boot.snapshot_capable,
{
}

/// Runs that differ in what is to be run never boot alike: two runs with different workloads, agents,
/// nodes or budgets, or from different checkpoints, have different boot configurations.
pub proof fn different_runs_boot_differently(
    run: RunAgentConfig,
    image: GuestImage,
    restore: Option<CheckpointRef>,
    key: &str,
    dests: ActDestinations,
    boot: BootConfig,
    other_run: RunAgentConfig,
    other_image: GuestImage,
    other_restore: Option<CheckpointRef>,
    other_key: &str,
    other_dests: ActDestinations,
    other_boot: BootConfig,
)
    requires
        call_ensures(agent_boot_config, (&run, image, restore, key, &dests), boot),
        call_ensures(
            agent_boot_config,
            (&other_run, other_image, other_restore, other_key, &other_dests),
            other_boot,
        ),
        boot == other_boot,
    ensures
        run.config.workload.genome_workload@ == other_run.config.workload.genome_workload@,
        run.config.agent_id@ == other_run.config.agent_id@,
        run.config.node_id@ == other_run.config.node_id@,
        run.config.funding.initial_sats == other_run.config.funding.initial_sats,
        run.guest_cid == other_run.guest_cid,
        run.gateway_port == other_run.gateway_port,
        image == other_image,
        restore == other_restore,
{
    let a = run.config.agent_id@;
    let b = other_run.config.agent_id@;
    let p = "kirby-run-"@;
    assert(p + a == p + b);
    assert(a =~= (p + a).skip(p.len() as int));
    assert(b =~= (p + b).skip(p.len() as int));
}

/// What a workload carries and reaches: one that thinks carries the brain's block and reaches the
/// brain, one that remembers carries the memory's block and reaches the memory, the diarist both and
/// its own block, and any other workload carries none of them and reaches the mint alone.
pub proof fn workload_carries_what_it_needs(
    run: RunAgentConfig,
    image: GuestImage,
    restore: Option<CheckpointRef>,
    key: &str,
    dests: ActDestinations,
    boot: BootConfig,
)
    requires
        call_ensures(agent_boot_config, (&run, image, restore, key, &dests), boot),
    ensures
        ({
            let kind = run.config.workload.kind;
            let allow = text::views(boot.allow@);
            &&& kind is Brain ==> allow == seq![dests.brain_completion@] && boot.brain is Some
                && boot.memory is None && boot.diarist is None
            &&& kind is Memory ==> allow == seq![dests.memory@] && boot.brain is None
                && boot.memory is Some && boot.diarist is None
            &&& kind is Diarist ==> allow == seq![dests.brain_completion@, dests.memory@]
                && boot.brain is Some && boot.memory is Some && boot.diarist is Some
            &&& kind is Other ==> allow == seq!["mint.test.local"@] && boot.brain is None
                && boot.memory is None && boot.diarist is None
        }),
        boot.brain matches Some(b) ==> b@ == run.config.brain@,
        boot.diarist matches Some(d) ==> d@ == run.config.diarist@,
        boot.memory matches Some(m) ==> {
            let own = run.config.memory.key_path;
            &&& m.settings@ == run.config.memory.settings@
            &&& own is Some ==> m.key_path is Some && m.key_path->0@ == own->0@
            &&& own is None && run.config.workload.kind is Diarist ==> m.key_path is Some
                && m.key_path->0@ == key@
            &&& own is None && run.config.workload.kind is Memory ==> m.key_path is None
        },
{
}

/// A configured memory key is kept, and the diarist's missing one is the node's own; the settings stay.
pub proof fn pinned_key_is_the_configured_or_the_nodes(
    memory: MemoryConfig,
    identity_key: &str,
    r: MemoryConfig,
)
    requires
        call_ensures(pin_diarist_memory_key, (&memory, identity_key), r),
    ensures
        r.key_path is Some,
        memory.key_path matches Some(k) ==> r.key_path->0@ == k@,
        memory.key_path is None ==> r.key_path->0@ == identity_key@,
        r.settings@ == memory.settings@,
{
}

/// Which configurations are run: those with a label, a local image, and that image of the backend's
/// architecture. The run has the configuration, the image's directory, a checkpoint directory of the
/// agent's own, and the default sandbox and limits.
pub proof fn run_is_of_a_local_image_of_the_backend(
    config: KirbyConfig,
    arch: Option<GuestArch>,
    r: Result<RunAgentConfig, RunConfigError>,
)
    requires
        call_ensures(RunAgentConfig::from_config, (config, arch), r),
    ensures
        ({
            let needed = if config.backend is Firecracker {
                GuestArch::X86_64
            } else {
                GuestArch::Aarch64
            };
            let labelled = config::label_error(config.agent_id@) is None;
            &&& r is Ok <==> labelled && config.genome_image is Path && arch == Some(needed)
            &&& !labelled ==> (r matches Err(RunConfigError::InvalidAgentId(_)))
            &&& labelled && config.genome_image is Url ==> r == Err::<RunAgentConfig, _>(
                RunConfigError::UrlImage,
            )
            &&& labelled && config.genome_image is Path && arch != Some(needed) ==> r == Err::<
                RunAgentConfig,
                _,
            >(RunConfigError::WrongArch)
        }),
        r matches Ok(run) ==> {
            &&& run.config == config
            &&& config.genome_image == GenomeImage::Path(config.genome_image->Path_0)
            &&& run.image_dir@ == config.genome_image->Path_0@
            &&& run.checkpoint_dir@ == text::joined(
                config.identity.treasury_dir@,
                "checkpoints-"@ + config.agent_id@,
            )
            &&& run.meter_tick_ms == 100
            &&& run.max_run_ms == 600_000
            &&& run.guest_cid == 3
            &&& run.gateway_port == 5000
            &&& run.vcpu_count == 1
            &&& run.mem_size_mib == 128
            &&& run.hello_timeout_ms == 40_000
        },
{
}

/// What a node publishes is its configuration's: its presence and its living agent's state go to the
/// configured relay under the configured ids, as often as configured, and the state carries the backend
/// and the budget.
pub proof fn node_publishes_its_configuration(
    config: KirbyConfig,
    backend: ResolvedBackend,
    presence: PresenceConfig,
    emitter: AgentStateEmitter,
)
    requires
        call_ensures(presence_config, (&config,), presence),
        call_ensures(agent_state_emitter, (&config, backend), emitter),
    ensures
        presence.relay_url@ == config.relay.url@,
        presence.node_id@ == config.node_id@,
        presence.endpoint is None,
        presence.interval_secs == config.relay.presence_interval_secs,
        presence.stale_after_secs == config.relay.presence_stale_after_secs,
        emitter.relay_url@ == config.relay.url@,
        emitter.agent_id@ == config.agent_id@,
        emitter.node_id@ == config.node_id@,
        emitter.backend@ == if backend is Firecracker {
            "firecracker"@
        } else {
            "vz"@
        },
        emitter.interval_secs == config.relay.presence_interval_secs,
        emitter.budget_sats == config.funding.initial_sats,
{
}

/// The meter runs the booted agent at the configured tick, limit and rates, and publishes the state of
/// that agent.
pub proof fn metered_run_is_the_booted_agents(
    run: RunAgentConfig,
    backend: ResolvedBackend,
    boot: BootConfig,
    r: MeteredRunConfig,
)
    requires
        call_ensures(metered_run, (&run, backend, boot), r),
    ensures
        r.boot == boot,
        r.tick_ms == run.meter_tick_ms,
        r.max_run_ms == run.max_run_ms,
        r.rates@ == run.config.meter@,
        r.agent_state.agent_id@ == run.config.agent_id@,
        r.agent_state.node_id@ == run.config.node_id@,
        r.agent_state.relay_url@ == run.config.relay.url@,
        r.agent_state.budget_sats == run.config.funding.initial_sats,
{
}

/// An agent is born funded, and dies broke or stopped: the milestones carry these words and the
/// treasury.
pub proof fn milestones_tell_birth_from_death(
    run: RunAgentConfig,
    sats: u64,
    which: Lifecycle,
    birth: LifecycleEvent,
    r: LifecycleEvent,
)
    requires
        call_ensures(bootstrap_birth, (&run,), birth),
        call_ensures(lifecycle_event, (which, sats), r),
    ensures
        birth.event@ == "born"@,
        birth.reason@ == "funded"@,
        birth.treasury_sats == run.config.funding.initial_sats,
        r.treasury_sats == sats,
        which == Lifecycle::Born ==> r.event@ == "born"@ && r.reason@ == "funded"@,
        which == Lifecycle::Died(DeathReason::Broke) ==> r.event@ == "died"@ && r.reason@
            == "broke"@,
        which == Lifecycle::Died(DeathReason::Stopped) ==> r.event@ == "died"@ && r.reason@
            == "stopped"@,
{
}

/// How a metered life ends: a broke agent dies broke with nothing left, a stopped one dies stopped with
/// what it had; its checkpoint is stored where its workload submits one, and without one such a run is
/// no run to resume from. The outcome carries what the meter read.
pub proof fn metered_life_ends_as_the_meter_read(
    run: RunAgentConfig,
    npub: String,
    backend: ResolvedBackend,
    born: bool,
    metered: MeteredOutcome,
    r: Result<BootstrapEnd, MissingCheckpoint>,
    died_emitted: bool,
    o: RunAgentOutcome,
    birth: bool,
    broke: bool,
    resumed: bool,
)
    requires
        call_ensures(bootstrap_end, (&run, npub, backend, born, metered), r),
        r is Ok ==> call_ensures(BootstrapEnd::outcome, (r->Ok_0, died_emitted), o),
        call_ensures(RunAgentOutcome::bootstrap_birth_passed, (&o,), birth),
        call_ensures(RunAgentOutcome::die_when_broke_passed, (&o,), broke),
        call_ensures(RunAgentOutcome::resume_passed, (&o,), resumed),
    ensures
        r is Err <==> run.config.workload.submits_checkpoint && metered.latest_checkpoint is None,
        r matches Ok(end) ==> {
            &&& run.config.workload.submits_checkpoint ==> end.checkpoint
                == metered.latest_checkpoint
            &&& !run.config.workload.submits_checkpoint ==> end.checkpoint is None
            &&& end.died.event@ == "died"@
            &&& end.dead.lifecycle@ == "dead"@
            &&& end.dead.runway_secs is None
            &&& metered.terminated is BudgetExhausted ==> end.died.reason@ == "broke"@
                && end.died.treasury_sats == 0 && end.dead.treasury_sats == 0
            &&& metered.terminated is Stopped ==> end.died.reason@ == "stopped"@
                && end.died.treasury_sats == metered.remaining_at_halt && end.dead.treasury_sats
                == metered.remaining_at_halt
            &&& o.npub == npub
            &&& o.backend == backend
            &&& o.burned_sats == metered.burned_sats
            &&& o.remaining_sats == metered.remaining_at_halt
            &&& o.died_emitted == died_emitted
            &&& birth == born
            &&& broke == (metered.terminated is BudgetExhausted && died_emitted
                && metered.burned_sats > 0)
            &&& !resumed
        },
{
}

/// The resumed checkpoint is the newest one that is stored, by its own name and length: it is a file
/// named by 64 hexadecimal digits, and no other such file is newer. There is none exactly if no such
/// file is stored.
pub proof fn resume_starts_from_the_newest_stored_checkpoint(
    files: Vec<StoredFile>,
    r: Option<CheckpointRef>,
    i: int,
)
    requires
        call_ensures(latest_stored_checkpoint, (&files,), r),
        0 <= i < files@.len(),
    ensures
        is_checkpoint(files@[i]) ==> r is Some,
        r matches Some(c) ==> exists|k: int|
            0 <= k < files@.len() && (#[trigger] files@[k]).is_file && files@[k].name@.len() == 64
                && files@[k].name@ == c.sha256@ && files@[k].len == c.len && (is_checkpoint(
                files@[i],
            ) ==> files@[i].modified_ns <= files@[k].modified_ns),
        is_checkpoint(files@[i]) ==> files@[i].is_file && files@[i].name@.len() == 64,
{
    resumed_checkpoint_is_the_newest(files@);
    if r is Some {
        let k = newest(files@)->0;
        assert(files@[k].is_file);
    }
}

/// A resumed agent has seen its checkpoint exactly when it says so itself and names the checkpoint's
/// hash and length.
pub proof fn restore_is_seen_by_hash_and_length(
    checkpoint: CheckpointRef,
    watch: RestoreWatch,
    event: GenomeEvent,
    r: bool,
)
    requires
        call_ensures(RestoreWatch::new, (&checkpoint,), watch),
        call_ensures(RestoreWatch::observe, (&watch, &event), r),
    ensures
        r <==> event.kind@ == "checkpoint_restore_seen"@ && text::contains_text(
            event.detail@,
            "sha256="@ + checkpoint.sha256@,
        ) && text::contains_text(event.detail@, "len="@ + text::decimal(checkpoint.len as nat)),
{
}

/// A resumed agent lives on the treasury that was persisted, or on the configured one where that cannot
/// be read, is published as running and later as dead with it, and its outcome is a continuation
/// exactly if it saw its checkpoint.
pub proof fn resumed_agent_lives_on_its_treasury(
    run: RunAgentConfig,
    reached_running: bool,
    remaining: Option<u64>,
    r: Result<ResumedAgent, NotRunning>,
    up: ResumedAgent,
    down: (AgentState, LifecycleEvent),
    npub: String,
    backend: ResolvedBackend,
    restore_seen: bool,
    died_emitted: bool,
    o: RunAgentOutcome,
    continued: bool,
    birth: bool,
)
    requires
        call_ensures(resume_up, (&run, reached_running, remaining), r),
        r is Ok ==> up == r->Ok_0,
        call_ensures(resume_down, (&run, &up), down),
        call_ensures(resume_outcome, (&up, npub, backend, restore_seen, died_emitted), o),
        call_ensures(RunAgentOutcome::resume_passed, (&o,), continued),
        call_ensures(RunAgentOutcome::bootstrap_birth_passed, (&o,), birth),
    ensures
        r is Ok <==> reached_running,
        r is Ok ==> {
            &&& remaining matches Some(sats) ==> up.treasury_sats == sats
            &&& remaining is None ==> up.treasury_sats == run.config.funding.initial_sats
            &&& up.running.treasury_sats == up.treasury_sats
            &&& up.running.runway_secs is None
            &&& up.running.lifecycle@ == "running"@
        },
        down.0.treasury_sats == up.treasury_sats,
        down.0.runway_secs is None,
        down.0.lifecycle@ == "dead"@,
        down.1.event@ == "died"@,
        down.1.reason@ == "stopped"@,
        down.1.treasury_sats == run.config.funding.initial_sats,
        o.npub == npub,
        o.backend == backend,
        o.remaining_sats == up.treasury_sats,
        o.burned_sats == 0,
        o.died_emitted == died_emitted,
        o.restore_seen == restore_seen,
        continued == restore_seen,
        !birth,
{
}

/// The line of evidence tells what the outcome holds, each under its name.
pub proof fn evidence_tells_the_outcome(o: RunAgentOutcome, r: String)
    requires
        call_ensures(evidence_line, (&o,), r),
    ensures
        r@ == "KIRBY-RUN mode="@ + (if o.mode is Bootstrap {
            "Bootstrap"@
        } else {
            "Resume"@
        }) + " backend="@ + (if o.backend is Firecracker {
            "firecracker"@
        } else {
            "vz"@
        }) + " npub="@ + o.npub@ + " reached_running="@ + (if o.reached_running {
            "true"@
        } else {
            "false"@
        }) + " born="@ + (if o.born_emitted {
            "true"@
        } else {
            "false"@
        }) + " died="@ + (if o.died_emitted {
            "true"@
        } else {
            "false"@
        }) + " restore_seen="@ + (if o.restore_seen {
            "true"@
        } else {
            "false"@
        }) + " burned_sats="@ + text::decimal(o.burned_sats as nat) + " remaining_sats="@
            + text::decimal(o.remaining_sats as nat) + " end="@ + (match o.end_reason {
            EndReason::BudgetExhausted => "BudgetExhausted"@,
            EndReason::Stopped => "Stopped"@,
            EndReason::Resumed => "Resumed"@,
        }),
{
}

/// Each reason and each ending has a name of its own.
pub proof fn endings_have_their_names(
    death: DeathReason,
    end: EndReason,
    death_name: &'static str,
    end_name: &'static str,
)
    requires
        call_ensures(DeathReason::as_str, (death,), death_name),
        call_ensures(EndReason::name, (end,), end_name),
    ensures
        death == DeathReason::Broke <==> death_name@ == "broke"@,
        death == DeathReason::Stopped <==> death_name@ == "stopped"@,
        end == EndReason::BudgetExhausted <==> end_name@ == "BudgetExhausted"@,
        end == EndReason::Stopped <==> end_name@ == "Stopped"@,
        end == EndReason::Resumed <==> end_name@ == "Resumed"@,
{
    reveal_strlit("broke");
    reveal_strlit("stopped");
    reveal_strlit("BudgetExhausted");
    reveal_strlit("Stopped");
    reveal_strlit("Resumed");
    assert("broke"@[0] != "stopped"@[0]);
    assert("BudgetExhausted"@[0] != "Stopped"@[0]);
    assert("Stopped"@[0] != "Resumed"@[0]);
    assert("BudgetExhausted"@[0] != "Resumed"@[0]);
}

/// A run boots on the backend that was configured.
pub proof fn run_boots_on_the_configured_backend(
    config: KirbyConfig,
    image_arch: Option<GuestArch>,
    run: RunAgentConfig,
    backend: ResolvedBackend,
)
    requires
        call_ensures(RunAgentConfig::from_config, (config, image_arch), Ok(run)),
        call_ensures(RunAgentConfig::backend, (&run,), backend),
    ensures
        backend == config.backend,
        backend == ResolvedBackend::Vz <==> image_arch == Some(GuestArch::Aarch64),
        backend == ResolvedBackend::Firecracker <==> image_arch == Some(GuestArch::X86_64),
{
}

/// A bootstrap passes where the agent ran and its birth was published, a resume where the agent ran
/// and saw its checkpoint and was not born again, and a death where the budget was used up and that
/// was published; no run passes as both a birth and a resume.
pub proof fn run_passes_as_what_it_was(
    o: RunAgentOutcome,
    born: bool,
    broke: bool,
    resumed: bool,
)
    requires
        call_ensures(RunAgentOutcome::bootstrap_birth_passed, (&o,), born),
        call_ensures(RunAgentOutcome::die_when_broke_passed, (&o,), broke),
        call_ensures(RunAgentOutcome::resume_passed, (&o,), resumed),
    ensures
        !(born && resumed),
        born ==> o.mode == RunMode::Bootstrap && o.reached_running && o.born_emitted,
        resumed ==> o.mode == RunMode::Resume && o.reached_running && o.restore_seen
            && !o.born_emitted,
        broke ==> o.end_reason == EndReason::BudgetExhausted && o.died_emitted && o.burned_sats > 0,
        o.reached_running && o.born_emitted && !born ==> o.mode == RunMode::Resume,
        o.mode == RunMode::Resume && o.reached_running && o.restore_seen && !resumed
            ==> o.born_emitted,
        o.end_reason == EndReason::BudgetExhausted && o.died_emitted && !broke ==> o.burned_sats
            == 0,
{
}

} // verus!
