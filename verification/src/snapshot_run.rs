//! Moving a living agent: snapshot it on one node, kill it there, restore it on another, and judge
//! whether it survived and took fresh entropy.
//!
//! The caller boots, snapshots, copies, kills, restores and waits. A value of each stage stands for
//! what has been reached, and the step to the next stage takes what the caller saw.
use vstd::prelude::*;
use vstd::string::StringExecFns;

use crate::boot::{BootConfig, GenomeEvent, Session};
use crate::sandbox::{
    GuestImage, GuestSpec, LocalDirTransfer, RestoreSpec, SnapshotArtifact, SnapshotTransfer,
    TransferError, TransferPlan,
};
use crate::text;

verus! {

/// How long to wait for a heartbeat, in milliseconds.
pub const HEARTBEAT_TIMEOUT_MS: u64 = 40_000;

/// The inputs of a snapshot run.
#[derive(Debug)]
pub struct SnapshotRunConfig {
    /// How the agent boots on the first node.
    pub boot: BootConfig,
    /// The second node's instance id.
    pub node2_id: String,
    /// The port that the second node serves: the first node's, which is frozen in the snapshot.
    pub node2_gateway_port: u32,
    /// Where the snapshot is moved to.
    pub transfer_dir: String,
    pub pre_snapshot_timeout_ms: u64,
    pub post_resume_timeout_ms: u64,
}

/// Whether `r` runs the agent of `boot` with `workload`, made snapshot-capable.
pub open spec fn derived_from(
    r: SnapshotRunConfig,
    boot: BootConfig,
    workload: Seq<char>,
    temp_dir: Seq<char>,
) -> bool {
    &&& r.boot.snapshot_capable
    &&& r.boot.workload is Some && r.boot.workload->0@ == workload
    &&& r.boot == (BootConfig { snapshot_capable: true, workload: r.boot.workload, ..boot })
    &&& r.node2_id@ == boot.node_id@ + "-n2"@
    &&& r.node2_gateway_port == boot.gateway_port
    &&& r.transfer_dir@ == text::joined(temp_dir, "kirby-snapshot-"@ + boot.node_id@)
    &&& r.pre_snapshot_timeout_ms == HEARTBEAT_TIMEOUT_MS
    &&& r.post_resume_timeout_ms == HEARTBEAT_TIMEOUT_MS
}

impl SnapshotRunConfig {
    /// A run of the genome that takes fresh entropy when it is resumed.
    pub fn new(boot: BootConfig, temp_dir: &str) -> (r: Self)
        ensures
            derived_from(r, boot, "snapshot"@, temp_dir@),
    {
        Self::with_workload(boot, "snapshot", temp_dir)
    }

    /// A run of the genome that keeps its old entropy when it is resumed, which must be noticed.
    pub fn new_negative_control(boot: BootConfig, temp_dir: &str) -> (r: Self)
        ensures
            derived_from(r, boot, "resume-noredrive"@, temp_dir@),
    {
        Self::with_workload(boot, "resume-noredrive", temp_dir)
    }

    fn with_workload(boot: BootConfig, workload: &str, temp_dir: &str) -> (r: Self)
        ensures
            derived_from(r, boot, workload@, temp_dir@),
    {
        let mut boot = boot;
        boot.snapshot_capable = true;
        boot.workload = Some(workload.to_owned());
        let mut node2_id = boot.node_id.clone();
        node2_id.append("-n2");
        let mut dir = "kirby-snapshot-".to_owned();
        dir.append(boot.node_id.as_str());
        let node2_gateway_port: u32 = boot.gateway_port;
        SnapshotRunConfig {
            boot,
            node2_id,
            node2_gateway_port,
            transfer_dir: text::path_join(temp_dir, dir.as_str()),
            pre_snapshot_timeout_ms: HEARTBEAT_TIMEOUT_MS,
            post_resume_timeout_ms: HEARTBEAT_TIMEOUT_MS,
        }
    }

    /// Where the treasury that both nodes share is kept.
    pub fn treasury_path(&self, temp_dir: &str) -> (r: String)
        ensures
            r@ == text::joined(temp_dir@, "kirby-treasury-snap-"@ + self.boot.node_id@),
    {
        let mut name = "kirby-treasury-snap-".to_owned();
        name.append(self.boot.node_id.as_str());
        text::path_join(temp_dir, name.as_str())
    }

    /// What both nodes' gateways tell the genome.
    pub fn session(&self) -> (r: Session)
        ensures
            r.task_descriptor@ == self.boot.task@,
            r.budget_sats == self.boot.budget_sats,
            text::views(r.allowlisted_destinations@) == text::views(self.boot.allow@),
    {
        let mut allow: Vec<String> = Vec::new();
        let mut i: usize = 0;
        assert(text::views(allow@) =~= text::views(self.boot.allow@).take(0));
        while i < self.boot.allow.len()
            invariant
                i <= self.boot.allow@.len(),
                text::views(allow@) == text::views(self.boot.allow@).take(i as int),
            decreases self.boot.allow@.len() - i,
        {
            text::push_str(&mut allow, self.boot.allow[i].as_str());
            assert(text::views(self.boot.allow@).take(i + 1) =~= text::views(
                self.boot.allow@,
            ).take(i as int).push(self.boot.allow@[i as int]@));
            i = i + 1;
        }
        assert(text::views(self.boot.allow@).take(i as int) =~= text::views(self.boot.allow@));
        Session {
            task_descriptor: self.boot.task.clone(),
            budget_sats: self.boot.budget_sats,
            allowlisted_destinations: allow,
        }
    }

    /// The guest to boot on the first node.
    pub fn node1_guest(&self) -> (r: GuestSpec)
        ensures
            r.image.kernel@ == self.boot.image.kernel@,
            r.image.rootfs@ == self.boot.image.rootfs@,
            r.instance_id@ == self.boot.node_id@,
            r.guest_cid == self.boot.guest_cid,
            r.gateway_port == self.boot.gateway_port,
            r.vcpu_count == self.boot.vcpu_count,
            r.mem_size_mib == self.boot.mem_size_mib,
            r.workload is Some <==> self.boot.workload is Some,
            r.workload matches Some(w) ==> w@ == self.boot.workload->0@,
            r.lockdown_egress == self.boot.lockdown_egress,
            r.snapshot_capable == self.boot.snapshot_capable,
    {
        GuestSpec {
            image: GuestImage {
                kernel: self.boot.image.kernel.clone(),
                rootfs: self.boot.image.rootfs.clone(),
            },
            instance_id: self.boot.node_id.clone(),
            guest_cid: self.boot.guest_cid,
            gateway_port: self.boot.gateway_port,
            vcpu_count: self.boot.vcpu_count,
            mem_size_mib: self.boot.mem_size_mib,
            workload: match &self.boot.workload {
                Some(w) => Some(w.clone()),
                None => None,
            },
            lockdown_egress: self.boot.lockdown_egress,
            snapshot_capable: self.boot.snapshot_capable,
        }
    }

    /// What the second node restores. It serves the port that is frozen in the snapshot.
    pub fn node2_restore(&self) -> (r: RestoreSpec)
        ensures
            r.image.kernel@ == self.boot.image.kernel@,
            r.image.rootfs@ == self.boot.image.rootfs@,
            r.instance_id@ == self.node2_id@,
            r.gateway_port == self.node2_gateway_port,
            r.lockdown_egress == self.boot.lockdown_egress,
    {
        RestoreSpec {
            image: GuestImage {
                kernel: self.boot.image.kernel.clone(),
                rootfs: self.boot.image.rootfs.clone(),
            },
            instance_id: self.node2_id.clone(),
            gateway_port: self.node2_gateway_port,
            lockdown_egress: self.boot.lockdown_egress,
        }
    }
}

// ---------------------------------------------------------------------------------------------
// Outcomes
// ---------------------------------------------------------------------------------------------
/// What a snapshot run amounts to.
#[derive(Debug, Clone)]
pub struct SnapshotRunOutcome {
    /// The agent was heard on the first node.
    pub pre_snapshot_round_trip: bool,
    pub snapshot_bytes: u64,
    pub node1_killed: bool,
    pub node2_reached_running: bool,
    /// The agent was heard on the second node.
    pub post_resume_round_trip: bool,
    pub post_resume_detail: Option<String>,
    pub generation_pre: u64,
    pub generation_post: u64,
    pub treasury_pre: u64,
    pub treasury_post: u64,
    pub fingerprint_pre: Option<String>,
    pub fingerprint_post: Option<String>,
    /// The agent took a nonce at the new generation before it was first heard.
    pub entropy_call_before_post_resume_act: bool,
}

impl SnapshotRunOutcome {
    /// The agent survived the move: it was heard on both nodes, the first node is gone, the
    /// generation was bumped once, and the treasury carried over.
    pub open spec fn survived(&self) -> bool {
        &&& self.pre_snapshot_round_trip
        &&& self.node1_killed
        &&& self.node2_reached_running
        &&& self.post_resume_round_trip
        &&& self.generation_post == self.generation_pre + 1
        &&& self.treasury_post == self.treasury_pre
    }

    /// The agent kept its old entropy.
    pub open spec fn reused(&self) -> bool {
        self.fingerprint_pre is Some && self.fingerprint_post is Some && self.fingerprint_pre->0@
            == self.fingerprint_post->0@
    }

    /// The agent survived and took fresh entropy before it acted.
    pub open spec fn rederived(&self) -> bool {
        &&& self.survived()
        &&& self.fingerprint_pre is Some && self.fingerprint_post is Some
        &&& self.fingerprint_pre->0@ != self.fingerprint_post->0@
        &&& self.entropy_call_before_post_resume_act
    }

    /// Whether the agent survived the move.
    pub fn passed(&self) -> (r: bool)
        ensures
            r == self.survived(),
    {
        self.pre_snapshot_round_trip && self.node1_killed && self.node2_reached_running
            && self.post_resume_round_trip && self.generation_pre < u64::MAX
            && self.generation_post == self.generation_pre + 1 && self.treasury_post
            == self.treasury_pre
    }

    /// Whether the agent survived and took fresh entropy before it acted.
    pub fn g7_passed(&self) -> (r: bool)
        ensures
            r == self.rederived(),
    {
        match (&self.fingerprint_pre, &self.fingerprint_post) {
            (Some(pre), Some(post)) => self.passed() && !text::str_eq(pre.as_str(), post.as_str())
                && self.entropy_call_before_post_resume_act,
            _ => false,
        }
    }

    /// Whether the agent kept its old entropy.
    pub fn fingerprints_equal(&self) -> (r: bool)
        ensures
            r == self.reused(),
    {
        match (&self.fingerprint_pre, &self.fingerprint_post) {
            (Some(pre), Some(post)) => text::str_eq(pre.as_str(), post.as_str()),
            _ => false,
        }
    }
}

/// An agent that kept its old entropy fails, even where it survived; and one that took fresh entropy
/// survived.
pub proof fn reuse_is_caught(o: SnapshotRunOutcome)
    ensures
        o.reused() ==> !o.rederived(),
        o.rederived() ==> o.survived(),
{
}

// ---------------------------------------------------------------------------------------------
// What the genome reports
// ---------------------------------------------------------------------------------------------
/// The rest of the first token that starts with `prefix`.
pub open spec fn tagged_value(toks: Seq<Seq<char>>, prefix: Seq<char>) -> Option<Seq<char>>
    decreases toks.len(),
{
    if toks.len() == 0 {
        None
    } else if prefix.is_prefix_of(toks[0]) {
        Some(toks[0].skip(prefix.len() as int))
    } else {
        tagged_value(toks.skip(1), prefix)
    }
}

fn find_tagged(detail: &str, prefix: &str) -> (r: Option<String>)
    ensures
        r is Some <==> tagged_value(text::tokens(detail@), prefix@) is Some,
        r matches Some(v) ==> tagged_value(text::tokens(detail@), prefix@) == Some(v@),
{
    let words = text::split_whitespace(detail);
    let ghost toks = text::tokens(detail@);
    let mut i: usize = 0;
    assert(toks.skip(0) =~= toks);
    while i < words.len()
        invariant
            i <= words@.len(),
            words@.len() == toks.len(),
            toks == text::tokens(detail@),
            forall|k: int| 0 <= k < words@.len() ==> #[trigger] words@[k]@ == toks[k],
            tagged_value(toks, prefix@) == tagged_value(toks.skip(i as int), prefix@),
        decreases words@.len() - i,
    {
        assert(toks.skip(i as int)[0] == words@[i as int]@);
        assert(toks.skip(i as int).skip(1) =~= toks.skip(i + 1));
        match text::str_strip_prefix(words[i].as_str(), prefix) {
            Some(rest) => {
                assert(words@[i as int]@.skip(prefix@.len() as int) =~= rest@);
                return Some(rest);
            },
            None => {},
        }
        i = i + 1;
    }
    None
}

/// The entropy fingerprint of a heartbeat's detail, as in
/// `beat=2 task=t gen_seen=1 fingerprint=deadbeef fp_gen=1`.
pub fn parse_fingerprint(detail: &str) -> (r: Option<String>)
    ensures
        r is Some <==> tagged_value(text::tokens(detail@), "fingerprint="@) is Some,
        r matches Some(v) ==> tagged_value(text::tokens(detail@), "fingerprint="@) == Some(v@),
{
    find_tagged(detail, "fingerprint=")
}

/// The generation that a detail names.
pub open spec fn named_generation(detail: Seq<char>) -> Option<u64> {
    match tagged_value(text::tokens(detail), "generation="@) {
        Some(v) => text::parsed_u64(v),
        None => None,
    }
}

/// The generation of an entropy call's detail, as in `generation=1`.
pub fn parse_generation(detail: &str) -> (r: Option<u64>)
    ensures
        r == named_generation(detail@),
{
    match find_tagged(detail, "generation=") {
        Some(v) => text::parse_u64(v.as_str()),
        None => None,
    }
}

/// Whether an event is a heartbeat.
pub open spec fn is_heartbeat(e: GenomeEvent) -> bool {
    e.kind@ == "heartbeat"@
}

/// The detail of an event that is a heartbeat.
pub fn heartbeat_detail(event: &GenomeEvent) -> (r: Option<String>)
    ensures
        r is Some <==> is_heartbeat(*event),
        r matches Some(detail) ==> detail@ == event.detail@,
{
    if text::str_eq(event.kind.as_str(), "heartbeat") {
        Some(event.detail.clone())
    } else {
        None
    }
}

/// Whether an event is an entropy call at `generation`.
pub open spec fn is_entropy_call(e: GenomeEvent, generation: u64) -> bool {
    e.kind@ == "entropy_nonce_call"@ && named_generation(e.detail@) == Some(generation)
}

/// What was heard of a restored agent.
#[derive(Debug)]
pub struct PostResumeObservation {
    /// The detail of its first heartbeat.
    pub heartbeat: Option<String>,
    /// Whether it took a nonce at the new generation before that.
    pub entropy_call_before_act: bool,
}

/// Listening for a restored agent's first heartbeat.
#[derive(Debug)]
pub struct PostResumeWatch {
    generation_post: u64,
    entropy_call: bool,
}

impl PostResumeWatch {
    /// The generation after the restore.
    pub closed spec fn generation(&self) -> u64 {
        self.generation_post
    }

    /// Whether an entropy call at that generation has been heard.
    pub closed spec fn called(&self) -> bool {
        self.entropy_call
    }

    /// Listen at the generation after the restore.
    pub fn new(generation_post: u64) -> (r: Self)
        ensures
            r.generation() == generation_post,
            !r.called(),
    {
        PostResumeWatch { generation_post, entropy_call: false }
    }

    /// Take an event. The first heartbeat ends the wait; an entropy call counts at the new
    /// generation only, so that a call from before the restore does not.
    pub fn observe(&mut self, event: &GenomeEvent) -> (r: Option<PostResumeObservation>)
        ensures
            final(self).generation() == old(self).generation(),
            final(self).called() == (old(self).called() || is_entropy_call(
                *event,
                old(self).generation(),
            )),
            r is Some <==> is_heartbeat(*event),
            r matches Some(o) ==> o.heartbeat is Some && o.heartbeat->0@ == event.detail@
                && o.entropy_call_before_act == old(self).called(),
    {
        proof {
            reveal_strlit("heartbeat");
            reveal_strlit("entropy_nonce_call");
            assert("heartbeat"@[0] != "entropy_nonce_call"@[0]);
        }
        if text::str_eq(event.kind.as_str(), "entropy_nonce_call") {
            match parse_generation(event.detail.as_str()) {
                Some(g) => {
                    if g == self.generation_post {
                        self.entropy_call = true;
                    }
                },
                None => {},
            }
            return None;
        }
        match heartbeat_detail(event) {
            Some(detail) => Some(
                PostResumeObservation {
                    heartbeat: Some(detail),
                    entropy_call_before_act: self.entropy_call,
                },
            ),
            None => None,
        }
    }

    /// Nothing was heard in time.
    pub fn expired(self) -> (r: PostResumeObservation)
        ensures
            r.heartbeat is None,
            !r.entropy_call_before_act,
    {
        PostResumeObservation { heartbeat: None, entropy_call_before_act: false }
    }
}

/// Whether an entropy call at `generation` stands among events.
pub open spec fn called_among(events: Seq<GenomeEvent>, generation: u64) -> bool {
    exists|i: int| 0 <= i < events.len() && is_entropy_call(#[trigger] events[i], generation)
}

/// The position of the first heartbeat among events.
pub open spec fn first_heartbeat(events: Seq<GenomeEvent>) -> Option<int>
    decreases events.len(),
{
    if events.len() == 0 {
        None
    } else {
        match first_heartbeat(events.drop_last()) {
            Some(i) => Some(i),
            None => if is_heartbeat(events.last()) {
                Some(events.len() - 1)
            } else {
                None
            },
        }
    }
}

/// Listen through a row of events: the agent's first heartbeat among them, and whether it took a
/// nonce at the new generation before it.
pub fn observe_post_resume(events: &Vec<GenomeEvent>, generation_post: u64) -> (r:
    PostResumeObservation)
    ensures
        match first_heartbeat(events@) {
            Some(i) => {
                &&& 0 <= i < events@.len()
                &&& r.heartbeat is Some && r.heartbeat->0@ == events@[i].detail@
                &&& r.entropy_call_before_act == called_among(events@.take(i), generation_post)
            },
            None => r.heartbeat is None && !r.entropy_call_before_act,
        },
{
    let mut watch = PostResumeWatch::new(generation_post);
    let mut i: usize = 0;
    assert(events@.take(0) =~= Seq::<GenomeEvent>::empty());
    while i < events.len()
        invariant
            i <= events@.len(),
            watch.generation() == generation_post,
            watch.called() == called_among(events@.take(i as int), generation_post),
            first_heartbeat(events@.take(i as int)) is None,
        decreases events@.len() - i,
    {
        let ghost before = events@.take(i as int);
        let ghost next = events@.take(i + 1);
        assert(next.drop_last() =~= before);
        assert(next.last() == events@[i as int]);
        match watch.observe(&events[i]) {
            Some(o) => {
                proof {
                    assert(first_heartbeat(next) == Some(i as int));
                    lemma_first_heartbeat_stays(events@, i + 1);
                }
                return o;
            },
            None => {},
        }
        proof {
            assert(called_among(next, generation_post) == (called_among(before, generation_post)
                || is_entropy_call(events@[i as int], generation_post))) by {
                if called_among(before, generation_post) {
                    let k = choose|k: int|
                        0 <= k < before.len() && is_entropy_call(
                            #[trigger] before[k],
                            generation_post,
                        );
                    assert(next[k] == before[k]);
                }
                if is_entropy_call(events@[i as int], generation_post) {
                    assert(next[i as int] == events@[i as int]);
                }
                if called_among(next, generation_post) {
                    let k = choose|k: int|
                        0 <= k < next.len() && is_entropy_call(#[trigger] next[k], generation_post);
                    if k < i {
                        assert(before[k] == next[k]);
                    }
                }
            }
        }
        i = i + 1;
    }
    assert(events@.take(i as int) =~= events@);
    watch.expired()
}

/// A heartbeat that was the first stays the first, whatever is heard later.
proof fn lemma_first_heartbeat_stays(events: Seq<GenomeEvent>, n: int)
    requires
        0 <= n <= events.len(),
        first_heartbeat(events.take(n)) is Some,
    ensures
        first_heartbeat(events) == first_heartbeat(events.take(n)),
    decreases events.len() - n,
{
    if n < events.len() {
        assert(events.take(n + 1).drop_last() =~= events.take(n));
        lemma_first_heartbeat_stays(events, n + 1);
    } else {
        assert(events.take(n) =~= events);
    }
}

// ---------------------------------------------------------------------------------------------
// The move, stage by stage
// ---------------------------------------------------------------------------------------------
/// Why a move ends early, and whether the first node's guest is still up and has to be halted.
#[derive(Debug)]
pub struct MoveFailure {
    pub halt_node1: bool,
    pub message: String,
}

fn failure(halt_node1: bool, message: &str, cause: &str) -> (r: MoveFailure)
    ensures
        r.halt_node1 == halt_node1,
        r.message@ == message@ + cause@,
{
    let mut text = message.to_owned();
    text.append(cause);
    MoveFailure { halt_node1, message: text }
}

/// The agent runs on the first node.
#[derive(Debug)]
pub struct Node1Running {
    pub treasury_initial_sats: u64,
}

/// The first node has booted: go on, if its guest runs.
pub fn node1_booted(config: &SnapshotRunConfig, running: bool) -> (r: Result<
    Node1Running,
    MoveFailure,
>)
    ensures
        match r {
            Ok(s) => running && s.treasury_initial_sats == config.boot.initial_sats,
            Err(f) => !running && f.halt_node1 && f.message@
                == "node 1: guest did not reach the running state"@,
        },
{
    if !running {
        proof {
            reveal_strlit("");
        }
        return Err(failure(true, "node 1: guest did not reach the running state", ""));
    }
    Ok(Node1Running { treasury_initial_sats: config.boot.initial_sats })
}

/// The agent was heard on the first node.
#[derive(Debug)]
pub struct Node1Alive {
    pub fingerprint_pre: Option<String>,
    pub generation_pre: u64,
    pub treasury_pre: u64,
}

impl Node1Running {
    /// The wait for the agent's heartbeat is over: `heartbeat` is its detail. Go on, if it was
    /// heard and the treasury can be read.
    pub fn heard(
        self,
        heartbeat: Option<&str>,
        generation: u64,
        treasury: Result<u64, String>,
    ) -> (r: Result<Node1Alive, MoveFailure>)
        ensures
            match r {
                Ok(s) => {
                    &&& heartbeat is Some
                    &&& treasury == Ok::<u64, String>(s.treasury_pre)
                    &&& s.generation_pre == generation
                    &&& s.fingerprint_pre is Some <==> tagged_value(
                        text::tokens(heartbeat->0@),
                        "fingerprint="@,
                    ) is Some
                    &&& s.fingerprint_pre matches Some(v) ==> tagged_value(
                        text::tokens(heartbeat->0@),
                        "fingerprint="@,
                    ) == Some(v@)
                },
                Err(f) => {
                    &&& f.halt_node1
                    &&& match treasury {
                        Err(e) => f.message@ == e@,
                        Ok(_) => heartbeat is None && f.message@
                            == "node 1: genome did not complete a pre-snapshot heartbeat round-trip"@,
                    }
                },
            },
            treasury is Ok && heartbeat is Some ==> r is Ok,
    {
        let treasury_pre: u64 = match treasury {
            Ok(sats) => sats,
            Err(e) => return Err(MoveFailure { halt_node1: true, message: e }),
        };
        match heartbeat {
            Some(detail) => Ok(
                Node1Alive {
                    fingerprint_pre: parse_fingerprint(detail),
                    generation_pre: generation,
                    treasury_pre,
                },
            ),
            None => {
                proof {
                    reveal_strlit("");
                }
                Err(
                    failure(
                        true,
                        "node 1: genome did not complete a pre-snapshot heartbeat round-trip",
                        "",
                    ),
                )
            },
        }
    }
}

/// The agent is snapshotted, and the copies that move the snapshot are known.
#[derive(Debug)]
pub struct Snapshotted<D> {
    pub alive: Node1Alive,
    pub plan: TransferPlan<D>,
}

impl Node1Alive {
    /// The snapshot was tried. Go on with the copies into the second node's directory.
    pub fn snapshotted<D>(
        self,
        config: &SnapshotRunConfig,
        snapshot: Result<SnapshotArtifact<D>, String>,
    ) -> (r: Result<Snapshotted<D>, MoveFailure>)
        ensures
            match r {
                Ok(s) => {
                    &&& s.alive == self
                    &&& snapshot is Ok
                    &&& s.plan.moved.class == snapshot->Ok_0.class
                    &&& s.plan.moved.restore_data == snapshot->Ok_0.restore_data
                    &&& s.plan.vmstate.from@ == snapshot->Ok_0.vmstate_path@
                    &&& s.plan.mem.from@ == snapshot->Ok_0.mem_path@
                    &&& text::last_component(snapshot->Ok_0.vmstate_path@) is Some
                    &&& text::last_component(snapshot->Ok_0.mem_path@) is Some
                    &&& s.plan.vmstate.to@ == text::joined(
                        config.transfer_dir@,
                        text::last_component(snapshot->Ok_0.vmstate_path@)->0,
                    )
                    &&& s.plan.mem.to@ == text::joined(
                        config.transfer_dir@,
                        text::last_component(snapshot->Ok_0.mem_path@)->0,
                    )
                    &&& s.plan.moved.vmstate_path@ == s.plan.vmstate.to@
                    &&& s.plan.moved.mem_path@ == s.plan.mem.to@
                },
                Err(f) => {
                    &&& f.halt_node1
                    &&& match snapshot {
                        Err(e) => f.message@ == "node 1: snapshot failed: "@ + e@,
                        Ok(a) => if text::last_component(a.vmstate_path@) is None {
                            f.message@ == "snapshot transfer failed: "@
                                + "vmstate path has no file name"@
                        } else {
                            &&& text::last_component(a.mem_path@) is None
                            &&& f.message@ == "snapshot transfer failed: "@
                                + "mem path has no file name"@
                        },
                    }
                },
            },
            snapshot is Ok && text::last_component(snapshot->Ok_0.vmstate_path@) is Some
                && text::last_component(snapshot->Ok_0.mem_path@) is Some ==> r is Ok,
    {
        let artifact = match snapshot {
            Ok(a) => a,
            Err(e) => return Err(failure(true, "node 1: snapshot failed: ", e.as_str())),
        };
        let transfer = LocalDirTransfer { target_dir: config.transfer_dir.clone() };
        match transfer.transfer(artifact) {
            Ok(plan) => Ok(Snapshotted { alive: self, plan }),
            Err(TransferError::VmstateHasNoName) => Err(
                failure(true, "snapshot transfer failed: ", "vmstate path has no file name"),
            ),
            Err(TransferError::MemHasNoName) => Err(
                failure(true, "snapshot transfer failed: ", "mem path has no file name"),
            ),
        }
    }
}

/// The snapshot is moved. The first node's guest is to be killed now, and its hold on the treasury
/// released.
#[derive(Debug)]
pub struct Moved<D> {
    pub alive: Node1Alive,
    pub artifact: SnapshotArtifact<D>,
    pub snapshot_bytes: u64,
}

impl<D> Snapshotted<D> {
    /// The copies were tried: `copied` holds the lengths of the two files.
    pub fn transferred(self, copied: Result<(Option<u64>, Option<u64>), String>) -> (r: Result<
        Moved<D>,
        MoveFailure,
    >)
        requires
            copied matches Ok(lens) ==> lens.0.unwrap_or(0) + lens.1.unwrap_or(0) <= u64::MAX,
        ensures
            match r {
                Ok(s) => {
                    &&& copied is Ok
                    &&& s.alive == self.alive
                    &&& s.artifact == self.plan.moved
                    &&& s.snapshot_bytes == copied->Ok_0.0.unwrap_or(0) + copied->Ok_0.1.unwrap_or(
                        0,
                    )
                },
                Err(f) => copied is Err && f.halt_node1 && f.message@
                    == "snapshot transfer failed: "@ + copied->Err_0@,
            },
    {
        match copied {
            Ok((vmstate_len, mem_len)) => {
                let snapshot_bytes: u64 = self.plan.moved.footprint_bytes(vmstate_len, mem_len);
                Ok(Moved { alive: self.alive, artifact: self.plan.moved, snapshot_bytes })
            },
            Err(e) => Err(failure(true, "snapshot transfer failed: ", e.as_str())),
        }
    }
}

/// The second node has the treasury open, at the new generation.
#[derive(Debug)]
pub struct Node2Ready {
    pub alive: Node1Alive,
    pub snapshot_bytes: u64,
    pub generation_post: u64,
    pub treasury_post: u64,
}

impl<D> Moved<D> {
    /// How often the second node's fresh gateway bumps its generation, so that it stands one past
    /// the first node's.
    pub fn bumps(&self) -> (r: u64)
        requires
            self.alive.generation_pre < u64::MAX,
        ensures
            r == self.alive.generation_pre + 1,
    {
        self.alive.generation_pre + 1
    }

    /// The first node is gone, and the second one tried to open the same treasury: `remaining` is
    /// its balance there, and `generation` what its gateway stands at after the bumps. The artifact
    /// to restore comes out with it.
    pub fn reopened(self, remaining: Result<u64, String>, generation: u64) -> (r: Result<
        (Node2Ready, SnapshotArtifact<D>),
        MoveFailure,
    >)
        ensures
            match r {
                Ok((s, artifact)) => {
                    &&& remaining == Ok::<u64, String>(s.treasury_post)
                    &&& s.alive == self.alive
                    &&& s.snapshot_bytes == self.snapshot_bytes
                    &&& s.generation_post == generation
                    &&& artifact == self.artifact
                },
                Err(f) => remaining is Err && !f.halt_node1 && f.message@ == remaining->Err_0@,
            },
    {
        match remaining {
            Ok(treasury_post) => Ok(
                (
                    Node2Ready {
                        alive: self.alive,
                        snapshot_bytes: self.snapshot_bytes,
                        generation_post: generation,
                        treasury_post,
                    },
                    self.artifact,
                ),
            ),
            Err(e) => Err(MoveFailure { halt_node1: false, message: e }),
        }
    }
}

/// The agent is restored on the second node.
#[derive(Debug)]
pub struct Node2Restored {
    pub ready: Node2Ready,
    pub reached_running: bool,
}

impl Node2Ready {
    /// The restore was tried: `restored` says whether the guest runs.
    pub fn restored(self, restored: Result<bool, String>) -> (r: Result<Node2Restored, MoveFailure>)
        ensures
            match r {
                Ok(s) => restored == Ok::<bool, String>(s.reached_running) && s.ready == self,
                Err(f) => restored is Err && !f.halt_node1 && f.message@
                    == "node 2: restore failed: "@ + restored->Err_0@,
            },
    {
        match restored {
            Ok(reached_running) => Ok(Node2Restored { ready: self, reached_running }),
            Err(e) => Err(failure(false, "node 2: restore failed: ", e.as_str())),
        }
    }
}

impl Node2Restored {
    /// What the move amounts to, given what was heard on the second node.
    pub fn judged(self, heard: PostResumeObservation) -> (r: SnapshotRunOutcome)
        ensures
            r.pre_snapshot_round_trip,
            r.node1_killed,
            r.snapshot_bytes == self.ready.snapshot_bytes,
            r.node2_reached_running == self.reached_running,
            r.post_resume_round_trip == (heard.heartbeat is Some),
            r.post_resume_detail == heard.heartbeat,
            r.generation_pre == self.ready.alive.generation_pre,
            r.generation_post == self.ready.generation_post,
            r.treasury_pre == self.ready.alive.treasury_pre,
            r.treasury_post == self.ready.treasury_post,
            r.fingerprint_pre == self.ready.alive.fingerprint_pre,
            r.fingerprint_post is Some <==> heard.heartbeat is Some && tagged_value(
                text::tokens(heard.heartbeat->0@),
                "fingerprint="@,
            ) is Some,
            r.fingerprint_post matches Some(v) ==> tagged_value(
                text::tokens(heard.heartbeat->0@),
                "fingerprint="@,
            ) == Some(v@),
            r.entropy_call_before_post_resume_act == heard.entropy_call_before_act,
    {
        let fingerprint_post = match &heard.heartbeat {
            Some(detail) => parse_fingerprint(detail.as_str()),
            None => None,
        };
        SnapshotRunOutcome {
            pre_snapshot_round_trip: true,
            snapshot_bytes: self.ready.snapshot_bytes,
            node1_killed: true,
            node2_reached_running: self.reached_running,
            post_resume_round_trip: heard.heartbeat.is_some(),
            post_resume_detail: heard.heartbeat,
            generation_pre: self.ready.alive.generation_pre,
            generation_post: self.ready.generation_post,
            treasury_pre: self.ready.alive.treasury_pre,
            treasury_post: self.ready.treasury_post,
            fingerprint_pre: self.ready.alive.fingerprint_pre,
            fingerprint_post,
            entropy_call_before_post_resume_act: heard.entropy_call_before_act,
        }
    }
}

/// A completed move is a survival exactly if the guest ran and was heard on the second node, the
/// generation stands one past the first node's, and the treasury reads the same there.
pub proof fn completed_move_survives(s: Node2Restored, heard: PostResumeObservation, o:
    SnapshotRunOutcome)
    requires
        o.pre_snapshot_round_trip,
        o.node1_killed,
        o.node2_reached_running == s.reached_running,
        o.post_resume_round_trip == (heard.heartbeat is Some),
        o.generation_pre == s.ready.alive.generation_pre,
        o.generation_post == s.ready.generation_post,
        o.treasury_pre == s.ready.alive.treasury_pre,
        o.treasury_post == s.ready.treasury_post,
    ensures
        o.survived() <==> s.reached_running && heard.heartbeat is Some && s.ready.generation_post
            == s.ready.alive.generation_pre + 1 && s.ready.treasury_post
            == s.ready.alive.treasury_pre,
{
}

// ---------------------------------------------------------------------------------------------
// What the calls come to
// ---------------------------------------------------------------------------------------------
/// Both kinds of runs boot the given agent, made snapshot-capable, and differ in the workload alone: the
/// second node gets an id of its own and the first node's port, and both wait forty seconds.
pub proof fn snapshot_run_moves_the_given_agent(
    boot: BootConfig,
    temp_dir: &str,
    run: SnapshotRunConfig,
    control: SnapshotRunConfig,
    treasury: String,
)
    requires
        call_ensures(SnapshotRunConfig::new, (boot, temp_dir), run),
        call_ensures(SnapshotRunConfig::new_negative_control, (boot, temp_dir), control),
        call_ensures(SnapshotRunConfig::treasury_path, (&run, temp_dir), treasury),
    ensures
        run.boot.workload is Some && run.boot.workload->0@ == "snapshot"@,
        control.boot.workload is Some && control.boot.workload->0@ == "resume-noredrive"@,
        run.boot.snapshot_capable && control.boot.snapshot_capable,
        run.boot.node_id == boot.node_id && run.boot.image == boot.image && run.boot.task
            == boot.task,
        run.boot.budget_sats == boot.budget_sats && run.boot.initial_sats == boot.initial_sats,
        run.boot.allow == boot.allow && run.boot.lockdown_egress == boot.lockdown_egress,
        run.boot.guest_cid == boot.guest_cid && run.boot.gateway_port == boot.gateway_port,
        run.boot.vcpu_count == boot.vcpu_count && run.boot.mem_size_mib == boot.mem_size_mib,
        run.node2_id@ == boot.node_id@ + "-n2"@,
        run.node2_id@ != boot.node_id@,
        run.node2_gateway_port == boot.gateway_port,
        run.transfer_dir@ == text::joined(temp_dir@, "kirby-snapshot-"@ + boot.node_id@),
        treasury@ == text::joined(temp_dir@, "kirby-treasury-snap-"@ + boot.node_id@),
        run.pre_snapshot_timeout_ms == 40_000 && run.post_resume_timeout_ms == 40_000,
{
    reveal_strlit("-n2");
    assert(run.node2_id@.len() == boot.node_id@.len() + 3);
}

/// What each node boots: the first node boots the run's guest under the first id, and the second one
/// restores the same image under the second id on the frozen port; both gateways tell the genome the
/// same task, budget and destinations.
pub proof fn both_nodes_run_the_same_guest(
    run: SnapshotRunConfig,
    guest: GuestSpec,
    restore: RestoreSpec,
    session: Session,
)
    requires
        call_ensures(SnapshotRunConfig::node1_guest, (&run,), guest),
        call_ensures(SnapshotRunConfig::node2_restore, (&run,), restore),
        call_ensures(SnapshotRunConfig::session, (&run,), session),
    ensures
        guest.image.kernel@ == run.boot.image.kernel@ && restore.image.kernel@
            == run.boot.image.kernel@,
        guest.image.rootfs@ == run.boot.image.rootfs@ && restore.image.rootfs@
            == run.boot.image.rootfs@,
        guest.instance_id@ == run.boot.node_id@,
        restore.instance_id@ == run.node2_id@,
        guest.gateway_port == run.boot.gateway_port,
        restore.gateway_port == run.node2_gateway_port,
        guest.guest_cid == run.boot.guest_cid,
        guest.vcpu_count == run.boot.vcpu_count,
        guest.mem_size_mib == run.boot.mem_size_mib,
        run.boot.workload is Some ==> guest.workload is Some && guest.workload->0@
            == run.boot.workload->0@,
        run.boot.workload is None ==> guest.workload is None,
        guest.lockdown_egress == run.boot.lockdown_egress,
        restore.lockdown_egress == run.boot.lockdown_egress,
        guest.snapshot_capable == run.boot.snapshot_capable,
        session.task_descriptor@ == run.boot.task@,
        session.budget_sats == run.boot.budget_sats,
        text::views(session.allowlisted_destinations@) == text::views(run.boot.allow@),
{
}

/// How a move is judged: it passed exactly if the agent was heard on both nodes, the first node is gone,
/// the second one ran, the generation was bumped once and the treasury carried over; it took fresh
/// entropy exactly if it passed, both fingerprints are known and differ, and a nonce was taken before
/// it acted.
pub proof fn move_is_judged_by_what_was_seen(
    o: SnapshotRunOutcome,
    passed: bool,
    fresh: bool,
    equal: bool,
)
    requires
        call_ensures(SnapshotRunOutcome::passed, (&o,), passed),
        call_ensures(SnapshotRunOutcome::g7_passed, (&o,), fresh),
        call_ensures(SnapshotRunOutcome::fingerprints_equal, (&o,), equal),
    ensures
        passed <==> o.pre_snapshot_round_trip && o.node1_killed && o.node2_reached_running
            && o.post_resume_round_trip && o.generation_post == o.generation_pre + 1
            && o.treasury_post == o.treasury_pre,
        equal <==> o.fingerprint_pre is Some && o.fingerprint_post is Some && o.fingerprint_pre->0@
            == o.fingerprint_post->0@,
        fresh <==> passed && o.fingerprint_pre is Some && o.fingerprint_post is Some && !equal
            && o.entropy_call_before_post_resume_act,
{
}

proof fn lemma_tagged_after(toks: Seq<Seq<char>>, prefix: Seq<char>, i: int)
    requires
        0 <= i < toks.len(),
        prefix.is_prefix_of(toks[i]),
        forall|j: int| 0 <= j < i ==> !prefix.is_prefix_of(#[trigger] toks[j]),
    ensures
        tagged_value(toks, prefix) == Some(toks[i].skip(prefix.len() as int)),
    decreases toks.len(),
{
    if i > 0 {
        let rest = toks.skip(1);
        assert(!prefix.is_prefix_of(toks[0]));
        assert forall|j: int| 0 <= j < i - 1 implies !prefix.is_prefix_of(#[trigger] rest[j]) by {
            assert(rest[j] == toks[j + 1]);
        }
        assert(rest[i - 1] == toks[i]);
        lemma_tagged_after(rest, prefix, i - 1);
    }
}

proof fn lemma_untagged(toks: Seq<Seq<char>>, prefix: Seq<char>)
    requires
        forall|j: int| 0 <= j < toks.len() ==> !prefix.is_prefix_of(#[trigger] toks[j]),
    ensures
        tagged_value(toks, prefix) is None,
    decreases toks.len(),
{
    if toks.len() > 0 {
        let rest = toks.skip(1);
        assert(!prefix.is_prefix_of(toks[0]));
        assert forall|j: int| 0 <= j < rest.len() implies !prefix.is_prefix_of(
            #[trigger] rest[j],
        ) by {
            assert(rest[j] == toks[j + 1]);
        }
        lemma_untagged(rest, prefix);
    }
}

/// A heartbeat's fingerprint is what stands behind `fingerprint=` in the first word that starts so, and
/// an entropy call's generation the number behind `generation=`; without such a word there is none.
pub proof fn details_are_read_by_their_tags(
    detail: &str,
    fingerprint: Option<String>,
    generation: Option<u64>,
    i: int,
    j: int,
)
    requires
        call_ensures(parse_fingerprint, (detail,), fingerprint),
        call_ensures(parse_generation, (detail,), generation),
    ensures
        ({
            let toks = text::tokens(detail@);
            let p = "fingerprint="@;
            let g = "generation="@;
            &&& 0 <= i < toks.len() && p.is_prefix_of(toks[i]) && (forall|k: int|
                0 <= k < i ==> !p.is_prefix_of(#[trigger] toks[k])) ==> fingerprint is Some
                && fingerprint->0@ == toks[i].skip(p.len() as int)
            &&& (forall|k: int|
                0 <= k < toks.len() ==> !p.is_prefix_of(#[trigger] toks[k])) ==> fingerprint
                is None
            &&& 0 <= j < toks.len() && g.is_prefix_of(toks[j]) && (forall|k: int|
                0 <= k < j ==> !g.is_prefix_of(#[trigger] toks[k])) ==> generation
                == text::parsed_u64(toks[j].skip(g.len() as int))
            &&& (forall|k: int|
                0 <= k < toks.len() ==> !g.is_prefix_of(#[trigger] toks[k])) ==> generation is None
        }),
{
    let toks = text::tokens(detail@);
    let p = "fingerprint="@;
    let g = "generation="@;
    if 0 <= i < toks.len() && p.is_prefix_of(toks[i]) && (forall|k: int|
        0 <= k < i ==> !p.is_prefix_of(#[trigger] toks[k])) {
        lemma_tagged_after(toks, p, i);
    }
    if forall|k: int| 0 <= k < toks.len() ==> !p.is_prefix_of(#[trigger] toks[k]) {
        lemma_untagged(toks, p);
    }
    if 0 <= j < toks.len() && g.is_prefix_of(toks[j]) && (forall|k: int|
        0 <= k < j ==> !g.is_prefix_of(#[trigger] toks[k])) {
        lemma_tagged_after(toks, g, j);
    }
    if forall|k: int| 0 <= k < toks.len() ==> !g.is_prefix_of(#[trigger] toks[k]) {
        lemma_untagged(toks, g);
    }
}

/// The first heartbeat counts, and only what came before it: an agent took fresh entropy before it
/// acted exactly if an entropy call at the new generation was heard before its first heartbeat. Calls
/// at another generation and what is heard later do not count.
pub proof fn entropy_counts_before_the_first_heartbeat(
    events: Vec<GenomeEvent>,
    generation: u64,
    r: PostResumeObservation,
    h: int,
)
    requires
        call_ensures(observe_post_resume, (&events, generation), r),
        0 <= h < events@.len(),
        events@[h].kind@ == "heartbeat"@,
        forall|i: int| 0 <= i < h ==> (#[trigger] events@[i]).kind@ != "heartbeat"@,
    ensures
        r.heartbeat is Some,
        r.heartbeat->0@ == events@[h].detail@,
        r.entropy_call_before_act <==> exists|i: int|
            0 <= i < h && (#[trigger] events@[i]).kind@ == "entropy_nonce_call"@
                && named_generation(events@[i].detail@) == Some(generation),
{
    let es = events@;
    let upto = es.take(h + 1);
    lemma_no_heartbeat(es.take(h));
    assert(upto.drop_last() =~= es.take(h));
    assert(upto.last() == es[h]);
    assert(first_heartbeat(upto) == Some(h));
    lemma_first_heartbeat_stays(es, h + 1);
    let before = es.take(h);
    if called_among(before, generation) {
        let i = choose|i: int|
            0 <= i < before.len() && is_entropy_call(#[trigger] before[i], generation);
        assert(es[i].kind@ == "entropy_nonce_call"@);
    }
    if exists|i: int|
        0 <= i < h && (#[trigger] es[i]).kind@ == "entropy_nonce_call"@ && named_generation(
            es[i].detail@,
        ) == Some(generation) {
        let i = choose|i: int|
            0 <= i < h && (#[trigger] es[i]).kind@ == "entropy_nonce_call"@ && named_generation(
                es[i].detail@,
            ) == Some(generation);
        assert(is_entropy_call(before[i], generation));
    }
}

proof fn lemma_no_heartbeat(events: Seq<GenomeEvent>)
    requires
        forall|i: int| 0 <= i < events.len() ==> (#[trigger] events[i]).kind@ != "heartbeat"@,
    ensures
        first_heartbeat(events) is None,
    decreases events.len(),
{
    if events.len() > 0 {
        let init = events.drop_last();
        assert(events[events.len() - 1].kind@ != "heartbeat"@);
        assert forall|i: int| 0 <= i < init.len() implies (#[trigger] init[i]).kind@
            != "heartbeat"@ by {
            assert(init[i] == events[i]);
        }
        lemma_no_heartbeat(init);
    }
}

/// The watch does the same event by event: a heartbeat ends the wait and carries its detail, an entropy
/// call counts from then on if it is at the new generation, and an expired wait has heard nothing.
pub proof fn watch_counts_calls_at_its_generation(
    watch: &mut PostResumeWatch,
    event: GenomeEvent,
    r: Option<PostResumeObservation>,
    spent: PostResumeObservation,
    fresh: PostResumeWatch,
    generation: u64,
)
    requires
        call_ensures(PostResumeWatch::observe, (watch, &event), r),
        call_ensures(PostResumeWatch::expired, (*final(watch),), spent),
        call_ensures(PostResumeWatch::new, (generation,), fresh),
    ensures
        fresh.generation() == generation && !fresh.called(),
        final(watch).generation() == old(watch).generation(),
        final(watch).called() <==> old(watch).called() || (event.kind@ == "entropy_nonce_call"@
            && named_generation(event.detail@) == Some(old(watch).generation())),
        r is Some <==> event.kind@ == "heartbeat"@,
        r matches Some(o) ==> o.heartbeat is Some && o.heartbeat->0@ == event.detail@
            && o.entropy_call_before_act == old(watch).called(),
        spent.heartbeat is None && !spent.entropy_call_before_act,
{
}

/// A move from end to end: what is judged in the end is what was read on the way. The treasury before
/// is the first node's, the one after the second node's; the same with the generations and the
/// fingerprints; and what is restored is what was snapshotted, moved into the transfer directory.
pub proof fn move_carries_what_was_read<D>(
    config: SnapshotRunConfig,
    running: Node1Running,
    heartbeat: Option<&str>,
    generation_pre: u64,
    treasury_pre: Result<u64, String>,
    alive: Node1Alive,
    snapshot: SnapshotArtifact<D>,
    shot: Snapshotted<D>,
    lens: (Option<u64>, Option<u64>),
    moved: Moved<D>,
    bumps: u64,
    treasury_post: Result<u64, String>,
    generation_post: u64,
    ready: (Node2Ready, SnapshotArtifact<D>),
    runs: bool,
    restored: Node2Restored,
    heard: PostResumeObservation,
    o: SnapshotRunOutcome,
)
    requires
        call_ensures(node1_booted, (&config, true), Ok(running)),
        call_ensures(
            Node1Running::heard,
            (running, heartbeat, generation_pre, treasury_pre),
            Ok(alive),
        ),
        call_ensures(Node1Alive::snapshotted::<D>, (alive, &config, Ok(snapshot)), Ok(shot)),
        call_ensures(Snapshotted::<D>::transferred, (shot, Ok(lens)), Ok(moved)),
        call_ensures(Moved::<D>::bumps, (&moved,), bumps),
        call_ensures(Moved::<D>::reopened, (moved, treasury_post, generation_post), Ok(ready)),
        call_ensures(Node2Ready::restored, (ready.0, Ok(runs)), Ok(restored)),
        call_ensures(Node2Restored::judged, (restored, heard), o),
    ensures
        running.treasury_initial_sats == config.boot.initial_sats,
        treasury_pre == Ok::<u64, String>(o.treasury_pre),
        treasury_post == Ok::<u64, String>(o.treasury_post),
        o.generation_pre == generation_pre,
        o.generation_post == generation_post,
        bumps == generation_pre + 1,
        o.pre_snapshot_round_trip && o.node1_killed,
        o.node2_reached_running == runs,
        o.post_resume_round_trip <==> heard.heartbeat is Some,
        o.post_resume_detail == heard.heartbeat,
        o.entropy_call_before_post_resume_act == heard.entropy_call_before_act,
        o.snapshot_bytes == (if lens.0 is Some {
            lens.0->0
        } else {
            0
        }) + (if lens.1 is Some {
            lens.1->0
        } else {
            0
        }),
        o.fingerprint_pre == alive.fingerprint_pre,
        shot.plan.vmstate.from@ == snapshot.vmstate_path@,
        shot.plan.mem.from@ == snapshot.mem_path@,
        ready.1.vmstate_path@ == shot.plan.vmstate.to@,
        ready.1.mem_path@ == shot.plan.mem.to@,
        ready.1.vmstate_path@ == text::joined(
            config.transfer_dir@,
            text::last_component(snapshot.vmstate_path@)->0,
        ),
        ready.1.mem_path@ == text::joined(
            config.transfer_dir@,
            text::last_component(snapshot.mem_path@)->0,
        ),
        ready.1.class == snapshot.class,
        ready.1.restore_data == snapshot.restore_data,
{
}

/// A move that fails on the way says so, and says whether the first node's guest is still up: up to the
/// transfer it is and has to be halted, after that it is gone.
pub proof fn failed_move_halts_what_still_runs<D>(
    config: SnapshotRunConfig,
    booted: Result<Node1Running, MoveFailure>,
    runs: bool,
    running: Node1Running,
    heartbeat: Option<&str>,
    generation: u64,
    treasury: Result<u64, String>,
    heard: Result<Node1Alive, MoveFailure>,
    shot: Snapshotted<D>,
    copied: Result<(Option<u64>, Option<u64>), String>,
    transferred: Result<Moved<D>, MoveFailure>,
    moved: Moved<D>,
    remaining: Result<u64, String>,
    reopened: Result<(Node2Ready, SnapshotArtifact<D>), MoveFailure>,
    ready: Node2Ready,
    tried: Result<bool, String>,
    restored: Result<Node2Restored, MoveFailure>,
)
    requires
        call_ensures(node1_booted, (&config, runs), booted),
        call_ensures(Node1Running::heard, (running, heartbeat, generation, treasury), heard),
        call_ensures(Snapshotted::<D>::transferred, (shot, copied), transferred),
        call_ensures(Moved::<D>::reopened, (moved, remaining, generation), reopened),
        call_ensures(Node2Ready::restored, (ready, tried), restored),
    ensures
        booted is Ok <==> runs,
        heard is Ok <==> heartbeat is Some && treasury is Ok,
        transferred is Ok <==> copied is Ok,
        reopened is Ok <==> remaining is Ok,
        restored is Ok <==> tried is Ok,
        booted is Err ==> booted->Err_0.halt_node1,
        heard is Err ==> heard->Err_0.halt_node1,
        transferred is Err ==> transferred->Err_0.halt_node1,
        reopened is Err ==> !reopened->Err_0.halt_node1,
        restored is Err ==> !restored->Err_0.halt_node1,
{
}

/// The fingerprints that are judged are those of the two heartbeats: the one heard before the snapshot
/// and the one heard after the restore.
pub proof fn fingerprints_are_the_heartbeats_own(
    running: Node1Running,
    before: &str,
    generation: u64,
    treasury: u64,
    alive: Node1Alive,
    fingerprint_before: Option<String>,
    restored: Node2Restored,
    heard: PostResumeObservation,
    after: &str,
    o: SnapshotRunOutcome,
    fingerprint_after: Option<String>,
)
    requires
        call_ensures(
            Node1Running::heard,
            (running, Some(before), generation, Ok(treasury)),
            Ok(alive),
        ),
        call_ensures(parse_fingerprint, (before,), fingerprint_before),
        call_ensures(Node2Restored::judged, (restored, heard), o),
        call_ensures(parse_fingerprint, (after,), fingerprint_after),
        heard.heartbeat is Some ==> heard.heartbeat->0@ == after@,
    ensures
        alive.treasury_pre == treasury,
        alive.generation_pre == generation,
        alive.fingerprint_pre is Some <==> fingerprint_before is Some,
        alive.fingerprint_pre is Some ==> alive.fingerprint_pre->0@ == fingerprint_before->0@,
        heard.heartbeat is None ==> o.fingerprint_post is None,
        heard.heartbeat is Some ==> (o.fingerprint_post is Some <==> fingerprint_after is Some),
        o.fingerprint_post is Some ==> o.fingerprint_post->0@ == fingerprint_after->0@,
{
}

} // verus!
