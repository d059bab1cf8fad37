//! The parts of a node's configuration that its logic reads.
use vstd::prelude::*;
use vstd::string::StringExecFns;

use crate::sandbox::GuestArch;
use crate::text;

verus! {

/// The longest agent label, in characters.
pub const MAX_AGENT_LABEL: usize = 64;

/// Why an agent label is refused.
#[derive(Debug, Clone, Copy, PartialEq, Eq, Structural)]
pub enum LabelError {
    Empty,
    TooLong,
    /// A character outside `[A-Za-z0-9._-]`.
    BadCharacter,
    /// `.` or `..`, which name a directory.
    PathComponent,
}

/// Whether a character may stand in an agent label.
pub open spec fn is_label_char(c: char) -> bool {
    text::is_ascii_alnum(c) || c == '.' || c == '_' || c == '-'
}

/// Why `label` is no agent label, if it is none.
pub open spec fn label_error(label: Seq<char>) -> Option<LabelError> {
    if label.len() == 0 {
        Some(LabelError::Empty)
    } else if label.len() > MAX_AGENT_LABEL {
        Some(LabelError::TooLong)
    } else if exists|i: int| 0 <= i < label.len() && !is_label_char(#[trigger] label[i]) {
        Some(LabelError::BadCharacter)
    } else if label == "."@ || label == ".."@ {
        Some(LabelError::PathComponent)
    } else {
        None
    }
}

/// Check an agent label. It names files, directories and host interfaces.
pub fn validate_agent_label(label: &str) -> (r: Result<(), LabelError>)
    ensures
        match r {
            Ok(()) => label_error(label@) is None,
            Err(e) => label_error(label@) == Some(e),
        },
{
    let chars = text::chars_of(label);
    if chars.len() == 0 {
        return Err(LabelError::Empty);
    }
    if chars.len() > MAX_AGENT_LABEL {
        return Err(LabelError::TooLong);
    }
    let mut i: usize = 0;
    while i < chars.len()
        invariant
            i <= chars@.len(),
            chars@ == label@,
            0 < chars@.len() <= MAX_AGENT_LABEL,
            forall|j: int| 0 <= j < i ==> is_label_char(#[trigger] chars@[j]),
        decreases chars@.len() - i,
    {
        let c = chars[i];
        if !(text::ascii_alnum(c) || c == '.' || c == '_' || c == '-') {
            assert(!is_label_char(label@[i as int]));
            return Err(LabelError::BadCharacter);
        }
        i = i + 1;
    }
    if text::str_eq(label, ".") || text::str_eq(label, "..") {
        return Err(LabelError::PathComponent);
    }
    Ok(())
}

/// A label stands alone in a path: it holds no separator.
pub proof fn label_holds_no_separator(label: Seq<char>)
    requires
        label_error(label) is None,
    ensures
        !label.contains('/'),
        !label.contains('\0'),
        label.len() > 0,
{
    if label.contains('/') {
        let i = choose|i: int| 0 <= i < label.len() && label[i] == '/';
        assert(!is_label_char(label[i]));
    }
    if label.contains('\0') {
        let i = choose|i: int| 0 <= i < label.len() && label[i] == '\0';
        assert(!is_label_char(label[i]));
    }
}

/// The sandbox backend a run boots on.
#[derive(Debug, Clone, Copy, PartialEq, Eq, Structural)]
pub enum ResolvedBackend {
    Firecracker,
    Vz,
}

impl ResolvedBackend {
    /// The backend's name.
    pub open spec fn spec_label(self) -> Seq<char> {
        match self {
            ResolvedBackend::Firecracker => "firecracker"@,
            ResolvedBackend::Vz => "vz"@,
        }
    }

    /// The backend's name.
    pub fn label(self) -> (r: &'static str)
        ensures
            r@ == self.spec_label(),
    {
        match self {
            ResolvedBackend::Firecracker => "firecracker",
            ResolvedBackend::Vz => "vz",
        }
    }

    /// The architecture of the images that the backend boots.
    pub open spec fn spec_arch(self) -> GuestArch {
        match self {
            ResolvedBackend::Firecracker => GuestArch::X86_64,
            ResolvedBackend::Vz => GuestArch::Aarch64,
        }
    }

    /// The architecture of the images that the backend boots.
    pub fn arch(self) -> (r: GuestArch)
        ensures
            r == self.spec_arch(),
    {
        match self {
            ResolvedBackend::Firecracker => GuestArch::X86_64,
            ResolvedBackend::Vz => GuestArch::Aarch64,
        }
    }
}

/// Where the genome image comes from.
#[derive(Debug)]
pub enum GenomeImage {
    /// A local directory.
    Path(String),
    /// A download.
    Url(String),
}

/// Whether a run gives birth to its agent or continues it.
#[derive(Debug, Clone, Copy, PartialEq, Eq, Structural)]
pub enum RunMode {
    Bootstrap,
    Resume,
}

impl RunMode {
    /// The mode's name.
    pub open spec fn spec_name(self) -> Seq<char> {
        match self {
            RunMode::Bootstrap => "Bootstrap"@,
            RunMode::Resume => "Resume"@,
        }
    }

    /// The mode's name.
    pub fn name(self) -> (r: &'static str)
        ensures
            r@ == self.spec_name(),
    {
        match self {
            RunMode::Bootstrap => "Bootstrap",
            RunMode::Resume => "Resume",
        }
    }
}

/// The workloads that have an allowlist of their own.
#[derive(Debug, Clone, Copy, PartialEq, Eq, Structural)]
pub enum WorkloadKind {
    Brain,
    Memory,
    Diarist,
    Other,
}

/// What the genome runs.
#[derive(Debug)]
pub struct Workload {
    pub kind: WorkloadKind,
    /// The workload's name on the guest's boot parameters.
    pub genome_workload: String,
    /// Whether the workload submits a checkpoint that a later run can resume from.
    pub submits_checkpoint: bool,
}

/// Who the node is, and where it keeps its treasury.
#[derive(Debug)]
pub struct IdentityConfig {
    pub key_path: String,
    pub treasury_dir: String,
}

/// The relay, and the cadence of the node's presence on it.
#[derive(Debug)]
pub struct RelayConfig {
    pub url: String,
    pub presence_interval_secs: u64,
    pub presence_stale_after_secs: u64,
}

/// The agent's durable memory.
#[derive(Debug)]
pub struct MemoryConfig {
    /// The key that the journal is encrypted under.
    pub key_path: Option<String>,
    /// The rest of the block, as written.
    pub settings: String,
}

/// The agent's seed money.
#[derive(Debug)]
pub struct FundingConfig {
    pub initial_sats: u64,
}

/// A node's configuration.
#[derive(Debug)]
pub struct KirbyConfig {
    pub identity: IdentityConfig,
    pub relay: RelayConfig,
    pub backend: ResolvedBackend,
    pub genome_image: GenomeImage,
    pub workload: Workload,
    /// The brain's block, as written.
    pub brain: String,
    pub memory: MemoryConfig,
    /// The diarist's block, as written.
    pub diarist: String,
    /// The meter's rates, as written.
    pub meter: String,
    pub mode: RunMode,
    pub funding: FundingConfig,
    pub agent_id: String,
    pub node_id: String,
}

/// A tenant to launch: the agent, and what its treasury starts with.
#[derive(Debug)]
pub struct TenantConfig {
    pub agent_id: String,
    pub initial_sats: u64,
}

proof fn lemma_label_char(c: char)
    ensures
        is_label_char(c) ==> ('a' <= c && c <= 'z') || ('A' <= c && c <= 'Z') || ('0' <= c && c
            <= '9') || c == '.' || c == '_' || c == '-',
{
}

/// What a label is: one to 64 characters, each an ASCII letter or digit, a dot, an underscore or a
/// hyphen, and neither `.` nor `..`.
pub proof fn label_is_a_plain_file_name(label: &str, r: Result<(), LabelError>, i: int)
    requires
        call_ensures(validate_agent_label, (label,), r),
        0 <= i < label@.len(),
    ensures
        r is Ok ==> label@.len() <= 64,
        r is Ok ==> {
            let c = label@[i];
            ('a' <= c && c <= 'z') || ('A' <= c && c <= 'Z') || ('0' <= c && c <= '9') || c == '.'
                || c == '_' || c == '-'
        },
        r is Ok ==> label@ != "."@ && label@ != ".."@,
        label@.len() > 64 <==> r == Err::<(), _>(LabelError::TooLong),
        label@ == "."@ || label@ == ".."@ ==> r is Err,
        r == Err::<(), _>(LabelError::PathComponent) ==> label@ == "."@ || label@ == ".."@,
        r == Err::<(), _>(LabelError::BadCharacter) ==> exists|k: int|
            0 <= k < label@.len() && !is_label_char(#[trigger] label@[k]),
{
    let c = label@[i];
    assert(r is Ok ==> is_label_char(c));
    lemma_label_char(c);
}

/// Every short text of letters, digits, dots, underscores and hyphens is a label, but for the empty
/// text and the two names of directories.
pub proof fn allowed_characters_make_a_label(label: &str, r: Result<(), LabelError>)
    requires
        call_ensures(validate_agent_label, (label,), r),
        label@.len() <= 64,
        forall|i: int|
            0 <= i < label@.len() ==> {
                let c = #[trigger] label@[i];
                ('a' <= c && c <= 'z') || ('A' <= c && c <= 'Z') || ('0' <= c && c <= '9') || c
                    == '.' || c == '_' || c == '-'
            },
    ensures
        label@.len() > 0 && label@ != "."@ && label@ != ".."@ ==> r is Ok,
        label@.len() == 0 ==> r == Err::<(), _>(LabelError::Empty),
        label@ == "."@ || label@ == ".."@ ==> r == Err::<(), _>(LabelError::PathComponent),
{
    reveal_strlit(".");
    reveal_strlit("..");
    assert forall|i: int| 0 <= i < label@.len() implies is_label_char(#[trigger] label@[i]) by {}
}

/// Firecracker boots x86-64 images and Virtualization.framework boots AArch64 ones, and their names
/// differ.
pub proof fn backends_boot_their_architecture(b: ResolvedBackend, arch: GuestArch, name: &'static str)
    requires
        call_ensures(ResolvedBackend::arch, (b,), arch),
        call_ensures(ResolvedBackend::label, (b,), name),
    ensures
        b is Firecracker <==> arch == GuestArch::X86_64,
        b is Firecracker ==> name@ == "firecracker"@,
        b is Vz <==> arch == GuestArch::Aarch64,
        b is Vz ==> name@ == "vz"@,
{
}

} // verus!
