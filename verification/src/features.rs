//! Centralized feature flags and metadata.
//!
//! A small set of toggles gates experimental and optional behavior. Instead
//! of wiring individual booleans through multiple types, call sites consult
//! a single `Features` container.

use vstd::prelude::*;
use crate::text::{str_eq, chars_of, compare_chars, seq_lt};

verus! {

/// High-level lifecycle stage for a feature.
#[derive(Debug, Clone, Copy, PartialEq, Eq)]
pub enum Stage {
    Experimental,
    Beta { name: &'static str, menu_description: &'static str, announcement: &'static str },
    Stable,
    Deprecated,
    Removed,
}

impl Stage {
    /// The beta menu name, for a beta feature.
    pub fn beta_menu_name(self) -> (r: Option<&'static str>)
        ensures
            r == match self {
                Stage::Beta { name, .. } => Some(name),
                _ => None,
            },
    {
        match self {
            Stage::Beta { name, .. } => Some(name),
            _ => None,
        }
    }

    /// The beta menu description, for a beta feature.
    pub fn beta_menu_description(self) -> (r: Option<&'static str>)
        ensures
            r == match self {
                Stage::Beta { menu_description, .. } => Some(menu_description),
                _ => None,
            },
    {
        match self {
            Stage::Beta { menu_description, .. } => Some(menu_description),
            _ => None,
        }
    }

    /// The beta announcement, for a beta feature.
    pub fn beta_announcement(self) -> (r: Option<&'static str>)
        ensures
            r == match self {
                Stage::Beta { announcement, .. } => Some(announcement),
                _ => None,
            },
    {
        match self {
            Stage::Beta { announcement, .. } => Some(announcement),
            _ => None,
        }
    }

    /// A short label for use in schema descriptions.
    pub open spec fn spec_schema_label(self) -> &'static str {
        match self {
            Stage::Stable => "Stable",
            Stage::Beta { .. } => "Beta",
            Stage::Experimental => "Experimental",
            Stage::Deprecated => "Deprecated",
            Stage::Removed => "Removed",
        }
    }

    /// A short label for use in schema descriptions.
    pub fn schema_label(self) -> (r: &'static str)
        ensures
            r == self.spec_schema_label(),
    {
        match self {
            Stage::Stable => "Stable",
            Stage::Beta { .. } => "Beta",
            Stage::Experimental => "Experimental",
            Stage::Deprecated => "Deprecated",
            Stage::Removed => "Removed",
        }
    }
}

/// Unique features toggled via configuration.
#[derive(Debug, Clone, Copy, PartialEq, Eq, Structural, PartialOrd, Ord, Hash)]
pub enum Feature {
    /// Create a ghost commit at each turn.
    GhostCommit,
    /// Allow model to call multiple tools in parallel (only for models supporting it).
    ParallelToolCalls,
    /// Include the view_image tool.
    ViewImageTool,
    /// Enable the default shell tool.
    ShellTool,
    /// Send warnings to the model to correct it on the tool usage.
    ModelWarnings,
    /// Allow the model to request web searches.
    WebSearchRequest,
    /// Use the single unified PTY-backed exec tool.
    UnifiedExec,
    /// Experimental shell snapshotting.
    ShellSnapshot,
    /// Include the freeform apply_patch tool.
    ApplyPatchFreeform,
    /// Gate the execpolicy enforcement for shell/unified exec.
    ExecPolicy,
    /// Enable Windows sandbox (restricted token) on Windows.
    WindowsSandbox,
    /// Use the elevated Windows sandbox pipeline (setup + runner).
    WindowsSandboxElevated,
    /// Remote compaction enabled (only for ChatGPT auth).
    RemoteCompaction,
    /// Refresh remote models and emit AppReady once the list is available.
    RemoteModels,
    /// Enable discovery and injection of skills.
    Skills,
    /// Enforce UTF8 output in Powershell.
    PowershellUtf8,
    /// Experimental TUI v2 (viewport) implementation.
    Tui2,
}

/// The number of features.
pub const FEATURE_COUNT: usize = 17;

impl Feature {
    /// The position of the feature in declaration order, which is its order.
    pub open spec fn spec_ordinal(self) -> nat {
        match self {
            Feature::GhostCommit => 0,
            Feature::ParallelToolCalls => 1,
            Feature::ViewImageTool => 2,
            Feature::ShellTool => 3,
            Feature::ModelWarnings => 4,
            Feature::WebSearchRequest => 5,
            Feature::UnifiedExec => 6,
            Feature::ShellSnapshot => 7,
            Feature::ApplyPatchFreeform => 8,
            Feature::ExecPolicy => 9,
            Feature::WindowsSandbox => 10,
            Feature::WindowsSandboxElevated => 11,
            Feature::RemoteCompaction => 12,
            Feature::RemoteModels => 13,
            Feature::Skills => 14,
            Feature::PowershellUtf8 => 15,
            Feature::Tui2 => 16,
        }
    }

    /// The position of the feature in declaration order, which is its order.
    pub fn ordinal(self) -> (r: u64)
        ensures
            r == self.spec_ordinal(),
    {
        match self {
            Feature::GhostCommit => 0,
            Feature::ParallelToolCalls => 1,
            Feature::ViewImageTool => 2,
            Feature::ShellTool => 3,
            Feature::ModelWarnings => 4,
            Feature::WebSearchRequest => 5,
            Feature::UnifiedExec => 6,
            Feature::ShellSnapshot => 7,
            Feature::ApplyPatchFreeform => 8,
            Feature::ExecPolicy => 9,
            Feature::WindowsSandbox => 10,
            Feature::WindowsSandboxElevated => 11,
            Feature::RemoteCompaction => 12,
            Feature::RemoteModels => 13,
            Feature::Skills => 14,
            Feature::PowershellUtf8 => 15,
            Feature::Tui2 => 16,
        }
    }

    /// The feature at a position of the declaration order.
    pub open spec fn spec_from_ordinal(i: nat) -> Feature {
        if i == 0 {
            Feature::GhostCommit
        } else if i == 1 {
            Feature::ParallelToolCalls
        } else if i == 2 {
            Feature::ViewImageTool
        } else if i == 3 {
            Feature::ShellTool
        } else if i == 4 {
            Feature::ModelWarnings
        } else if i == 5 {
            Feature::WebSearchRequest
        } else if i == 6 {
            Feature::UnifiedExec
        } else if i == 7 {
            Feature::ShellSnapshot
        } else if i == 8 {
            Feature::ApplyPatchFreeform
        } else if i == 9 {
            Feature::ExecPolicy
        } else if i == 10 {
            Feature::WindowsSandbox
        } else if i == 11 {
            Feature::WindowsSandboxElevated
        } else if i == 12 {
            Feature::RemoteCompaction
        } else if i == 13 {
            Feature::RemoteModels
        } else if i == 14 {
            Feature::Skills
        } else if i == 15 {
            Feature::PowershellUtf8
        } else {
            Feature::Tui2
        }
    }

    /// The feature at a position of the declaration order.
    pub fn from_ordinal(i: u64) -> (f: Feature)
        requires
            i < FEATURE_COUNT,
        ensures
            f == Feature::spec_from_ordinal(i as nat),
            f.spec_ordinal() == i,
    {
        if i == 0 {
            Feature::GhostCommit
        } else if i == 1 {
            Feature::ParallelToolCalls
        } else if i == 2 {
            Feature::ViewImageTool
        } else if i == 3 {
            Feature::ShellTool
        } else if i == 4 {
            Feature::ModelWarnings
        } else if i == 5 {
            Feature::WebSearchRequest
        } else if i == 6 {
            Feature::UnifiedExec
        } else if i == 7 {
            Feature::ShellSnapshot
        } else if i == 8 {
            Feature::ApplyPatchFreeform
        } else if i == 9 {
            Feature::ExecPolicy
        } else if i == 10 {
            Feature::WindowsSandbox
        } else if i == 11 {
            Feature::WindowsSandboxElevated
        } else if i == 12 {
            Feature::RemoteCompaction
        } else if i == 13 {
            Feature::RemoteModels
        } else if i == 14 {
            Feature::Skills
        } else if i == 15 {
            Feature::PowershellUtf8
        } else {
            Feature::Tui2
        }
    }

    /// The configuration key of the feature.
    pub open spec fn spec_key(self) -> &'static str {
        match self {
            Feature::GhostCommit => "undo",
            Feature::ParallelToolCalls => "parallel",
            Feature::ViewImageTool => "view_image_tool",
            Feature::ShellTool => "shell_tool",
            Feature::ModelWarnings => "warnings",
            Feature::WebSearchRequest => "web_search_request",
            Feature::UnifiedExec => "unified_exec",
            Feature::ShellSnapshot => "shell_snapshot",
            Feature::ApplyPatchFreeform => "apply_patch_freeform",
            Feature::ExecPolicy => "exec_policy",
            Feature::WindowsSandbox => "experimental_windows_sandbox",
            Feature::WindowsSandboxElevated => "elevated_windows_sandbox",
            Feature::RemoteCompaction => "remote_compaction",
            Feature::RemoteModels => "remote_models",
            Feature::Skills => "skills",
            Feature::PowershellUtf8 => "powershell_utf8",
            Feature::Tui2 => "tui2",
        }
    }

    /// The configuration key of the feature.
    pub fn key(self) -> (r: &'static str)
        ensures
            r == self.spec_key(),
    {
        match self {
            Feature::GhostCommit => "undo",
            Feature::ParallelToolCalls => "parallel",
            Feature::ViewImageTool => "view_image_tool",
            Feature::ShellTool => "shell_tool",
            Feature::ModelWarnings => "warnings",
            Feature::WebSearchRequest => "web_search_request",
            Feature::UnifiedExec => "unified_exec",
            Feature::ShellSnapshot => "shell_snapshot",
            Feature::ApplyPatchFreeform => "apply_patch_freeform",
            Feature::ExecPolicy => "exec_policy",
            Feature::WindowsSandbox => "experimental_windows_sandbox",
            Feature::WindowsSandboxElevated => "elevated_windows_sandbox",
            Feature::RemoteCompaction => "remote_compaction",
            Feature::RemoteModels => "remote_models",
            Feature::Skills => "skills",
            Feature::PowershellUtf8 => "powershell_utf8",
            Feature::Tui2 => "tui2",
        }
    }

    /// The description of the feature.
    pub open spec fn spec_description(self) -> &'static str {
        match self {
            Feature::GhostCommit => "Create a ghost commit at each turn.",
            Feature::ParallelToolCalls => "Allow model to call multiple tools in parallel (only for models supporting it).",
            Feature::ViewImageTool => "Include the view_image tool.",
            Feature::ShellTool => "Enable the default shell tool.",
            Feature::ModelWarnings => "Send warnings to the model to correct it on the tool usage.",
            Feature::WebSearchRequest => "Allow the model to request web searches.",
            Feature::UnifiedExec => "Use the single unified PTY-backed exec tool.",
            Feature::ShellSnapshot => "Experimental shell snapshotting.",
            Feature::ApplyPatchFreeform => "Include the freeform apply_patch tool.",
            Feature::ExecPolicy => "Gate the execpolicy enforcement for shell/unified exec.",
            Feature::WindowsSandbox => "Enable Windows sandbox (restricted token) on Windows.",
            Feature::WindowsSandboxElevated => "Use the elevated Windows sandbox pipeline (setup + runner).",
            Feature::RemoteCompaction => "Remote compaction enabled (only for ChatGPT auth).",
            Feature::RemoteModels => "Refresh remote models and emit AppReady once the list is available.",
            Feature::Skills => "Enable discovery and injection of skills.",
            Feature::PowershellUtf8 => "Enforce UTF8 output in Powershell.",
            Feature::Tui2 => "Experimental TUI v2 (viewport) implementation.",
        }
    }

    /// The description of the feature.
    pub fn description(self) -> (r: &'static str)
        ensures
            r == self.spec_description(),
    {
        match self {
            Feature::GhostCommit => "Create a ghost commit at each turn.",
            Feature::ParallelToolCalls => "Allow model to call multiple tools in parallel (only for models supporting it).",
            Feature::ViewImageTool => "Include the view_image tool.",
            Feature::ShellTool => "Enable the default shell tool.",
            Feature::ModelWarnings => "Send warnings to the model to correct it on the tool usage.",
            Feature::WebSearchRequest => "Allow the model to request web searches.",
            Feature::UnifiedExec => "Use the single unified PTY-backed exec tool.",
            Feature::ShellSnapshot => "Experimental shell snapshotting.",
            Feature::ApplyPatchFreeform => "Include the freeform apply_patch tool.",
            Feature::ExecPolicy => "Gate the execpolicy enforcement for shell/unified exec.",
            Feature::WindowsSandbox => "Enable Windows sandbox (restricted token) on Windows.",
            Feature::WindowsSandboxElevated => "Use the elevated Windows sandbox pipeline (setup + runner).",
            Feature::RemoteCompaction => "Remote compaction enabled (only for ChatGPT auth).",
            Feature::RemoteModels => "Refresh remote models and emit AppReady once the list is available.",
            Feature::Skills => "Enable discovery and injection of skills.",
            Feature::PowershellUtf8 => "Enforce UTF8 output in Powershell.",
            Feature::Tui2 => "Experimental TUI v2 (viewport) implementation.",
        }
    }

    /// The lifecycle stage of the feature.
    pub open spec fn spec_stage(self) -> Stage {
        match self {
            Feature::GhostCommit => Stage::Stable,
            Feature::ParallelToolCalls => Stage::Stable,
            Feature::ViewImageTool => Stage::Stable,
            Feature::ShellTool => Stage::Stable,
            Feature::ModelWarnings => Stage::Stable,
            Feature::WebSearchRequest => Stage::Stable,
            Feature::UnifiedExec => Stage::Beta {
                name: "Background terminal",
                menu_description: "Run long-running terminal commands in the background.",
                announcement: "NEW! Try Background terminals for long running processes. Enable in /experimental!",
            },
            Feature::ShellSnapshot => Stage::Beta {
                name: "Shell snapshot",
                menu_description: "Snapshot your shell environment to avoid re-running login scripts for every command.",
                announcement: "NEW! Try shell snapshotting to make your Codex faster. Enable in /experimental!",
            },
            Feature::ApplyPatchFreeform => Stage::Experimental,
            Feature::ExecPolicy => Stage::Experimental,
            Feature::WindowsSandbox => Stage::Experimental,
            Feature::WindowsSandboxElevated => Stage::Experimental,
            Feature::RemoteCompaction => Stage::Experimental,
            Feature::RemoteModels => Stage::Experimental,
            Feature::Skills => Stage::Experimental,
            Feature::PowershellUtf8 => Stage::Experimental,
            Feature::Tui2 => Stage::Experimental,
        }
    }

    /// The lifecycle stage of the feature.
    pub fn stage(self) -> (r: Stage)
        ensures
            r == self.spec_stage(),
    {
        match self {
            Feature::GhostCommit => Stage::Stable,
            Feature::ParallelToolCalls => Stage::Stable,
            Feature::ViewImageTool => Stage::Stable,
            Feature::ShellTool => Stage::Stable,
            Feature::ModelWarnings => Stage::Stable,
            Feature::WebSearchRequest => Stage::Stable,
            Feature::UnifiedExec => Stage::Beta {
                name: "Background terminal",
                menu_description: "Run long-running terminal commands in the background.",
                announcement: "NEW! Try Background terminals for long running processes. Enable in /experimental!",
            },
            Feature::ShellSnapshot => Stage::Beta {
                name: "Shell snapshot",
                menu_description: "Snapshot your shell environment to avoid re-running login scripts for every command.",
                announcement: "NEW! Try shell snapshotting to make your Codex faster. Enable in /experimental!",
            },
            Feature::ApplyPatchFreeform => Stage::Experimental,
            Feature::ExecPolicy => Stage::Experimental,
            Feature::WindowsSandbox => Stage::Experimental,
            Feature::WindowsSandboxElevated => Stage::Experimental,
            Feature::RemoteCompaction => Stage::Experimental,
            Feature::RemoteModels => Stage::Experimental,
            Feature::Skills => Stage::Experimental,
            Feature::PowershellUtf8 => Stage::Experimental,
            Feature::Tui2 => Stage::Experimental,
        }
    }

    /// Whether the feature is enabled by default.
    pub open spec fn spec_default_enabled(self) -> bool {
        match self {
            Feature::GhostCommit => false,
            Feature::ParallelToolCalls => true,
            Feature::ViewImageTool => true,
            Feature::ShellTool => true,
            Feature::ModelWarnings => true,
            Feature::WebSearchRequest => false,
            Feature::UnifiedExec => false,
            Feature::ShellSnapshot => false,
            Feature::ApplyPatchFreeform => false,
            Feature::ExecPolicy => true,
            Feature::WindowsSandbox => false,
            Feature::WindowsSandboxElevated => false,
            Feature::RemoteCompaction => true,
            Feature::RemoteModels => false,
            Feature::Skills => true,
            Feature::PowershellUtf8 => false,
            Feature::Tui2 => false,
        }
    }

    /// Whether the feature is enabled by default.
    pub fn default_enabled(self) -> (r: bool)
        ensures
            r == self.spec_default_enabled(),
    {
        match self {
            Feature::GhostCommit => false,
            Feature::ParallelToolCalls => true,
            Feature::ViewImageTool => true,
            Feature::ShellTool => true,
            Feature::ModelWarnings => true,
            Feature::WebSearchRequest => false,
            Feature::UnifiedExec => false,
            Feature::ShellSnapshot => false,
            Feature::ApplyPatchFreeform => false,
            Feature::ExecPolicy => true,
            Feature::WindowsSandbox => false,
            Feature::WindowsSandboxElevated => false,
            Feature::RemoteCompaction => true,
            Feature::RemoteModels => false,
            Feature::Skills => true,
            Feature::PowershellUtf8 => false,
            Feature::Tui2 => false,
        }
    }

}

/// Metadata for a single feature definition.
#[derive(Debug, Clone, Copy)]
pub struct FeatureSpec {
    pub id: Feature,
    pub key: &'static str,
    pub stage: Stage,
    pub default_enabled: bool,
}

/// The registry entry of a feature.
pub open spec fn spec_feature_spec(f: Feature) -> FeatureSpec {
    FeatureSpec {
        id: f,
        key: f.spec_key(),
        stage: f.spec_stage(),
        default_enabled: f.spec_default_enabled(),
    }
}

/// The registry of all feature definitions, in declaration order.
pub open spec fn spec_all_feature_specs() -> Seq<FeatureSpec> {
    Seq::new(FEATURE_COUNT as nat, |i: int| spec_feature_spec(Feature::spec_from_ordinal(i as nat)))
}

/// The registry entry of a feature.
pub fn feature_spec(f: Feature) -> (s: FeatureSpec)
    ensures
        s == spec_feature_spec(f),
{
    FeatureSpec { id: f, key: f.key(), stage: f.stage(), default_enabled: f.default_enabled() }
}

/// All feature specs, in declaration order.
pub fn all_feature_specs() -> (r: Vec<FeatureSpec>)
    ensures
        r@ == spec_all_feature_specs(),
{
    let mut r: Vec<FeatureSpec> = Vec::new();
    let mut i: u64 = 0;
    while i < FEATURE_COUNT as u64
        invariant
            i <= FEATURE_COUNT,
            r@.len() == i,
            forall|j: int| 0 <= j < i ==> #[trigger] r@[j] == spec_feature_spec(Feature::spec_from_ordinal(j as nat)),
        decreases FEATURE_COUNT - i,
    {
        let f = Feature::from_ordinal(i);
        r.push(feature_spec(f));
        i = i + 1;
    }
    assert(r@ =~= spec_all_feature_specs());
    r
}

/// Ordinals identify features.
pub proof fn lemma_ordinal(f: Feature)
    ensures
        f.spec_ordinal() < FEATURE_COUNT,
        Feature::spec_from_ordinal(f.spec_ordinal()) == f,
{
}

/// Legacy aliases accepted in `[features]` tables.
pub open spec fn spec_legacy_feature_for_key(key: Seq<char>) -> Option<Feature> {
    if key == "experimental_use_unified_exec_tool"@ {
        Some(Feature::UnifiedExec)
    } else if key == "experimental_use_freeform_apply_patch"@ {
        Some(Feature::ApplyPatchFreeform)
    } else if key == "include_apply_patch_tool"@ {
        Some(Feature::ApplyPatchFreeform)
    } else if key == "web_search"@ {
        Some(Feature::WebSearchRequest)
    } else {
        None
    }
}

/// The feature whose own key is `key`.
pub open spec fn canonical_feature(key: Seq<char>) -> Option<Feature> {
    if key == "undo"@ {
        Some(Feature::GhostCommit)
    } else if key == "parallel"@ {
        Some(Feature::ParallelToolCalls)
    } else if key == "view_image_tool"@ {
        Some(Feature::ViewImageTool)
    } else if key == "shell_tool"@ {
        Some(Feature::ShellTool)
    } else if key == "warnings"@ {
        Some(Feature::ModelWarnings)
    } else if key == "web_search_request"@ {
        Some(Feature::WebSearchRequest)
    } else if key == "unified_exec"@ {
        Some(Feature::UnifiedExec)
    } else if key == "shell_snapshot"@ {
        Some(Feature::ShellSnapshot)
    } else if key == "apply_patch_freeform"@ {
        Some(Feature::ApplyPatchFreeform)
    } else if key == "exec_policy"@ {
        Some(Feature::ExecPolicy)
    } else if key == "experimental_windows_sandbox"@ {
        Some(Feature::WindowsSandbox)
    } else if key == "elevated_windows_sandbox"@ {
        Some(Feature::WindowsSandboxElevated)
    } else if key == "remote_compaction"@ {
        Some(Feature::RemoteCompaction)
    } else if key == "remote_models"@ {
        Some(Feature::RemoteModels)
    } else if key == "skills"@ {
        Some(Feature::Skills)
    } else if key == "powershell_utf8"@ {
        Some(Feature::PowershellUtf8)
    } else if key == "tui2"@ {
        Some(Feature::Tui2)
    } else {
        None
    }
}

/// The feature a `[features]` key names: a feature's own key, or else a
/// legacy alias.
pub open spec fn spec_feature_for_key(key: Seq<char>) -> Option<Feature> {
    match canonical_feature(key) {
        Some(f) => Some(f),
        None => spec_legacy_feature_for_key(key),
    }
}

/// The feature a legacy alias names.
fn legacy_feature_for_key(key: &str) -> (r: Option<Feature>)
    ensures
        r == spec_legacy_feature_for_key(key@),
{
    if str_eq(key, "experimental_use_unified_exec_tool") {
        Some(Feature::UnifiedExec)
    } else if str_eq(key, "experimental_use_freeform_apply_patch") {
        Some(Feature::ApplyPatchFreeform)
    } else if str_eq(key, "include_apply_patch_tool") {
        Some(Feature::ApplyPatchFreeform)
    } else if str_eq(key, "web_search") {
        Some(Feature::WebSearchRequest)
    } else {
        None
    }
}

/// The feature a key accepted in `[features]` tables names: the feature
/// whose key it is, else the feature of a legacy alias.
pub fn feature_for_key(key: &str) -> (r: Option<Feature>)
    ensures
        r == spec_feature_for_key(key@),
{
    if str_eq(key, "undo") {
        Some(Feature::GhostCommit)
    } else if str_eq(key, "parallel") {
        Some(Feature::ParallelToolCalls)
    } else if str_eq(key, "view_image_tool") {
        Some(Feature::ViewImageTool)
    } else if str_eq(key, "shell_tool") {
        Some(Feature::ShellTool)
    } else if str_eq(key, "warnings") {
        Some(Feature::ModelWarnings)
    } else if str_eq(key, "web_search_request") {
        Some(Feature::WebSearchRequest)
    } else if str_eq(key, "unified_exec") {
        Some(Feature::UnifiedExec)
    } else if str_eq(key, "shell_snapshot") {
        Some(Feature::ShellSnapshot)
    } else if str_eq(key, "apply_patch_freeform") {
        Some(Feature::ApplyPatchFreeform)
    } else if str_eq(key, "exec_policy") {
        Some(Feature::ExecPolicy)
    } else if str_eq(key, "experimental_windows_sandbox") {
        Some(Feature::WindowsSandbox)
    } else if str_eq(key, "elevated_windows_sandbox") {
        Some(Feature::WindowsSandboxElevated)
    } else if str_eq(key, "remote_compaction") {
        Some(Feature::RemoteCompaction)
    } else if str_eq(key, "remote_models") {
        Some(Feature::RemoteModels)
    } else if str_eq(key, "skills") {
        Some(Feature::Skills)
    } else if str_eq(key, "powershell_utf8") {
        Some(Feature::PowershellUtf8)
    } else if str_eq(key, "tui2") {
        Some(Feature::Tui2)
    } else {
        legacy_feature_for_key(key)
    }
}

/// Whether `key` is a known feature toggle key.
pub fn is_known_feature_key(key: &str) -> (b: bool)
    ensures
        b == spec_feature_for_key(key@) is Some,
{
    feature_for_key(key).is_some()
}

/// A recorded use of a legacy alias for a feature.
#[derive(Debug, Clone, PartialEq, Eq, PartialOrd, Ord)]
pub struct LegacyFeatureUsage {
    pub alias: String,
    pub feature: Feature,
}

/// The model of a legacy usage: the alias and the feature.
pub open spec fn usage_view(u: LegacyFeatureUsage) -> (Seq<char>, Feature) {
    (u.alias@, u.feature)
}

/// Order of legacy usages: by alias, then by feature.
pub open spec fn usage_lt(a: (Seq<char>, Feature), b: (Seq<char>, Feature)) -> bool {
    seq_lt(a.0, b.0) || (a.0 == b.0 && a.1.spec_ordinal() < b.1.spec_ordinal())
}

/// `s` is in strictly increasing usage order.
pub open spec fn usages_sorted(s: Seq<(Seq<char>, Feature)>) -> bool {
    forall|i: int, j: int| 0 <= i < j < s.len() ==> usage_lt(#[trigger] s[i], #[trigger] s[j])
}

pub proof fn lemma_usage_lt_transitive(
    a: (Seq<char>, Feature),
    b: (Seq<char>, Feature),
    c: (Seq<char>, Feature),
)
    requires
        usage_lt(a, b),
        usage_lt(b, c),
    ensures
        usage_lt(a, c),
{
    if seq_lt(a.0, b.0) && seq_lt(b.0, c.0) {
        crate::text::lemma_seq_lt_transitive(a.0, b.0, c.0);
    }
}

pub proof fn lemma_usage_lt_total(a: (Seq<char>, Feature), b: (Seq<char>, Feature))
    ensures
        a != b ==> usage_lt(a, b) || usage_lt(b, a),
        !usage_lt(a, a),
        usage_lt(a, b) ==> !usage_lt(b, a),
{
    crate::text::lemma_seq_lt_total(a.0, b.0);
    crate::text::lemma_seq_lt_irreflexive(a.0);
    if a.0 == b.0 && a.1.spec_ordinal() == b.1.spec_ordinal() {
        lemma_ordinal(a.1);
        lemma_ordinal(b.1);
    }
}

/// The model of the feature container: the enabled features and the
/// recorded legacy usages.
pub struct FeaturesModel {
    pub enabled: Set<Feature>,
    pub legacy_usages: Set<(Seq<char>, Feature)>,
}

/// Holds the effective set of enabled features.
#[derive(Debug, PartialEq)]
pub struct Features {
    enabled: std::collections::BTreeSet<u64>,
    legacy_usages: Vec<LegacyFeatureUsage>,
}

impl Features {
    /// The recorded usages, in order.
    pub closed spec fn usage_seq(&self) -> Seq<(Seq<char>, Feature)> {
        self.legacy_usages@.map_values(|u: LegacyFeatureUsage| usage_view(u))
    }

    #[verifier::type_invariant]
    closed spec fn inv(&self) -> bool {
        &&& forall|x: u64| self.enabled@.contains(x) ==> x < FEATURE_COUNT
        &&& usages_sorted(self.usage_seq())
    }
}

impl View for Features {
    type V = FeaturesModel;

    closed spec fn view(&self) -> FeaturesModel {
        FeaturesModel {
            enabled: Set::new(|f: Feature| self.enabled@.contains(f.spec_ordinal() as u64)),
            legacy_usages: self.usage_seq().to_set(),
        }
    }
}

/// The features enabled by default.
pub open spec fn default_features() -> Set<Feature> {
    Set::new(|f: Feature| f.spec_default_enabled())
}

/// `m` with feature `f` enabled or disabled.
pub open spec fn set_feature(m: FeaturesModel, f: Feature, enabled: bool) -> FeaturesModel {
    FeaturesModel {
        enabled: if enabled {
            m.enabled.insert(f)
        } else {
            m.enabled.remove(f)
        },
        legacy_usages: m.legacy_usages,
    }
}

/// `m` with the use of `alias` for `f` recorded.
pub open spec fn record_usage(m: FeaturesModel, alias: Seq<char>, f: Feature) -> FeaturesModel {
    FeaturesModel { enabled: m.enabled, legacy_usages: m.legacy_usages.insert((alias, f)) }
}

/// `m` with the use of `alias` for `f` recorded, unless `alias` is the
/// feature's own key.
pub open spec fn record_legacy(m: FeaturesModel, alias: Seq<char>, f: Feature) -> FeaturesModel {
    if alias == f.spec_key()@ {
        m
    } else {
        record_usage(m, alias, f)
    }
}

impl Clone for Features {
    /// A copy with the same enabled features and recorded usages.
    fn clone(&self) -> (r: Self)
        ensures
            r@ == self@,
    {
        proof {
            use_type_invariant(self);
        }
        let mut usages: Vec<LegacyFeatureUsage> = Vec::new();
        let mut i: usize = 0;
        while i < self.legacy_usages.len()
            invariant
                i <= self.legacy_usages@.len(),
                usages@.len() == i,
                forall|j: int| 0 <= j < i ==> usage_view(#[trigger] usages@[j]) == usage_view(self.legacy_usages@[j]),
            decreases self.legacy_usages.len() - i,
        {
            let u = &self.legacy_usages[i];
            usages.push(LegacyFeatureUsage { alias: u.alias.clone(), feature: u.feature });
            i = i + 1;
        }
        assert(usages@.map_values(|u: LegacyFeatureUsage| usage_view(u)) =~= self.usage_seq());
        let r = Features { enabled: self.enabled.clone(), legacy_usages: usages };
        assert(r@.enabled =~= self@.enabled);
        r
    }
}

impl Default for Features {
    fn default() -> (r: Self)
        ensures
            r@.enabled == Set::<Feature>::empty(),
            r@.legacy_usages == Set::<(Seq<char>, Feature)>::empty(),
    {
        let r = Features { enabled: std::collections::BTreeSet::new(), legacy_usages: Vec::new() };
        assert(r@.enabled =~= Set::<Feature>::empty());
        assert(r@.legacy_usages =~= Set::<(Seq<char>, Feature)>::empty()) by {
            assert(r.usage_seq() =~= Seq::<(Seq<char>, Feature)>::empty());
        }
        r
    }
}

impl Features {
    /// Starts with the built-in defaults.
    pub fn with_defaults() -> (r: Self)
        ensures
            r@.enabled == default_features(),
            r@.legacy_usages == Set::<(Seq<char>, Feature)>::empty(),
    {
        let specs = all_feature_specs();
        let mut set: std::collections::BTreeSet<u64> = std::collections::BTreeSet::new();
        let mut i: usize = 0;
        while i < specs.len()
            invariant
                specs@ == spec_all_feature_specs(),
                i <= FEATURE_COUNT,
                forall|x: u64|
                    set@.contains(x) <==> x < i && Feature::spec_from_ordinal(
                        x as nat,
                    ).spec_default_enabled(),
            decreases specs.len() - i,
        {
            if specs[i].default_enabled {
                let f = specs[i].id;
                set.insert(f.ordinal());
            }
            i = i + 1;
        }
        let r = Features { enabled: set, legacy_usages: Vec::new() };
        proof {
            assert forall|f: Feature| r@.enabled.contains(f) == default_features().contains(f) by {
                lemma_ordinal(f);
            }
            assert(r@.enabled =~= default_features());
            assert(r.usage_seq() =~= Seq::<(Seq<char>, Feature)>::empty());
            assert(r@.legacy_usages =~= Set::<(Seq<char>, Feature)>::empty());
        }
        r
    }

    /// Whether `f` is enabled.
    pub fn enabled(&self, f: Feature) -> (b: bool)
        ensures
            b == self@.enabled.contains(f),
    {
        self.enabled.contains(&f.ordinal())
    }

    /// Enables `f`.
    pub fn enable(&mut self, f: Feature) -> (r: &mut Self)
        ensures
            (*r)@ == set_feature(old(self)@, f, true),
            *final(self) == *final(r),
    {
        proof {
            use_type_invariant(&*self);
            lemma_ordinal(f);
        }
        let mut set = std::collections::BTreeSet::new();
        std::mem::swap(&mut set, &mut self.enabled);
        set.insert(f.ordinal());
        let ghost old_self = *self;
        self.enabled = set;
        proof {
            assert forall|g: Feature| self@.enabled.contains(g) == set_feature(old(self)@, f, true).enabled.contains(g) by {
                lemma_ordinal(g);
                if g.spec_ordinal() == f.spec_ordinal() {
                    assert(g == f);
                }
            }
            assert(self@.enabled =~= set_feature(old(self)@, f, true).enabled);
            assert(self@ == set_feature(old(self)@, f, true));
        }
        self
    }

    /// Disables `f`.
    pub fn disable(&mut self, f: Feature) -> (r: &mut Self)
        ensures
            (*r)@ == set_feature(old(self)@, f, false),
            *final(self) == *final(r),
    {
        proof {
            use_type_invariant(&*self);
            lemma_ordinal(f);
        }
        let mut set = std::collections::BTreeSet::new();
        std::mem::swap(&mut set, &mut self.enabled);
        set.remove(&f.ordinal());
        self.enabled = set;
        proof {
            assert forall|g: Feature| self@.enabled.contains(g) == set_feature(old(self)@, f, false).enabled.contains(g) by {
                lemma_ordinal(g);
                if g.spec_ordinal() == f.spec_ordinal() {
                    assert(g == f);
                }
            }
            assert(self@.enabled =~= set_feature(old(self)@, f, false).enabled);
            assert(self@ == set_feature(old(self)@, f, false));
        }
        self
    }
}

/// Three-way comparison of a usage with (alias, feature): -1, 0 or 1.
fn compare_usage(u: &LegacyFeatureUsage, alias: &Vec<char>, f: Feature) -> (r: i8)
    ensures
        r == -1 <==> usage_lt(usage_view(*u), (alias@, f)),
        r == 0 <==> usage_view(*u) == (alias@, f),
        r == 1 <==> usage_lt((alias@, f), usage_view(*u)),
{
    let ua = chars_of(u.alias.as_str());
    let c = compare_chars(&ua, alias);
    proof {
        crate::text::lemma_seq_lt_total(u.alias@, alias@);
        crate::text::lemma_seq_lt_irreflexive(alias@);
        lemma_ordinal(f);
        lemma_ordinal(u.feature);
    }
    if c != 0 {
        c
    } else {
        let a = u.feature.ordinal();
        let b = f.ordinal();
        if a < b {
            -1
        } else if a == b {
            0
        } else {
            1
        }
    }
}

impl Features {
    /// Records that `alias` was used for `feature`.
    pub fn record_legacy_usage_force(&mut self, alias: &str, feature: Feature)
        ensures
            final(self)@ == record_usage(old(self)@, alias@, feature),
    {
        proof {
            use_type_invariant(&*self);
        }
        let ac = chars_of(alias);
        let ghost x = (alias@, feature);
        let ghost us = self.usage_seq();
        let mut i: usize = 0;
        while i < self.legacy_usages.len() && compare_usage(&self.legacy_usages[i], &ac, feature) == -1
            invariant
                i <= self.legacy_usages@.len(),
                us == self.usage_seq(),
                us.len() == self.legacy_usages@.len(),
                ac@ == alias@,
                x == (alias@, feature),
                forall|j: int| 0 <= j < i ==> usage_lt(#[trigger] us[j], x),
            decreases self.legacy_usages.len() - i,
        {
            i = i + 1;
        }
        if i < self.legacy_usages.len() && compare_usage(&self.legacy_usages[i], &ac, feature) == 0 {
            proof {
                assert(us[i as int] == x);
                assert(us.to_set().insert(x) =~= us.to_set());
            }
            return;
        }
        let mut v: Vec<LegacyFeatureUsage> = Vec::new();
        std::mem::swap(&mut v, &mut self.legacy_usages);
        v.insert(i, LegacyFeatureUsage { alias: alias.to_owned(), feature });
        let ghost nus = v@.map_values(|u: LegacyFeatureUsage| usage_view(u));
        proof {
            assert(nus =~= us.insert(i as int, x));
            assert forall|j: int| i <= j < us.len() implies usage_lt(x, #[trigger] us[j]) by {
                lemma_usage_lt_total(us[j], x);
                if j > i {
                    assert(usage_lt(us[i as int], us[j]));
                    lemma_usage_lt_total(us[i as int], x);
                    if usage_lt(us[j], x) {
                        lemma_usage_lt_transitive(us[i as int], us[j], x);
                    }
                }
            }
            assert forall|a: int, b: int| 0 <= a < b < nus.len() implies usage_lt(#[trigger] nus[a], #[trigger] nus[b]) by {
                if b < i {
                } else if b == i {
                } else if a < i {
                    lemma_usage_lt_transitive(nus[a], x, nus[b]);
                } else if a == i {
                } else {
                    assert(nus[a] == us[a - 1] && nus[b] == us[b - 1]);
                }
            }
            assert(nus.to_set() =~= us.to_set().insert(x)) by {
                assert forall|y| nus.to_set().contains(y) implies us.to_set().insert(x).contains(y) by {
                    let k = choose|k: int| 0 <= k < nus.len() && nus[k] == y;
                    if k < i {
                        assert(us[k] == y);
                    } else if k > i {
                        assert(us[k - 1] == y);
                    }
                }
                assert forall|y| us.to_set().insert(x).contains(y) implies nus.to_set().contains(y) by {
                    if y == x {
                        assert(nus[i as int] == x);
                    } else {
                        let k = choose|k: int| 0 <= k < us.len() && us[k] == y;
                        if k < i {
                            assert(nus[k] == y);
                        } else {
                            assert(nus[k + 1] == y);
                        }
                    }
                }
            }
        }
        self.legacy_usages = v;
    }

    /// Records that `alias` was used for `feature`, unless `alias` is the
    /// feature's own key.
    pub fn record_legacy_usage(&mut self, alias: &str, feature: Feature)
        ensures
            final(self)@ == record_legacy(old(self)@, alias@, feature),
    {
        if str_eq(alias, feature.key()) {
            return;
        }
        self.record_legacy_usage_force(alias, feature);
    }

    /// The recorded legacy usages, ordered by alias, then by feature.
    pub fn legacy_feature_usages(&self) -> (r: Vec<(String, Feature)>)
        ensures
            usages_sorted(r@.map_values(|p: (String, Feature)| (p.0@, p.1))),
            r@.map_values(|p: (String, Feature)| (p.0@, p.1)).to_set() == self@.legacy_usages,
    {
        proof {
            use_type_invariant(self);
        }
        let ghost us = self.usage_seq();
        let mut r: Vec<(String, Feature)> = Vec::new();
        let mut i: usize = 0;
        while i < self.legacy_usages.len()
            invariant
                i <= self.legacy_usages@.len(),
                us == self.usage_seq(),
                us.len() == self.legacy_usages@.len(),
                r@.map_values(|p: (String, Feature)| (p.0@, p.1)) == us.take(i as int),
            decreases self.legacy_usages.len() - i,
        {
            let u = &self.legacy_usages[i];
            let ghost before = r@;
            let a = u.alias.clone();
            let f = u.feature;
            assert(us[i as int] == usage_view(self.legacy_usages@[i as int]));
            assert((a@, f) == us[i as int]);
            r.push((a, f));
            proof {
                assert(r@.map_values(|p: (String, Feature)| (p.0@, p.1)) =~= before.map_values(
                    |p: (String, Feature)| (p.0@, p.1),
                ).push((a@, f)));
                assert(us.take(i + 1) =~= us.take(i as int).push(us[i as int]));
            }
            i = i + 1;
        }
        assert(us.take(us.len() as int) =~= us);
        r
    }

    /// The enabled features, in order.
    pub fn enabled_features(&self) -> (r: Vec<Feature>)
        ensures
            forall|i: int, j: int| 0 <= i < j < r@.len() ==> (#[trigger] r@[i]).spec_ordinal() < (#[trigger] r@[j]).spec_ordinal(),
            r@.to_set() == self@.enabled,
    {
        let mut r: Vec<Feature> = Vec::new();
        let mut i: u64 = 0;
        while i < FEATURE_COUNT as u64
            invariant
                i <= FEATURE_COUNT,
                forall|a: int, b: int| 0 <= a < b < r@.len() ==> (#[trigger] r@[a]).spec_ordinal() < (#[trigger] r@[b]).spec_ordinal(),
                forall|a: int| 0 <= a < r@.len() ==> (#[trigger] r@[a]).spec_ordinal() < i,
                forall|f: Feature| r@.contains(f) <==> f.spec_ordinal() < i && self@.enabled.contains(f),
            decreases FEATURE_COUNT - i,
        {
            let f = Feature::from_ordinal(i);
            if self.enabled(f) {
                let ghost before = r@;
                r.push(f);
                proof {
                    assert forall|g: Feature| r@.contains(g) <==> g.spec_ordinal() < i + 1 && self@.enabled.contains(g) by {
                        lemma_ordinal(g);
                        if g.spec_ordinal() == i {
                            assert(g == f);
                            assert(r@[r@.len() - 1] == f);
                        }
                        if r@.contains(g) && g != f {
                            let k = choose|k: int| 0 <= k < r@.len() && r@[k] == g;
                            assert(before[k] == g);
                        }
                        if before.contains(g) {
                            let k = choose|k: int| 0 <= k < before.len() && before[k] == g;
                            assert(r@[k] == g);
                        }
                    }
                }
            } else {
                proof {
                    assert forall|g: Feature| r@.contains(g) <==> g.spec_ordinal() < i + 1 && self@.enabled.contains(g) by {
                        lemma_ordinal(g);
                        if g.spec_ordinal() == i {
                            assert(g == f);
                        }
                    }
                }
            }
            i = i + 1;
        }
        proof {
            assert forall|f: Feature| r@.to_set().contains(f) == self@.enabled.contains(f) by {
                lemma_ordinal(f);
            }
            assert(r@.to_set() =~= self@.enabled);
        }
        r
    }
}

/// Applies one `[features]` entry: a known key enables or disables its
/// feature, recording a legacy alias; an unknown key is ignored.
pub open spec fn apply_entry(m: FeaturesModel, k: Seq<char>, v: bool) -> FeaturesModel {
    match spec_feature_for_key(k) {
        Some(feat) => set_feature(record_legacy(m, k, feat), feat, v),
        None => m,
    }
}

/// Applies `[features]` entries in order.
pub open spec fn apply_entries(m: FeaturesModel, es: Seq<(Seq<char>, bool)>) -> FeaturesModel
    decreases es.len(),
{
    if es.len() == 0 {
        m
    } else {
        apply_entry(apply_entries(m, es.drop_last()), es.last().0, es.last().1)
    }
}

/// The model of a list of `[features]` entries.
pub open spec fn toggle_entries_view(es: Seq<(String, bool)>) -> Seq<(Seq<char>, bool)> {
    es.map_values(|e: (String, bool)| (e.0@, e.1))
}

impl Features {
    /// Applies a table of key -> bool toggles, in order.
    pub fn apply_map(&mut self, m: &Vec<(String, bool)>)
        ensures
            final(self)@ == apply_entries(old(self)@, toggle_entries_view(m@)),
    {
        let ghost es = toggle_entries_view(m@);
        let ghost m0 = self@;
        let mut i: usize = 0;
        assert(es.take(0) =~= Seq::<(Seq<char>, bool)>::empty());
        while i < m.len()
            invariant
                i <= m@.len(),
                es == toggle_entries_view(m@),
                self@ == apply_entries(m0, es.take(i as int)),
            decreases m.len() - i,
        {
            let k = m[i].0.as_str();
            let v = m[i].1;
            proof {
                assert(es.take(i + 1).drop_last() =~= es.take(i as int));
                assert(es.take(i + 1).last() == (k@, v));
            }
            match feature_for_key(k) {
                Some(feat) => {
                    if !str_eq(k, feat.key()) {
                        self.record_legacy_usage(k, feat);
                    }
                    if v {
                        self.enable(feat);
                    } else {
                        self.disable(feat);
                    }
                },
                None => {},
            }
            i = i + 1;
        }
        assert(es.take(m.len() as int) =~= es);
    }
}

/// Legacy configuration toggles that map onto features.
pub struct LegacyFeatureToggles {
    pub include_apply_patch_tool: Option<bool>,
    pub experimental_use_freeform_apply_patch: Option<bool>,
    pub experimental_use_unified_exec_tool: Option<bool>,
    pub tools_web_search: Option<bool>,
    pub tools_view_image: Option<bool>,
}

/// A set legacy toggle sets its feature and records its alias.
pub open spec fn legacy_toggle(m: FeaturesModel, f: Feature, value: Option<bool>, alias: Seq<char>) -> FeaturesModel {
    match value {
        Some(e) => record_usage(set_feature(m, f, e), alias, f),
        None => m,
    }
}

/// The legacy toggles applied in turn.
pub open spec fn apply_toggles(m: FeaturesModel, t: LegacyFeatureToggles) -> FeaturesModel {
    let m1 = legacy_toggle(m, Feature::ApplyPatchFreeform, t.include_apply_patch_tool, "include_apply_patch_tool"@);
    let m2 = legacy_toggle(m1, Feature::ApplyPatchFreeform, t.experimental_use_freeform_apply_patch, "experimental_use_freeform_apply_patch"@);
    let m3 = legacy_toggle(m2, Feature::UnifiedExec, t.experimental_use_unified_exec_tool, "experimental_use_unified_exec_tool"@);
    let m4 = legacy_toggle(m3, Feature::WebSearchRequest, t.tools_web_search, "tools.web_search"@);
    legacy_toggle(m4, Feature::ViewImageTool, t.tools_view_image, "tools.view_image"@)
}

/// Sets `feature` and records `alias` when `value` is set.
fn set_if_some(features: &mut Features, feature: Feature, value: Option<bool>, alias: &str)
    ensures
        final(features)@ == legacy_toggle(old(features)@, feature, value, alias@),
{
    match value {
        Some(enabled) => {
            if enabled {
                features.enable(feature);
            } else {
                features.disable(feature);
            }
            features.record_legacy_usage_force(alias, feature);
        },
        None => {},
    }
}

impl LegacyFeatureToggles {
    /// Applies the set toggles to `features`.
    pub fn apply(self, features: &mut Features)
        ensures
            final(features)@ == apply_toggles(old(features)@, self),
    {
        set_if_some(features, Feature::ApplyPatchFreeform, self.include_apply_patch_tool, "include_apply_patch_tool");
        set_if_some(features, Feature::ApplyPatchFreeform, self.experimental_use_freeform_apply_patch, "experimental_use_freeform_apply_patch");
        set_if_some(features, Feature::UnifiedExec, self.experimental_use_unified_exec_tool, "experimental_use_unified_exec_tool");
        set_if_some(features, Feature::WebSearchRequest, self.tools_web_search, "tools.web_search");
        set_if_some(features, Feature::ViewImageTool, self.tools_view_image, "tools.view_image");
    }
}

/// Overrides of feature toggles given on top of the configuration.
#[derive(Debug, Clone)]
pub struct FeatureOverrides {
    pub include_apply_patch_tool: Option<bool>,
    pub web_search_request: Option<bool>,
}

impl Default for FeatureOverrides {
    fn default() -> (r: Self)
        ensures
            r.include_apply_patch_tool is None,
            r.web_search_request is None,
    {
        FeatureOverrides { include_apply_patch_tool: None, web_search_request: None }
    }
}

/// The legacy toggles an override stands for.
pub open spec fn override_toggles(o: FeatureOverrides) -> LegacyFeatureToggles {
    LegacyFeatureToggles {
        include_apply_patch_tool: o.include_apply_patch_tool,
        experimental_use_freeform_apply_patch: None,
        experimental_use_unified_exec_tool: None,
        tools_web_search: o.web_search_request,
        tools_view_image: None,
    }
}

impl FeatureOverrides {
    /// Applies the overrides to `features`.
    pub(crate) fn apply(self, features: &mut Features)
        ensures
            final(features)@ == apply_toggles(old(features)@, override_toggles(self)),
    {
        LegacyFeatureToggles {
            include_apply_patch_tool: self.include_apply_patch_tool,
            experimental_use_freeform_apply_patch: None,
            experimental_use_unified_exec_tool: None,
            tools_web_search: self.web_search_request,
            tools_view_image: None,
        }.apply(features);
    }
}

/// Keys strictly increasing.
pub open spec fn toggles_sorted(es: Seq<(Seq<char>, bool)>) -> bool {
    forall|i: int, j: int| 0 <= i < j < es.len() ==> seq_lt((#[trigger] es[i]).0, (#[trigger] es[j]).0)
}

/// The value of key `k`, if present.
pub open spec fn toggle_value(es: Seq<(Seq<char>, bool)>, k: Seq<char>) -> Option<bool> {
    if exists|i: int| 0 <= i < es.len() && (#[trigger] es[i]).0 == k {
        Some(es[choose|i: int| 0 <= i < es.len() && (#[trigger] es[i]).0 == k].1)
    } else {
        None
    }
}

/// Deserializable features table: feature keys to booleans, in ascending
/// key order.
#[derive(Debug, PartialEq)]
pub struct FeaturesToml {
    entries: Vec<(String, bool)>,
}

impl View for FeaturesToml {
    type V = Seq<(Seq<char>, bool)>;

    closed spec fn view(&self) -> Seq<(Seq<char>, bool)> {
        toggle_entries_view(self.entries@)
    }
}

impl Clone for FeaturesToml {
    /// A copy with the same entries.
    fn clone(&self) -> (r: Self)
        ensures
            r@ == self@,
    {
        proof {
            use_type_invariant(self);
        }
        let mut entries: Vec<(String, bool)> = Vec::new();
        let mut i: usize = 0;
        while i < self.entries.len()
            invariant
                i <= self.entries@.len(),
                entries@.len() == i,
                forall|j: int| 0 <= j < i ==> (#[trigger] entries@[j]).0@ == self.entries@[j].0@ && entries@[j].1 == self.entries@[j].1,
            decreases self.entries.len() - i,
        {
            entries.push((self.entries[i].0.clone(), self.entries[i].1));
            i = i + 1;
        }
        assert(toggle_entries_view(entries@) =~= toggle_entries_view(self.entries@));
        FeaturesToml { entries }
    }
}

impl Default for FeaturesToml {
    /// An empty table.
    fn default() -> (t: Self)
        ensures
            t@ == Seq::<(Seq<char>, bool)>::empty(),
    {
        let t = FeaturesToml { entries: Vec::new() };
        assert(t@ =~= Seq::<(Seq<char>, bool)>::empty());
        t
    }
}

impl FeaturesToml {
    #[verifier::type_invariant]
    closed spec fn inv(&self) -> bool {
        toggles_sorted(toggle_entries_view(self.entries@))
    }

    /// Sets `key` to `value`, keeping ascending key order.
    pub fn insert(&mut self, key: String, value: bool)
        ensures
            toggles_sorted(final(self)@),
            forall|k: Seq<char>| #[trigger] toggle_value(final(self)@, k) == if k == key@ {
                Some(value)
            } else {
                toggle_value(old(self)@, k)
            },
    {
        proof {
            use_type_invariant(&*self);
        }
        let ghost es = self@;
        let kc = chars_of(key.as_str());
        let mut i: usize = 0;
        while i < self.entries.len() && compare_chars(&chars_of(self.entries[i].0.as_str()), &kc) == -1
            invariant
                i <= self.entries@.len(),
                es == self@,
                es.len() == self.entries@.len(),
                kc@ == key@,
                forall|j: int| 0 <= j < i ==> seq_lt((#[trigger] es[j]).0, key@),
            decreases self.entries.len() - i,
        {
            i = i + 1;
        }
        let mut v: Vec<(String, bool)> = Vec::new();
        std::mem::swap(&mut v, &mut self.entries);
        let found = i < v.len() && str_eq(v[i].0.as_str(), key.as_str());
        if found {
            v.set(i, (key, value));
        } else {
            v.insert(i, (key, value));
        }
        let ghost nes = toggle_entries_view(v@);
        proof {
            let x = (key@, value);
            if found {
                assert(nes =~= es.update(i as int, x));
            } else {
                assert(nes =~= es.insert(i as int, x));
            }
            assert forall|j: int| i <= j < es.len() && !(found && j == i) implies seq_lt(key@, #[trigger] es[j].0) by {
                crate::text::lemma_seq_lt_total(es[j].0, key@);
                crate::text::lemma_seq_lt_total(es[i as int].0, key@);
                if j > i {
                    assert(seq_lt(es[i as int].0, es[j].0));
                    if seq_lt(es[j].0, key@) {
                        crate::text::lemma_seq_lt_transitive(es[i as int].0, es[j].0, key@);
                    }
                    if es[j].0 == key@ {
                        crate::text::lemma_seq_lt_total(es[i as int].0, es[j].0);
                    }
                }
            }
            assert forall|a: int, b: int| 0 <= a < b < nes.len() implies seq_lt((#[trigger] nes[a]).0, (#[trigger] nes[b]).0) by {
                if found {
                    if a == i {
                    } else if b == i {
                    }
                } else {
                    if b < i {
                    } else if b == i {
                    } else if a < i {
                        crate::text::lemma_seq_lt_transitive(nes[a].0, key@, nes[b].0);
                    } else if a == i {
                    } else {
                        assert(nes[a] == es[a - 1] && nes[b] == es[b - 1]);
                    }
                }
            }
            assert forall|k: Seq<char>| #[trigger] toggle_value(nes, k) == if k == key@ {
                Some(value)
            } else {
                toggle_value(es, k)
            } by {
                if k == key@ {
                    assert(nes[i as int].0 == k);
                    let c = choose|c: int| 0 <= c < nes.len() && (#[trigger] nes[c]).0 == k;
                    if c != i {
                        crate::text::lemma_seq_lt_irreflexive(k);
                    }
                } else {
                    if exists|c: int| 0 <= c < es.len() && (#[trigger] es[c]).0 == k {
                        let c = choose|c: int| 0 <= c < es.len() && (#[trigger] es[c]).0 == k;
                        let c2 = if found || c < i { c } else { c + 1 };
                        assert(nes[c2] == es[c]);
                        let d = choose|d: int| 0 <= d < nes.len() && (#[trigger] nes[d]).0 == k;
                        if d != c2 {
                            if d < c2 {
                                assert(seq_lt(nes[d].0, nes[c2].0));
                            } else {
                                assert(seq_lt(nes[c2].0, nes[d].0));
                            }
                            crate::text::lemma_seq_lt_irreflexive(k);
                        }
                    }
                    if exists|d: int| 0 <= d < nes.len() && (#[trigger] nes[d]).0 == k {
                        let d = choose|d: int| 0 <= d < nes.len() && (#[trigger] nes[d]).0 == k;
                        if !found && d == i {
                        } else {
                            let c = if found || d < i { d } else { d - 1 };
                            assert(es[c] == nes[d]);
                        }
                    }
                }
            }
        }
        self.entries = v;
    }

    /// The entries, in ascending key order.
    pub fn entries(&self) -> (r: &Vec<(String, bool)>)
        ensures
            toggle_entries_view(r@) == self@,
            toggles_sorted(self@),
    {
        proof {
            use_type_invariant(self);
        }
        &self.entries
    }
}

/// The legacy `[tools]` table of the config, as far as features read it.
pub struct ToolsToml {
    pub web_search: Option<bool>,
    pub view_image: Option<bool>,
}

/// The config file, as far as features read it.
pub struct ConfigToml {
    pub experimental_use_freeform_apply_patch: Option<bool>,
    pub experimental_use_unified_exec_tool: Option<bool>,
    pub tools: Option<ToolsToml>,
    pub features: Option<FeaturesToml>,
}

/// A config profile, as far as features read it.
pub struct ConfigProfile {
    pub include_apply_patch_tool: Option<bool>,
    pub experimental_use_freeform_apply_patch: Option<bool>,
    pub experimental_use_unified_exec_tool: Option<bool>,
    pub tools_web_search: Option<bool>,
    pub tools_view_image: Option<bool>,
    pub features: Option<FeaturesToml>,
}

/// The legacy toggles of the config file.
pub open spec fn config_toggles(cfg: ConfigToml) -> LegacyFeatureToggles {
    LegacyFeatureToggles {
        include_apply_patch_tool: None,
        experimental_use_freeform_apply_patch: cfg.experimental_use_freeform_apply_patch,
        experimental_use_unified_exec_tool: cfg.experimental_use_unified_exec_tool,
        tools_web_search: match cfg.tools {
            Some(t) => t.web_search,
            None => None,
        },
        tools_view_image: match cfg.tools {
            Some(t) => t.view_image,
            None => None,
        },
    }
}

/// The legacy toggles of a profile.
pub open spec fn profile_toggles(p: ConfigProfile) -> LegacyFeatureToggles {
    LegacyFeatureToggles {
        include_apply_patch_tool: p.include_apply_patch_tool,
        experimental_use_freeform_apply_patch: p.experimental_use_freeform_apply_patch,
        experimental_use_unified_exec_tool: p.experimental_use_unified_exec_tool,
        tools_web_search: p.tools_web_search,
        tools_view_image: p.tools_view_image,
    }
}

/// Applies an optional `[features]` table.
pub open spec fn apply_table(m: FeaturesModel, t: Option<FeaturesToml>) -> FeaturesModel {
    match t {
        Some(t) => apply_entries(m, t@),
        None => m,
    }
}

/// The features of a config: the defaults, then the config file's legacy
/// toggles and `[features]` table, then the profile's legacy toggles and
/// `[features]` table, then the overrides.
pub open spec fn spec_features_from_config(
    cfg: ConfigToml,
    profile: ConfigProfile,
    overrides: FeatureOverrides,
) -> FeaturesModel {
    let m0 = FeaturesModel { enabled: default_features(), legacy_usages: Set::empty() };
    let m1 = apply_toggles(m0, config_toggles(cfg));
    let m2 = apply_table(m1, cfg.features);
    let m3 = apply_toggles(m2, profile_toggles(profile));
    let m4 = apply_table(m3, profile.features);
    apply_toggles(m4, override_toggles(overrides))
}

impl Features {
    /// The features of a config file, a profile and overrides; later
    /// sources take precedence.
    pub fn from_config(cfg: &ConfigToml, config_profile: &ConfigProfile, overrides: FeatureOverrides) -> (r: Self)
        ensures
            r@ == spec_features_from_config(*cfg, *config_profile, overrides),
    {
        let mut features = Features::with_defaults();
        let base_legacy = LegacyFeatureToggles {
            include_apply_patch_tool: None,
            experimental_use_freeform_apply_patch: cfg.experimental_use_freeform_apply_patch,
            experimental_use_unified_exec_tool: cfg.experimental_use_unified_exec_tool,
            tools_web_search: match &cfg.tools {
                Some(t) => t.web_search,
                None => None,
            },
            tools_view_image: match &cfg.tools {
                Some(t) => t.view_image,
                None => None,
            },
        };
        base_legacy.apply(&mut features);
        match &cfg.features {
            Some(base_features) => {
                features.apply_map(base_features.entries());
            },
            None => {},
        }
        let profile_legacy = LegacyFeatureToggles {
            include_apply_patch_tool: config_profile.include_apply_patch_tool,
            experimental_use_freeform_apply_patch: config_profile.experimental_use_freeform_apply_patch,
            experimental_use_unified_exec_tool: config_profile.experimental_use_unified_exec_tool,
            tools_web_search: config_profile.tools_web_search,
            tools_view_image: config_profile.tools_view_image,
        };
        profile_legacy.apply(&mut features);
        match &config_profile.features {
            Some(profile_features) => {
                features.apply_map(profile_features.entries());
            },
            None => {},
        }
        overrides.apply(&mut features);
        features
    }
}

/// Every feature's own key names that feature: keys are distinct, and
/// known.
pub proof fn lemma_feature_key_roundtrip(f: Feature)
    ensures
        spec_feature_for_key(f.spec_key()@) == Some(f),
{
    broadcast use vstd::string::group_string_axioms;
    reveal_strlit("undo");
    reveal_strlit("parallel");
    reveal_strlit("view_image_tool");
    reveal_strlit("shell_tool");
    reveal_strlit("warnings");
    reveal_strlit("web_search_request");
    reveal_strlit("unified_exec");
    reveal_strlit("shell_snapshot");
    reveal_strlit("apply_patch_freeform");
    reveal_strlit("exec_policy");
    reveal_strlit("experimental_windows_sandbox");
    reveal_strlit("elevated_windows_sandbox");
    reveal_strlit("remote_compaction");
    reveal_strlit("remote_models");
    reveal_strlit("skills");
    reveal_strlit("powershell_utf8");
    reveal_strlit("tui2");
    match f {
        Feature::GhostCommit => {

        },
        Feature::ParallelToolCalls => {
            assert("parallel"@.len() != "undo"@.len());
        },
        Feature::ViewImageTool => {
            assert("view_image_tool"@.len() != "undo"@.len());
            assert("view_image_tool"@.len() != "parallel"@.len());
        },
        Feature::ShellTool => {
            assert("shell_tool"@.len() != "undo"@.len());
            assert("shell_tool"@.len() != "parallel"@.len());
            assert("shell_tool"@.len() != "view_image_tool"@.len());
        },
        Feature::ModelWarnings => {
            assert("warnings"@.len() != "undo"@.len());
            assert("warnings"@[0] != "parallel"@[0]);
            assert("warnings"@.len() != "view_image_tool"@.len());
            assert("warnings"@.len() != "shell_tool"@.len());
        },
        Feature::WebSearchRequest => {
            assert("web_search_request"@.len() != "undo"@.len());
            assert("web_search_request"@.len() != "parallel"@.len());
            assert("web_search_request"@.len() != "view_image_tool"@.len());
            assert("web_search_request"@.len() != "shell_tool"@.len());
            assert("web_search_request"@.len() != "warnings"@.len());
        },
        Feature::UnifiedExec => {
            assert("unified_exec"@.len() != "undo"@.len());
            assert("unified_exec"@.len() != "parallel"@.len());
            assert("unified_exec"@.len() != "view_image_tool"@.len());
            assert("unified_exec"@.len() != "shell_tool"@.len());
            assert("unified_exec"@.len() != "warnings"@.len());
            assert("unified_exec"@.len() != "web_search_request"@.len());
        },
        Feature::ShellSnapshot => {
            assert("shell_snapshot"@.len() != "undo"@.len());
            assert("shell_snapshot"@.len() != "parallel"@.len());
            assert("shell_snapshot"@.len() != "view_image_tool"@.len());
            assert("shell_snapshot"@.len() != "shell_tool"@.len());
            assert("shell_snapshot"@.len() != "warnings"@.len());
            assert("shell_snapshot"@.len() != "web_search_request"@.len());
            assert("shell_snapshot"@.len() != "unified_exec"@.len());
        },
        Feature::ApplyPatchFreeform => {
            assert("apply_patch_freeform"@.len() != "undo"@.len());
            assert("apply_patch_freeform"@.len() != "parallel"@.len());
            assert("apply_patch_freeform"@.len() != "view_image_tool"@.len());
            assert("apply_patch_freeform"@.len() != "shell_tool"@.len());
            assert("apply_patch_freeform"@.len() != "warnings"@.len());
            assert("apply_patch_freeform"@.len() != "web_search_request"@.len());
            assert("apply_patch_freeform"@.len() != "unified_exec"@.len());
            assert("apply_patch_freeform"@.len() != "shell_snapshot"@.len());
        },
        Feature::ExecPolicy => {
            assert("exec_policy"@.len() != "undo"@.len());
            assert("exec_policy"@.len() != "parallel"@.len());
            assert("exec_policy"@.len() != "view_image_tool"@.len());
            assert("exec_policy"@.len() != "shell_tool"@.len());
            assert("exec_policy"@.len() != "warnings"@.len());
            assert("exec_policy"@.len() != "web_search_request"@.len());
            assert("exec_policy"@.len() != "unified_exec"@.len());
            assert("exec_policy"@.len() != "shell_snapshot"@.len());
            assert("exec_policy"@.len() != "apply_patch_freeform"@.len());
        },
        Feature::WindowsSandbox => {
            assert("experimental_windows_sandbox"@.len() != "undo"@.len());
            assert("experimental_windows_sandbox"@.len() != "parallel"@.len());
            assert("experimental_windows_sandbox"@.len() != "view_image_tool"@.len());
            assert("experimental_windows_sandbox"@.len() != "shell_tool"@.len());
            assert("experimental_windows_sandbox"@.len() != "warnings"@.len());
            assert("experimental_windows_sandbox"@.len() != "web_search_request"@.len());
            assert("experimental_windows_sandbox"@.len() != "unified_exec"@.len());
            assert("experimental_windows_sandbox"@.len() != "shell_snapshot"@.len());
            assert("experimental_windows_sandbox"@.len() != "apply_patch_freeform"@.len());
            assert("experimental_windows_sandbox"@.len() != "exec_policy"@.len());
        },
        Feature::WindowsSandboxElevated => {
            assert("elevated_windows_sandbox"@.len() != "undo"@.len());
            assert("elevated_windows_sandbox"@.len() != "parallel"@.len());
            assert("elevated_windows_sandbox"@.len() != "view_image_tool"@.len());
            assert("elevated_windows_sandbox"@.len() != "shell_tool"@.len());
            assert("elevated_windows_sandbox"@.len() != "warnings"@.len());
            assert("elevated_windows_sandbox"@.len() != "web_search_request"@.len());
            assert("elevated_windows_sandbox"@.len() != "unified_exec"@.len());
            assert("elevated_windows_sandbox"@.len() != "shell_snapshot"@.len());
            assert("elevated_windows_sandbox"@.len() != "apply_patch_freeform"@.len());
            assert("elevated_windows_sandbox"@.len() != "exec_policy"@.len());
            assert("elevated_windows_sandbox"@.len() != "experimental_windows_sandbox"@.len());
        },
        Feature::RemoteCompaction => {
            assert("remote_compaction"@.len() != "undo"@.len());
            assert("remote_compaction"@.len() != "parallel"@.len());
            assert("remote_compaction"@.len() != "view_image_tool"@.len());
            assert("remote_compaction"@.len() != "shell_tool"@.len());
            assert("remote_compaction"@.len() != "warnings"@.len());
            assert("remote_compaction"@.len() != "web_search_request"@.len());
            assert("remote_compaction"@.len() != "unified_exec"@.len());
            assert("remote_compaction"@.len() != "shell_snapshot"@.len());
            assert("remote_compaction"@.len() != "apply_patch_freeform"@.len());
            assert("remote_compaction"@.len() != "exec_policy"@.len());
            assert("remote_compaction"@.len() != "experimental_windows_sandbox"@.len());
            assert("remote_compaction"@.len() != "elevated_windows_sandbox"@.len());
        },
        Feature::RemoteModels => {
            assert("remote_models"@.len() != "undo"@.len());
            assert("remote_models"@.len() != "parallel"@.len());
            assert("remote_models"@.len() != "view_image_tool"@.len());
            assert("remote_models"@.len() != "shell_tool"@.len());
            assert("remote_models"@.len() != "warnings"@.len());
            assert("remote_models"@.len() != "web_search_request"@.len());
            assert("remote_models"@.len() != "unified_exec"@.len());
            assert("remote_models"@.len() != "shell_snapshot"@.len());
            assert("remote_models"@.len() != "apply_patch_freeform"@.len());
            assert("remote_models"@.len() != "exec_policy"@.len());
            assert("remote_models"@.len() != "experimental_windows_sandbox"@.len());
            assert("remote_models"@.len() != "elevated_windows_sandbox"@.len());
            assert("remote_models"@.len() != "remote_compaction"@.len());
        },
        Feature::Skills => {
            assert("skills"@.len() != "undo"@.len());
            assert("skills"@.len() != "parallel"@.len());
            assert("skills"@.len() != "view_image_tool"@.len());
            assert("skills"@.len() != "shell_tool"@.len());
            assert("skills"@.len() != "warnings"@.len());
            assert("skills"@.len() != "web_search_request"@.len());
            assert("skills"@.len() != "unified_exec"@.len());
            assert("skills"@.len() != "shell_snapshot"@.len());
            assert("skills"@.len() != "apply_patch_freeform"@.len());
            assert("skills"@.len() != "exec_policy"@.len());
            assert("skills"@.len() != "experimental_windows_sandbox"@.len());
            assert("skills"@.len() != "elevated_windows_sandbox"@.len());
            assert("skills"@.len() != "remote_compaction"@.len());
            assert("skills"@.len() != "remote_models"@.len());
        },
        Feature::PowershellUtf8 => {
            assert("powershell_utf8"@.len() != "undo"@.len());
            assert("powershell_utf8"@.len() != "parallel"@.len());
            assert("powershell_utf8"@[0] != "view_image_tool"@[0]);
            assert("powershell_utf8"@.len() != "shell_tool"@.len());
            assert("powershell_utf8"@.len() != "warnings"@.len());
            assert("powershell_utf8"@.len() != "web_search_request"@.len());
            assert("powershell_utf8"@.len() != "unified_exec"@.len());
            assert("powershell_utf8"@.len() != "shell_snapshot"@.len());
            assert("powershell_utf8"@.len() != "apply_patch_freeform"@.len());
            assert("powershell_utf8"@.len() != "exec_policy"@.len());
            assert("powershell_utf8"@.len() != "experimental_windows_sandbox"@.len());
            assert("powershell_utf8"@.len() != "elevated_windows_sandbox"@.len());
            assert("powershell_utf8"@.len() != "remote_compaction"@.len());
            assert("powershell_utf8"@.len() != "remote_models"@.len());
            assert("powershell_utf8"@.len() != "skills"@.len());
        },
        Feature::Tui2 => {
            assert("tui2"@[0] != "undo"@[0]);
            assert("tui2"@.len() != "parallel"@.len());
            assert("tui2"@.len() != "view_image_tool"@.len());
            assert("tui2"@.len() != "shell_tool"@.len());
            assert("tui2"@.len() != "warnings"@.len());
            assert("tui2"@.len() != "web_search_request"@.len());
            assert("tui2"@.len() != "unified_exec"@.len());
            assert("tui2"@.len() != "shell_snapshot"@.len());
            assert("tui2"@.len() != "apply_patch_freeform"@.len());
            assert("tui2"@.len() != "exec_policy"@.len());
            assert("tui2"@.len() != "experimental_windows_sandbox"@.len());
            assert("tui2"@.len() != "elevated_windows_sandbox"@.len());
            assert("tui2"@.len() != "remote_compaction"@.len());
            assert("tui2"@.len() != "remote_models"@.len());
            assert("tui2"@.len() != "skills"@.len());
            assert("tui2"@.len() != "powershell_utf8"@.len());
        },
    }
}

/// Enabling a feature makes it enabled, disabling makes it disabled; other
/// features and the recorded usages are unchanged.
pub proof fn lemma_set_feature(m: FeaturesModel, f: Feature, g: Feature, on: bool)
    ensures
        set_feature(m, f, on).enabled.contains(f) == on,
        g != f ==> set_feature(m, f, on).enabled.contains(g) == m.enabled.contains(g),
        set_feature(m, f, on).legacy_usages == m.legacy_usages,
{
}

/// Recording a feature's own key as an alias records nothing.
pub proof fn lemma_record_own_key(m: FeaturesModel, f: Feature)
    ensures
        record_legacy(m, f.spec_key()@, f) == m,
{
}

/// The last `[features]` entry that names `f`, if any.
pub open spec fn last_toggle(es: Seq<(Seq<char>, bool)>, f: Feature) -> Option<bool>
    decreases es.len(),
{
    if es.len() == 0 {
        None
    } else if spec_feature_for_key(es.last().0) == Some(f) {
        Some(es.last().1)
    } else {
        last_toggle(es.drop_last(), f)
    }
}

/// After applying a table, a feature is enabled exactly when the last
/// entry naming it says so; a feature no entry names keeps its state.
pub proof fn lemma_apply_entries_last_wins(m: FeaturesModel, es: Seq<(Seq<char>, bool)>, f: Feature)
    ensures
        apply_entries(m, es).enabled.contains(f) == match last_toggle(es, f) {
            Some(b) => b,
            None => m.enabled.contains(f),
        },
    decreases es.len(),
{
    if es.len() > 0 {
        lemma_apply_entries_last_wins(m, es.drop_last(), f);
    }
}

/// The overrides take precedence over the config file and the profile.
pub proof fn lemma_overrides_win(cfg: ConfigToml, profile: ConfigProfile, overrides: FeatureOverrides)
    ensures
        overrides.web_search_request matches Some(b) ==> spec_features_from_config(
            cfg,
            profile,
            overrides,
        ).enabled.contains(Feature::WebSearchRequest) == b,
        overrides.include_apply_patch_tool matches Some(b) ==> spec_features_from_config(
            cfg,
            profile,
            overrides,
        ).enabled.contains(Feature::ApplyPatchFreeform) == b,
{
}


/// Some entry of the optional `[features]` table names `f`.
pub open spec fn table_names(t: Option<FeaturesToml>, f: Feature) -> bool {
    match t {
        Some(t) => exists|i: int| 0 <= i < t@.len() && spec_feature_for_key(#[trigger] t@[i].0) == Some(f),
        None => false,
    }
}

/// The profile's legacy settings set `f`.
pub open spec fn profile_sets(p: ConfigProfile, f: Feature) -> bool {
    ||| f == Feature::ApplyPatchFreeform && (p.include_apply_patch_tool is Some
        || p.experimental_use_freeform_apply_patch is Some)
    ||| f == Feature::UnifiedExec && p.experimental_use_unified_exec_tool is Some
    ||| f == Feature::WebSearchRequest && p.tools_web_search is Some
    ||| f == Feature::ViewImageTool && p.tools_view_image is Some
}

/// The overrides set `f`.
pub open spec fn override_sets(o: FeatureOverrides, f: Feature) -> bool {
    ||| f == Feature::ApplyPatchFreeform && o.include_apply_patch_tool is Some
    ||| f == Feature::WebSearchRequest && o.web_search_request is Some
}

/// A source applied after the config file's legacy settings sets `f`: the
/// config's `[features]` table, the profile's legacy settings or
/// `[features]` table, or the overrides.
pub open spec fn later_source_sets(
    cfg: ConfigToml,
    profile: ConfigProfile,
    overrides: FeatureOverrides,
    f: Feature,
) -> bool {
    ||| table_names(cfg.features, f)
    ||| profile_sets(profile, f)
    ||| table_names(profile.features, f)
    ||| override_sets(overrides, f)
}

/// Legacy toggles that set `f`.
spec fn toggles_set(t: LegacyFeatureToggles, f: Feature) -> bool {
    ||| f == Feature::ApplyPatchFreeform && (t.include_apply_patch_tool is Some
        || t.experimental_use_freeform_apply_patch is Some)
    ||| f == Feature::UnifiedExec && t.experimental_use_unified_exec_tool is Some
    ||| f == Feature::WebSearchRequest && t.tools_web_search is Some
    ||| f == Feature::ViewImageTool && t.tools_view_image is Some
}

/// Toggles that do not set `f` keep its state, and no toggle forgets a
/// recorded usage.
proof fn lemma_toggles_keep(m: FeaturesModel, t: LegacyFeatureToggles, f: Feature)
    ensures
        !toggles_set(t, f) ==> apply_toggles(m, t).enabled.contains(f) == m.enabled.contains(f),
        m.legacy_usages.subset_of(apply_toggles(m, t).legacy_usages),
{
}

/// A table in which no entry names `f` keeps its state, and no table
/// forgets a recorded usage.
proof fn lemma_table_keeps(m: FeaturesModel, t: Option<FeaturesToml>, f: Feature)
    ensures
        !table_names(t, f) ==> apply_table(m, t).enabled.contains(f) == m.enabled.contains(f),
        m.legacy_usages.subset_of(apply_table(m, t).legacy_usages),
{
    if let Some(t) = t {
        lemma_entries_keep(m, t@, f);
    }
}

proof fn lemma_entries_keep(m: FeaturesModel, es: Seq<(Seq<char>, bool)>, f: Feature)
    ensures
        (forall|i: int| 0 <= i < es.len() ==> spec_feature_for_key(#[trigger] es[i].0) != Some(f))
            ==> apply_entries(m, es).enabled.contains(f) == m.enabled.contains(f),
        m.legacy_usages.subset_of(apply_entries(m, es).legacy_usages),
    decreases es.len(),
{
    if es.len() > 0 {
        let d = es.drop_last();
        lemma_entries_keep(m, d, f);
        if forall|i: int| 0 <= i < es.len() ==> spec_feature_for_key(#[trigger] es[i].0) != Some(f) {
            assert forall|i: int| 0 <= i < d.len() implies spec_feature_for_key(#[trigger] d[i].0) != Some(f) by {
                assert(d[i] == es[i]);
            }
            assert(spec_feature_for_key(es[es.len() - 1].0) != Some(f));
        }
    }
}

/// A legacy setting of the config file takes effect unless a later source
/// sets the same feature: the feature ends up enabled exactly as the setting
/// says, and the use of the legacy setting is recorded.
pub proof fn lemma_config_legacy_settings_apply(
    cfg: ConfigToml,
    profile: ConfigProfile,
    overrides: FeatureOverrides,
)
    ensures
        cfg.experimental_use_freeform_apply_patch matches Some(v) ==> (!later_source_sets(
            cfg,
            profile,
            overrides,
            Feature::ApplyPatchFreeform,
        ) ==> spec_features_from_config(cfg, profile, overrides).enabled.contains(
            Feature::ApplyPatchFreeform,
        ) == v && spec_features_from_config(cfg, profile, overrides).legacy_usages.contains(
            ("experimental_use_freeform_apply_patch"@, Feature::ApplyPatchFreeform),
        )),
        cfg.experimental_use_unified_exec_tool matches Some(v) ==> (!later_source_sets(
            cfg,
            profile,
            overrides,
            Feature::UnifiedExec,
        ) ==> spec_features_from_config(cfg, profile, overrides).enabled.contains(
            Feature::UnifiedExec,
        ) == v && spec_features_from_config(cfg, profile, overrides).legacy_usages.contains(
            ("experimental_use_unified_exec_tool"@, Feature::UnifiedExec),
        )),
        cfg.tools matches Some(t) ==> (t.web_search matches Some(v) ==> (!later_source_sets(
            cfg,
            profile,
            overrides,
            Feature::WebSearchRequest,
        ) ==> spec_features_from_config(cfg, profile, overrides).enabled.contains(
            Feature::WebSearchRequest,
        ) == v && spec_features_from_config(cfg, profile, overrides).legacy_usages.contains(
            ("tools.web_search"@, Feature::WebSearchRequest),
        ))),
        cfg.tools matches Some(t) ==> (t.view_image matches Some(v) ==> (!later_source_sets(
            cfg,
            profile,
            overrides,
            Feature::ViewImageTool,
        ) ==> spec_features_from_config(cfg, profile, overrides).enabled.contains(
            Feature::ViewImageTool,
        ) == v && spec_features_from_config(cfg, profile, overrides).legacy_usages.contains(
            ("tools.view_image"@, Feature::ViewImageTool),
        ))),
{
    let m0 = FeaturesModel { enabled: default_features(), legacy_usages: Set::empty() };
    let m1 = apply_toggles(m0, config_toggles(cfg));
    let m2 = apply_table(m1, cfg.features);
    let m3 = apply_toggles(m2, profile_toggles(profile));
    let m4 = apply_table(m3, profile.features);
    let m5 = apply_toggles(m4, override_toggles(overrides));
    assert(m5 == spec_features_from_config(cfg, profile, overrides));
    let fs = seq![
        Feature::ApplyPatchFreeform,
        Feature::UnifiedExec,
        Feature::WebSearchRequest,
        Feature::ViewImageTool,
    ];
    assert forall|i: int| 0 <= i < 4 implies {
        let f = #[trigger] fs[i];
        !later_source_sets(cfg, profile, overrides, f) ==> m5.enabled.contains(f) == m1.enabled.contains(f)
    } by {
        let f = fs[i];
        lemma_table_keeps(m1, cfg.features, f);
        lemma_toggles_keep(m2, profile_toggles(profile), f);
        lemma_table_keeps(m3, profile.features, f);
        lemma_toggles_keep(m4, override_toggles(overrides), f);
    }
    lemma_table_keeps(m1, cfg.features, Feature::ViewImageTool);
    lemma_toggles_keep(m2, profile_toggles(profile), Feature::ViewImageTool);
    lemma_table_keeps(m3, profile.features, Feature::ViewImageTool);
    lemma_toggles_keep(m4, override_toggles(overrides), Feature::ViewImageTool);
    assert(m1.legacy_usages.subset_of(m5.legacy_usages));
    assert(fs[0] == Feature::ApplyPatchFreeform);
    assert(fs[1] == Feature::UnifiedExec);
    assert(fs[2] == Feature::WebSearchRequest);
    assert(fs[3] == Feature::ViewImageTool);
}

} // verus!
