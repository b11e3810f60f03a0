//! Patches behaviour into minified JavaScript by locating anchors that
//! survive minification, recovering the renamed identifiers they reveal,
//! and rewriting the text in idempotent, individually reported steps.
//!
//! - [`matcher`]: compiled anchor patterns.
//! - [`discovery`]: identifiers and presence markers of a text.
//! - [`patches`]: the five patch steps.
//! - [`plan`]: the two plans and the pipeline that runs their steps.
//! - [`session`]: the driver, a state machine around reading, backing up,
//!   restoring and writing the target.
//! - [`laws`], [`idempotence`]: properties of whole runs.
//! - [`integrity`]: hashes and manifest checksums.
//! - [`status`], [`paths`]: status reports, revert results, file paths.
pub mod discovery;
pub mod idempotence;
pub mod integrity;
pub mod laws;
pub mod matcher;
pub mod paths;
pub mod patches;
pub mod plan;
pub mod session;
pub mod status;
pub mod step;
pub mod text;

pub use discovery::{discover_vars, quick_detect, DiscoveredVars, DiscoveryError, PresenceFlags};
pub use integrity::{
    checksums_all_match, fix_checksums, replace_ehp_hash, sha256_base64_stripped, sha256_hex, tab_indent,
    verify_checksums, FixChecksumsResult, FixEntry, FixStatus, VerifyEntry, VerifyResult,
};
pub use matcher::{re, Anchor, AnchorSet, Fixed, PatternError};
pub use paths::{bak_path, display_name, CursorPaths};
pub use patches::{
    patch_naive_case, patch_nu_detection, patch_shell_path_fallback, patch_system_nu_detection,
    patch_user_terminal_hint,
};
pub use plan::{PatchPlan, PatchResult, StepKind};
pub use session::{patch_cli_agent, patch_ide_agent, DriverAction, DriverEvent, PatchSession, Phase};
pub use status::{
    component_status, fully_applied, revert_all, revert_targets, ComponentStatus, IntegrityStatus, PatchStatus,
    RevertFileResult, RevertResult,
};
pub use step::StepResult;
