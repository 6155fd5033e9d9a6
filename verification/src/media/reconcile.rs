//! Bounded auditing of managed media and conservative orphan repair.
//!
//! Database rows are semantic claims on managed paths. A malformed or incomplete
//! reference scan disables orphan repair for that pass.

pub mod audit;
pub mod enumeration;
pub mod guarantees;
pub mod intents;
pub mod inventory;
pub mod jobs;
pub mod listing;
pub mod model;
pub mod orphans;
pub mod pass;
pub mod repairs;
pub mod report;
pub mod rows;
pub mod run;

pub use self::pass::{metrics_snapshot, ReconcileMetrics};
pub use self::report::{
    configured_limits,
    configured_mode,
    AuditClassification,
    AuditExample,
    AuditReport,
    MediaCategory,
    ReconcileCursor,
    ReconcileLimits,
    ReconcileMode,
    RecommendedAction,
    RepairSummary,
};
pub use self::run::reconcile_managed_media;
