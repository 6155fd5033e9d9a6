//! What is decided about every request, and the state that requests share.

pub mod backup_phase;
pub mod backup_progress;
pub mod csrf;
pub mod ip;
pub mod normalize;
pub mod rate_limit;
pub mod state;

pub use self::backup_progress::BackupProgress;
pub use self::csrf::validate_csrf;
pub use self::state::{
    AutoFullBackupSettings,
    AutoFullBackupSettingsSnapshot,
    DbMaintenanceJobPhase,
    DbMaintenanceJobStatus,
    DbMaintenanceJobs,
    MaintenanceGate,
};
