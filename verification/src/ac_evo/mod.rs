//! Assetto Corsa Evo.

pub mod snapshot;
pub mod status;
pub mod types;

pub use snapshot::var_list_snapshot;
pub use status::{is_live, AC_STATUS_LIVE};
pub use types::{AcEvoInstrumentation, AcEvoPitInfo, AcEvoTimingState};
