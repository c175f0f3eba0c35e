//! Turn scheduling: the per-tick initiative countdown, turn eligibility,
//! status-effect upkeep, turn denial for confused actors, and encumbrance.

pub mod initiative;
pub mod turn_status;
pub mod encumbrance;
