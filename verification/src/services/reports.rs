//! Dashboard figures.
pub use crate::commands::reports::DashboardStats;
