//! Keeps a moderation list in step with the followers of a watched account:
//! a resumable paginated backfill, a filtered live event feed, and a sink that
//! adds subjects to the list, stopping at an already-synchronized boundary.
//!
//! The network, the clock and the rate limiter live with the caller; this
//! crate holds the decisions, stated and proved over plain values.

pub mod backfill;
pub mod events;
pub mod modlist;
pub mod paginate;
pub mod progress;
pub mod sink;
pub mod state;
