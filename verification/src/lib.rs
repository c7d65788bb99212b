//! Computational core of a tiling window manager: an ordered store of
//! managed windows, a master-stack tiling engine, focus tracking, a
//! minimisation ledger and a single-slot fullscreen overlay.

pub mod invariants;
pub mod laws;
pub mod ledger;
pub mod manager;
pub mod state;
pub mod store;
pub mod tiling;
pub mod types;
