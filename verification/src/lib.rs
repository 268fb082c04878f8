//! Herdr/cmux integration: planning and routing logic with verified contracts.
mod text;
mod keys;
mod assoc;
pub mod json;
pub mod layout;
pub mod control;
pub mod engine;
pub mod io;
pub mod order;
pub mod session;
pub mod api;
pub mod status;
pub mod digest;
pub mod state;
pub mod socket;
pub mod nest;
pub mod pump;
pub mod live;
pub mod live_host;
pub mod mirror;
pub mod host;
pub mod bridge;
pub mod rail;
pub mod lifecycle;
pub mod handoff;
pub mod impose;
pub mod sidebar;
pub mod model;
pub mod tree;
pub mod call;
pub mod doctor;
pub mod sync;
pub mod verbs;
pub mod layout_parse;
