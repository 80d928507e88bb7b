//! Verified core of the ping latency tracker: validation of user input,
//! interpretation of `ping` output, and the small decisions around the
//! history store.

pub mod text;
pub mod target;
pub mod unicode;
pub mod ping_output;
pub mod models;
pub mod history;
