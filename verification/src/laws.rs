//! What holds of a peer, of its event loop and of several peers together.

pub mod acceptance;
pub mod agreement;
pub mod answers;
pub mod application;
pub mod commitment;
pub mod completeness;
pub mod control;
pub mod election;
pub mod history;
pub mod leaders;
pub mod looping;
pub mod matching;
pub mod persistence;
pub mod progress;
pub mod replication;
pub mod reports;
pub mod run;
pub mod seeing;
pub mod soundness;
pub mod turns;
pub mod voting;
