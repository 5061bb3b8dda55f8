//! Consistency verification and fault injection for a replicated point store.
//!
//! A cluster of store nodes is driven through rounds of mutations while
//! shards are moved between the nodes, and after every round the nodes are
//! held against what the round must have left behind. This library holds
//! what is decided on the way, over plain values: the batches of a round
//! and the nodes they go to, the retry of a call, the phases of a
//! transfer, the lock between transfers and checks, the three checks
//! themselves with their reports, and the sequence of the rounds. The
//! remote calls, the clock and the tasks belong to the program around it.

pub mod batches;
pub mod checker;
pub mod controller;
pub mod counters;
pub mod cross_node;
pub mod driver;
pub mod existence;
pub mod point_id;
pub mod poll;
pub mod ranges;
pub mod recheck;
pub mod report;
pub mod retry;
pub mod selection;
pub mod text;
pub mod transfer;
pub mod transfer_lock;
pub mod window;
