//! The search over candidates: a tree of scored attempts and the rules that pick the next parent.
pub mod config;
pub mod greedy;
pub mod laws;
pub mod mcts;
pub mod node;
pub mod order;
pub mod record;
pub mod replay;
pub mod restore;
pub mod state;
pub mod tree;
