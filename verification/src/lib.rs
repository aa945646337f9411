//! A tabular reinforcement-learning engine for a simulated survival grid:
//! a discrete state/action value table, an epsilon-greedy training loop,
//! and the agent/environment contract connecting a simulated inhabitant of
//! a 2-D resource grid to that table.
//!
//! All scalar quantities (rewards, table values, learning rates) are
//! fixed-point integers: rates are expressed in thousandths, so `alpha = 200`
//! means a learning rate of one fifth.

pub mod actions;
pub mod agent;
pub mod behaviour;
pub mod encoder;
pub mod humans;
pub mod policy;
pub mod rng;
pub mod sim;
pub mod types;
pub mod world;
