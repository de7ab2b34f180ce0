//! Collective-savings accounting engine: pooled deposits with proportional yield,
//! goal-based savings challenges with streaks and milestones, reward issuance and
//! the token and vault ledgers that settle them.
//!
//! Every operation works on an explicit state value and an explicit clock reading,
//! and either applies all of its changes or none of them.
//!
//! The engine works on plain values: accounts, texts and records are ordinary
//! values, and the lists of records are ordinary vectors, which a contract
//! converts from and to the objects of its host. Two things are the host's
//! own: the digest that names a group challenge, and the list of challenge
//! numbers that is kept for a user.

pub mod account;
pub mod arith;
pub mod challenge;
pub mod cross_border;
pub mod digest;
pub mod group_challenge;
pub mod host_list;
pub mod milestones;
pub mod reward_token;
pub mod rewards;
pub mod save_coin;
pub mod savings_contract;
pub mod table;
pub mod text;
pub mod timelock_vault;
pub mod token;
pub mod yield_pool;
