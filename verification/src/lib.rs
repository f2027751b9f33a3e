//! A ledger of shared expenses: who owes whom.
//!
//! Users form groups, log what they paid for, and split each amount among the
//! members of a group. From the activities of a group the library works out
//! the dues, keeps the total that the group has spent, and hands the group to
//! the next member when its admin leaves.
//!
//! All amounts are exact decimals ([`money`]). The rows that the requests
//! work on are held in a [`ledger::Ledger`]; each request in [`controllers`]
//! either goes through and changes the ledger as a whole, or fails and leaves
//! it as it was. What holds from one request to the next is proved in
//! [`laws`], [`dues`], [`totals`], [`membership`] and [`split`].

pub mod clock;
pub mod config;
pub mod controllers;
pub mod custom_errors;
pub mod dues;
pub mod entities;
pub mod ids;
pub mod laws;
pub mod ledger;
pub mod membership;
pub mod models;
pub mod money;
pub mod request_verifier;
pub mod split;
pub mod text;
pub mod totals;
pub mod utils;
