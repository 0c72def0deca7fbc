//! Verified core of the trading bot's infrastructure layer: the message-bus
//! bookkeeping, the supervisor's health tracking, the risk halt list, the
//! market-provider selection and the small policies that the actors,
//! the collector and the cache apply.

pub mod text;
pub mod assoc;
pub mod seqs;
pub mod strset;
pub mod clock;
pub mod bus;
pub mod supervisor;
pub mod risk;
pub mod strategy;
pub mod market;
pub mod events;
pub mod execution;
pub mod collector;
pub mod cache;
pub mod database;
pub mod wallet;
