//! Core of a gossip node: the command grammar, the dispatcher that turns each
//! command line into one effect, the local cache, the membership view that
//! discovery events maintain, and a unique-identifier source.

pub mod command;
pub mod cache;
pub mod ids;
pub mod membership;
pub mod dispatch;
