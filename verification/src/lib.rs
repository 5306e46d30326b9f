//! Verified core logic of the HexFish web game server: protocol types,
//! search budgets, authentication, usernames, replay bookkeeping,
//! multiplayer rooms (in memory and in Redis), their clocks and chat, the
//! Redis wire format, server settings and the administrative replay page.

pub mod text;
pub mod numtext;
pub mod clock;
pub mod room;
pub mod protocol;
pub mod budget;
pub mod identity;
pub mod rng;
pub mod replay;
pub mod chat;
pub mod page;
pub mod config;
pub mod cpu;
pub mod redis;
pub mod auth;
pub mod socket;
pub mod usernames;
pub mod order;
pub mod memroom;
pub mod roomstore;
pub mod history;
pub mod session;
