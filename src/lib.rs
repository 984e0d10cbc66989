//! Peer-to-peer file transfer: the verified core of naming, addressing,
//! progress tracking and nearby-device bookkeeping.

pub mod client;
pub mod collection;
pub mod error;
pub mod export;
pub mod fmt;
pub mod fuzzy;
pub mod import;
pub mod nearby;
pub mod order;
pub mod paths;
pub mod progress;
pub mod provider;
pub mod receive;
pub mod session;
pub mod text;
pub mod ticket;
pub mod tui;
pub mod workdir;
