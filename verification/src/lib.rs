//! A verified session store: it creates, binds, refreshes and revokes
//! user/device sessions, keeping one authoritative record per session across
//! a system-of-record store and a fast-path cache.

pub mod data;
pub mod domain;
pub mod models;
