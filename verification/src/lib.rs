//! Verified core of JAS, a self-hosted iOS sideloading server: configuration
//! defaults and secret-key derivation, the scoped key/value cache behind the
//! sideloading storage, mDNS device matching, and the decisions that the web
//! pages make about what to show.

pub mod config;
pub mod storage;
pub mod discovery;
pub mod text;
pub mod jobs;
pub mod login;
pub mod pages;
