//! A read-only, in-process mirror of an externally owned data set.
//!
//! A [`cache::MirrorCache`] fetches raw data from a source, turns it into a map or a
//! set, and publishes each new generation into a shared snapshot cell. Readers hold
//! cheap handles ([`collections::UpdatingMap`], [`collections::UpdatingSet`]) that
//! always query one whole generation.

pub mod error;
pub mod lines;
pub mod processors;
pub mod holder;
pub mod collections;
pub mod sources;
pub mod metrics;
pub mod callbacks;
pub mod clock;
pub mod cache;
