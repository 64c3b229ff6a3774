//! Serving engine of the Ajar gateway, a reverse proxy in front of an existing
//! site.
//!
//! The engine decides: which configuration is sound, which header fields cross
//! the proxy, which requests go to the origin and which are refused, how a
//! refusal is answered, what is counted, and in which order listeners start.
//! Sockets, timers, files and the encoding of bodies belong to the program
//! around it, which carries out what the engine decides.
//!
//! The extension interfaces of the gateway (collectors, key stores, signature
//! providers, storage backends) stand beside it, each with the contract that
//! its implementations keep.

pub mod admin;
pub mod cli;
pub mod config;
pub mod error;
pub mod extractor;
pub mod harvester;
pub mod headers;
pub mod inducer;
pub mod metrics;
pub mod policy_engine;
pub mod proxy;
pub mod serve;
pub mod signer;
pub mod store;
pub mod text;
pub mod uri;
