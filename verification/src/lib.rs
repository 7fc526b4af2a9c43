//! A small user-management library: domain validation, an abstract storage
//! port, an in-memory storage adapter, an application service that
//! orchestrates the two, and the mapping from application errors to
//! wire-level status codes and payloads.

pub mod config;
pub mod domain;
pub mod dto;
pub mod laws;
pub mod memory;
pub mod port;
pub mod services;
pub mod transport;
