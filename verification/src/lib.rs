//! Verified core of a multi-tenant file storage service.

pub mod access;
pub mod admin;
pub mod catalog;
pub mod chunk;
pub mod config;
pub mod errors;
pub mod ident;
pub mod listing;
pub mod models;
pub mod path;
pub mod query;
pub mod resp;
pub mod retrieval;
pub mod session;
pub mod shard;
pub mod sql;
pub mod text;
pub mod tree;
pub mod upload;
