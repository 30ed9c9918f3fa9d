//! Host-side capability logic of a WebAssembly application runtime:
//! configuration parsing, routing tables, resource tables and key handling,
//! each with its contract.

pub mod text;
pub mod naming;
pub mod gpio;
pub mod http;
pub mod http_api;
pub mod resource;
pub mod events;
pub mod common;
pub mod kv;
pub mod keyvalue;
pub mod parsers;
pub mod blob_store;
pub mod kv_fs;
pub mod kv_dispatcher;
pub mod kv_filesystem;
pub mod configs;
pub mod locking;
