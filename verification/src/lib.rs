//! A verified schema-translation and dispatch engine: it turns an OpenAPI 3.0
//! document into a canonical list of named, typed operations, projects each
//! operation into a tool descriptor, and routes tool invocations back into
//! concrete HTTP request plans while enforcing a read-only access policy.
//!
//! The modules, in dependency order: [`text`] holds verified character-level
//! utilities, [`json`] the library's own JSON tree and the trusted boundary to
//! `serde_json`, [`types`] the canonical operation types, [`swagger`] the
//! document model with its decoder and the extraction engine, [`service`] the
//! facade with tool projection and dispatch, and [`laws`] the library-wide
//! properties proved once and for all.

pub mod json;
pub mod laws;
pub mod service;
pub mod swagger;
pub mod text;
pub mod types;
