//! Verified core of a recipe-to-container-image provisioning pipeline.
//!
//! A *recipe* is a named directory under a workspace root, uploaded as a
//! gzip-compressed tar archive, holding a manifest plus arbitrary payload
//! files.  The library parses manifests, screens archive entry paths against
//! directory traversal, decides how a recipe's image source is provisioned,
//! and models the label-based association between recipes and images in the
//! container engine's store.  All filesystem, network and engine I/O lives
//! outside this crate; callers hand in plain values (directory listings,
//! stream chunks, label sets) and receive verified decisions back.

pub mod auth;
pub mod config;
pub mod errors;
pub mod image;
pub mod lifecycle;
pub mod manifest;
pub mod paths;
pub mod provision;
pub mod store;
