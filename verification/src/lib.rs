//! Decides which tags a freshly built container image gets and coordinates
//! publishing the image's manifest under them.
//!
//! `config` holds the build identity and the rules by which it is read,
//! `business` resolves an identity to its list of tags, and `aws` holds the
//! decisions of the publish protocol as a state machine that a driver feeds
//! with the registry's answers, which `registry` gives as plain values.
//! `model` states what the protocol achieves, step by step and against a
//! registry as a whole. `text` holds what the others need to build strings.

pub mod aws;
pub mod business;
pub mod config;
pub mod model;
pub mod registry;
pub mod text;
