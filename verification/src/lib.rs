//! Mirrors a capture-the-flag event's challenge catalog into a local
//! workspace: the data model, the merge of a fetched snapshot into the
//! catalog, the platform adapters' page and listing rules, and the decisions
//! of the checkout pipeline.

pub mod text;
pub mod model;
pub mod reconcile;
pub mod absorb;
pub mod reconcile_laws;
pub mod category;
pub mod pattern;
pub mod address;
pub mod commands;
pub mod ctf;
pub mod digest;
pub mod distro;
pub mod engines;
pub mod extract;
pub mod http;
pub mod option;
pub mod path;
pub mod resolve;
