//! A cognitive model for coding agents: qualified-name handling, the domain
//! data model (entities, assertions, relations), source-tree scanning and the
//! decision logic of the model-maintenance commands.

pub mod text;
pub mod naming;
pub mod order;
pub mod domain;
pub mod analysis;
pub mod command;
pub mod cli;
pub mod backup;
