//! The core data model: entities, assertions, relations, evidence and the
//! report types the commands produce.

pub mod time;
pub mod ids;
pub mod assertion;
pub mod metrics;
pub mod entity;
pub mod relations;
pub mod changelog;
pub mod evidence;
pub mod grounds;
pub mod display;
pub mod report;
