//! Source-code scanning: syntax trees, per-language extraction of
//! definitions, imports and calls, and the assembly of scan reports.

pub mod languages;
pub mod syntax;
pub mod extractors;
pub mod scan;
