//! Extraction of definitions, imports and calls from syntax trees.

pub mod calls;
pub mod go;
pub mod python;
pub mod rust;
pub mod c;
pub mod javascript;
pub mod java;
