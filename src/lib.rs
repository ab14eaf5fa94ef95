//! Presentation of dependency-audit reports: a verified renderer of inverse
//! dependency trees and of the human-readable report around them.

pub mod graph;
pub mod laws;
pub mod presenter;
pub mod release;
pub mod text;
pub mod tree;
