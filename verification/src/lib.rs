//! Parsing, validation and aggregation for structured "goal documents":
//! write-ups that carry a metadata table (point of contact, acceptance
//! status, tracking issue) and a plan of tasks owned by individuals or
//! asked of teams.

pub mod errors;
pub mod model;
pub mod issue;
pub mod registry;
pub mod idents;
pub mod plan;
pub mod metadata;
pub mod document;
pub mod linker;
pub mod table_fmt;
pub mod text;
pub mod order;
pub mod status;
