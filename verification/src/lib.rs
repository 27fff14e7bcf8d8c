//! Structured parsing and matching of botanical scientific names.
//!
//! The crate turns free-form taxonomic name strings from two
//! independently-formatted data sources into structured, comparable keys:
//!
//! * [`plant::parse_name`] parses a long-form name with author citations
//!   into a [`plant::PlantName`];
//! * [`species::SpeciesName::new`] normalizes a short canonical name into a
//!   [`species::SpeciesName`] comparison key;
//! * [`matcher`] builds per-source indexes of those keys and joins records
//!   across the two sources;
//! * [`vascan`] holds the pure helpers used when querying a remote
//!   taxonomy service.

pub mod grammar;
pub mod matcher;
pub mod plant;
pub mod species;
pub mod util;
pub mod vascan;
