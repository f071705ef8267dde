//! Profiling engine for collections of semi-structured (JSON-like) records.
//!
//! The engine answers four questions about an in-memory record collection:
//! which fields exist and how often they are populated (schema inference),
//! which records are structurally anomalous (quality scanning), which
//! distinct values a chosen field takes and how often (faceting), and what
//! textual shape those values have (pattern classification). Every pass is a
//! pure function over the supplied records; none of them mutates its input.

pub mod facets;
pub mod patterns;
pub mod quality;
pub mod text;
pub mod value;
