//! Heap-dump model: decoded records are turned into entity tables and a
//! reference graph, on which class-hierarchy classification and leak
//! detection are answered.

pub mod builder;
pub mod classify;
pub mod laws;
pub mod leaks;
pub mod model;
pub mod tables;

pub mod graph;
pub mod multimap_index;
pub mod verdict_cache;
