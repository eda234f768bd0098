//! Latency comparison between two closures, with the decisions it rests on proved.

pub mod stats_types;
pub mod histogram;
pub mod latency;
pub mod diff_state;
pub mod text;
pub mod fn_spec;
pub mod claim;
pub mod bench_support;
pub mod nested_btree_map;
pub mod wilcoxon;
