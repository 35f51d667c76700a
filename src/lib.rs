//! Comparison of benchmark measurements taken with two engines.
//!
//! Measurements are split into groups that differ only by engine, each group
//! must hold exactly two engines, and the samples of the two engines are
//! handed on for a two-sample test. The report helpers order the results of
//! those tests and build the text around their numbers.

use vstd::prelude::*;

pub mod compare;
pub mod data;
pub mod keys;
pub mod order;
pub mod rank;
pub mod report;

pub use compare::{compare, Comparison, GroupCardinalityError};
pub use data::{Measurement, Phase, PhaseError, Summary};
pub use keys::{all_groups, GroupKey};
pub use rank::{rank_order, Rank};
pub use report::{
    delta_line, engine_label, entry_heading, find_summary, no_difference_line, shared_prefix_end,
    speedup_line, summary_line, trim_shared_prefix, MissingSummary,
};
