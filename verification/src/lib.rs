//! Sums of unsigned integers, rendered as decimal text.
//!
//! The one operation of interest is [`adder::sum_as_string`]: add two
//! `usize` values and return the base-10 text of the sum, or report an
//! arithmetic overflow when the sum does not fit in `usize`. The decimal
//! rendering itself lives in [`decimal`], together with the spec-level
//! definitions of what a decimal digit string is and what number it denotes.

pub mod adder;
pub mod decimal;
