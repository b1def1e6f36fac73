//! The decision at the heart of the intersection protocol.
//!
//! A sphere's quadratic yields two candidate parametric distances,
//! smaller first; the protocol accepts the nearest one inside the tested
//! interval. The distances are floating point and are computed outside
//! the library, but the acceptance decision is pure comparison and is
//! verified here. Both boundary tests include the interval's lower end —
//! a deliberate trait of this tracer's interval rule, kept because
//! changing it changes rendered output.

use crate::f64bits::{f64_is_nan, f64_le, f64_val_eq, f64_val_lt};
use vstd::prelude::*;

verus! {

/// Which of the two candidate roots the intersection accepts.
#[derive(Clone, Copy, PartialEq, Eq, Structural, Debug)]
pub enum RootChoice {
    First,
    Second,
    Neither,
}

/// `t` lies in the closed interval from `t_min` to `t_max`: all three
/// NaN-free, and `t` neither below the lower end nor above the upper.
/// Both ends belong to the interval.
pub open spec fn in_interval(t_min: u64, t_max: u64, t: u64) -> bool {
    &&& !f64_is_nan(t_min)
    &&& !f64_is_nan(t_max)
    &&& !f64_is_nan(t)
    &&& (f64_val_lt(t_min, t) || f64_val_eq(t_min, t))
    &&& (f64_val_lt(t, t_max) || f64_val_eq(t, t_max))
}

/// Test a parametric distance against the closed interval. All values
/// are binary64 bit patterns.
pub fn contains(t_min: u64, t_max: u64, t: u64) -> (r: bool)
    ensures
        r == in_interval(t_min, t_max, t),
{
    f64_le(t_min, t) && f64_le(t, t_max)
}

/// Choose the nearest acceptable root: the smaller root whenever the
/// interval holds it, else the larger root whenever the interval holds
/// that, else neither.
pub fn select_root(t_min: u64, t_max: u64, root1: u64, root2: u64) -> (c: RootChoice)
    ensures
        (c == RootChoice::First) <==> in_interval(t_min, t_max, root1),
        (c == RootChoice::Second) <==> (!in_interval(t_min, t_max, root1) && in_interval(
            t_min,
            t_max,
            root2,
        )),
        (c == RootChoice::Neither) <==> (!in_interval(t_min, t_max, root1) && !in_interval(
            t_min,
            t_max,
            root2,
        )),
{
    if contains(t_min, t_max, root1) {
        RootChoice::First
    } else if contains(t_min, t_max, root2) {
        RootChoice::Second
    } else {
        RootChoice::Neither
    }
}

} // verus!
