use vstd::prelude::*;

verus! {

/// An exact ratio of two 128-bit integers, `num / den`.
///
/// Derived quantities of the portfolio (shares of the total, monthly
/// averages, carbon tonnage) are quotients of measured values. They are kept
/// as exact ratios so that every contract can speak about them without loss;
/// rendering a ratio as a decimal string is left to unverified callers.
#[derive(Clone, Copy, PartialEq, Eq, Structural, Debug)]
pub struct Rat {
    pub num: i128,
    pub den: i128,
}

} // verus!
