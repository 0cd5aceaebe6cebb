//! The fatty acid class: a record whose carbons and degrees of unsaturation
//! are each known as an inclusive range only.

pub use crate::fatty_acid::Isomerism;
pub use crate::fatty_acid::Unsaturated;
pub use crate::fatty_acid::Unsaturation;
use crate::fatty_acid::bounds_of;
use std::ops::RangeInclusive;
use vstd::prelude::*;

verus! {

/// `RangeInclusive::start` of std: the lower bound that the range was made
/// with.
pub assume_specification<Idx>[ RangeInclusive::<Idx>::start ](range: &RangeInclusive<Idx>) -> (start:
    &Idx)
    ensures
        *start == range@.start,
;

/// `RangeInclusive::end` of std: the upper bound that the range was made
/// with.
pub assume_specification<Idx>[ RangeInclusive::<Idx>::end ](range: &RangeInclusive<Idx>) -> (end:
    &Idx)
    ensures
        *end == range@.end,
;

/// A class of fatty acids: the carbons and the degrees of unsaturation, each
/// as an inclusive range, or unknown.
#[derive(Debug)]
pub struct FattyAcid {
    pub carbons: Option<RangeInclusive<u8>>,
    pub unsaturated: Option<RangeInclusive<u8>>,
}

impl FattyAcid {
    /// The saturated fatty acids whose carbons lie in `carbons`: no degree of
    /// unsaturation.
    pub fn saturated(carbons: RangeInclusive<u8>) -> (r: Self)
        requires
            carbons@.start >= 1,
            carbons@.end >= 1,
        ensures
            r.carbons == Some(carbons),
            r.unsaturated matches Some(u) && u@.start == 0 && u@.end == 0 && !u@.exhausted,
    {
        FattyAcid { carbons: Some(carbons), unsaturated: Some(RangeInclusive::new(0, 0)) }
    }
}

/// The classes of the saturated fatty acids of even chain length from two to
/// thirty-two carbons, each class one chain length, shortest first.
pub fn saturated_classes() -> (table: Vec<FattyAcid>)
    ensures
        table@.len() == 16,
        forall|k: int|
            0 <= k < 16 ==> ((#[trigger] table@[k]).carbons matches Some(c) && c@.start == 2 * (k + 1)
                && c@.end == 2 * (k + 1) && !c@.exhausted) && (table@[k].unsaturated matches Some(u)
                && u@.start == 0 && u@.end == 0 && !u@.exhausted),
{
    let mut table: Vec<FattyAcid> = Vec::new();
    let mut carbons: u8 = 2;
    while carbons <= 32
        invariant
            2 <= carbons <= 34,
            carbons % 2 == 0,
            table@.len() == carbons / 2 - 1,
            forall|k: int|
                0 <= k < table@.len() ==> ((#[trigger] table@[k]).carbons matches Some(c) && c@.start
                    == 2 * (k + 1) && c@.end == 2 * (k + 1) && !c@.exhausted) && (
                table@[k].unsaturated matches Some(u) && u@.start == 0 && u@.end == 0
                    && !u@.exhausted),
        decreases 34 - carbons,
    {
        table.push(FattyAcid::saturated(RangeInclusive::new(carbons, carbons)));
        carbons += 2;
    }
    table
}

/// `H = 2C - 2U` for one end of a class.
pub open spec fn hydrogens_at(carbons: u8, unsaturation: u8) -> int {
    2 * carbons - 2 * unsaturation
}

/// The derived quantities of a class, each as the range between its value at
/// the lower ends and its value at the upper ends.
pub trait FattyAcidExt {
    /// Carbon-carbon bonds.
    fn b(&self) -> Option<RangeInclusive<u8>>;

    /// Hydrogens, `H = 2C - 2U`.
    fn h(&self) -> Option<RangeInclusive<i16>>;

    /// Carbons.
    fn c(&self) -> Option<&RangeInclusive<u8>>;

    /// Degrees of unsaturation.
    fn u(&self) -> Option<&RangeInclusive<u8>>;
}

impl FattyAcidExt for FattyAcid {
    fn b(&self) -> (r: Option<RangeInclusive<u8>>)
        ensures
            match self.carbons {
                None => r is None,
                Some(c) => r matches Some(b) && b@.start == bounds_of(c@.start) && b@.end
                    == bounds_of(c@.end) && !b@.exhausted,
            },
    {
        match &self.carbons {
            None => None,
            Some(c) => {
                let start: u8 = *c.start();
                let end: u8 = *c.end();
                Some(RangeInclusive::new(start.saturating_sub(1), end.saturating_sub(1)))
            },
        }
    }

    fn h(&self) -> (r: Option<RangeInclusive<i16>>)
        ensures
            match (self.carbons, self.unsaturated) {
                (Some(c), Some(u)) => r matches Some(h) && h@.start == hydrogens_at(
                    c@.start,
                    u@.start,
                ) && h@.end == hydrogens_at(c@.end, u@.end) && !h@.exhausted,
                _ => r is None,
            },
    {
        match (&self.carbons, &self.unsaturated) {
            (Some(c), Some(u)) => {
                let low: i16 = 2 * (*c.start() as i16) - 2 * (*u.start() as i16);
                let high: i16 = 2 * (*c.end() as i16) - 2 * (*u.end() as i16);
                Some(RangeInclusive::new(low, high))
            },
            _ => None,
        }
    }

    fn c(&self) -> (r: Option<&RangeInclusive<u8>>)
        ensures
            match self.carbons {
                None => r is None,
                Some(c) => r == Some(&c),
            },
    {
        self.carbons.as_ref()
    }

    fn u(&self) -> (r: Option<&RangeInclusive<u8>>)
        ensures
            match self.unsaturated {
                None => r is None,
                Some(u) => r == Some(&u),
            },
    {
        self.unsaturated.as_ref()
    }
}

} // verus!
