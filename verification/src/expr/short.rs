//! The quantities of a column under their short names.

use crate::expr::column_of;
use crate::expr::FattyAcidExpr;
use crate::fatty_acid::bounds_of;
use crate::fatty_acid::hydrogens_of;
use crate::fatty_acid::unsaturation_of;
use crate::fatty_acid::Unsaturated;
use vstd::prelude::*;

verus! {

/// The quantities of each row under their short names.
pub trait FattyAcidExt {
    /// See [`FattyAcidExpr::bounds`].
    fn b(&self) -> Vec<Option<u8>>;

    /// See [`FattyAcidExpr::carbons`].
    fn c(&self) -> Vec<Option<u8>>;

    /// See [`FattyAcidExpr::hydrogens`].
    fn h(&self) -> Vec<Option<i128>>;

    /// See [`FattyAcidExpr::saturated`].
    fn s(&self) -> Vec<Option<bool>>;

    /// See [`FattyAcidExpr::unsaturation`].
    fn u(&self) -> Vec<Option<u128>>;
}

impl FattyAcidExt for FattyAcidExpr {
    fn b(&self) -> (column: Vec<Option<u8>>)
        ensures
            column_of(self@, column@, |carbons: u8, bonds: Seq<Unsaturated>, v: u8| v == bounds_of(carbons)),
    {
        self.bounds()
    }

    fn c(&self) -> (column: Vec<Option<u8>>)
        ensures
            column_of(self@, column@, |carbons: u8, bonds: Seq<Unsaturated>, v: u8| v == carbons),
    {
        self.carbons()
    }

    fn h(&self) -> (column: Vec<Option<i128>>)
        ensures
            column_of(self@, column@, |carbons: u8, bonds: Seq<Unsaturated>, v: i128| v == hydrogens_of(carbons, unsaturation_of(bonds))),
    {
        self.hydrogens()
    }

    fn s(&self) -> (column: Vec<Option<bool>>)
        ensures
            column_of(self@, column@, |carbons: u8, bonds: Seq<Unsaturated>, v: bool| v == (unsaturation_of(bonds) == 0)),
    {
        self.saturated()
    }

    fn u(&self) -> (column: Vec<Option<u128>>)
        ensures
            column_of(self@, column@, |carbons: u8, bonds: Seq<Unsaturated>, v: u128| v == unsaturation_of(bonds)),
    {
        self.unsaturation()
    }
}

} // verus!
