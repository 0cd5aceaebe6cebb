//! The single fatty acids that the indices name.

use crate::expr::selected;
use crate::expr::Class;
use crate::expr::FattyAcidExpr;
use vstd::prelude::*;

verus! {

/// The class of the fatty acids of the given carbons and the given `U`.
pub open spec fn acid(carbons: u8, unsaturation: u8) -> Class {
    Class::Acid { carbons, unsaturation }
}

/// The amounts of the rows that hold one named fatty acid: the rows whose
/// carbons and whose `U` are both the named ones.
pub trait Find {
    /// C12:0, lauric acid.
    fn c12u0(&self, expr: &Vec<Option<u32>>) -> Vec<u32>;

    /// C14:0, myristic acid.
    fn c14u0(&self, expr: &Vec<Option<u32>>) -> Vec<u32>;

    /// C16:0, palmitic acid.
    fn c16u0(&self, expr: &Vec<Option<u32>>) -> Vec<u32>;

    /// C18:0, stearic acid.
    fn c18u0(&self, expr: &Vec<Option<u32>>) -> Vec<u32>;

    /// C18:1.
    fn c18u1(&self, expr: &Vec<Option<u32>>) -> Vec<u32>;

    /// C18:2 (n-6).
    fn c18u2z9z12(&self, expr: &Vec<Option<u32>>) -> Vec<u32>;

    /// C18:3 (n-3).
    fn c18u3z9z12z15(&self, expr: &Vec<Option<u32>>) -> Vec<u32>;

    /// C20:5 (n-3).
    fn c20u5z5z8z11z14z17(&self, expr: &Vec<Option<u32>>) -> Vec<u32>;

    /// C22:6 (n-3).
    fn c22u6z4z7z10z13z16z19(&self, expr: &Vec<Option<u32>>) -> Vec<u32>;
}

impl Find for FattyAcidExpr {
    fn c12u0(&self, expr: &Vec<Option<u32>>) -> (amounts: Vec<u32>)
        ensures
            amounts@ == selected(self@, expr@, acid(12, 0)),
    {
        self.select(expr, Class::Acid { carbons: 12, unsaturation: 0 })
    }

    fn c14u0(&self, expr: &Vec<Option<u32>>) -> (amounts: Vec<u32>)
        ensures
            amounts@ == selected(self@, expr@, acid(14, 0)),
    {
        self.select(expr, Class::Acid { carbons: 14, unsaturation: 0 })
    }

    fn c16u0(&self, expr: &Vec<Option<u32>>) -> (amounts: Vec<u32>)
        ensures
            amounts@ == selected(self@, expr@, acid(16, 0)),
    {
        self.select(expr, Class::Acid { carbons: 16, unsaturation: 0 })
    }

    fn c18u0(&self, expr: &Vec<Option<u32>>) -> (amounts: Vec<u32>)
        ensures
            amounts@ == selected(self@, expr@, acid(18, 0)),
    {
        self.select(expr, Class::Acid { carbons: 18, unsaturation: 0 })
    }

    fn c18u1(&self, expr: &Vec<Option<u32>>) -> (amounts: Vec<u32>)
        ensures
            amounts@ == selected(self@, expr@, acid(18, 1)),
    {
        self.select(expr, Class::Acid { carbons: 18, unsaturation: 1 })
    }

    fn c18u2z9z12(&self, expr: &Vec<Option<u32>>) -> (amounts: Vec<u32>)
        ensures
            amounts@ == selected(self@, expr@, acid(18, 2)),
    {
        self.select(expr, Class::Acid { carbons: 18, unsaturation: 2 })
    }

    fn c18u3z9z12z15(&self, expr: &Vec<Option<u32>>) -> (amounts: Vec<u32>)
        ensures
            amounts@ == selected(self@, expr@, acid(18, 3)),
    {
        self.select(expr, Class::Acid { carbons: 18, unsaturation: 3 })
    }

    fn c20u5z5z8z11z14z17(&self, expr: &Vec<Option<u32>>) -> (amounts: Vec<u32>)
        ensures
            amounts@ == selected(self@, expr@, acid(20, 5)),
    {
        self.select(expr, Class::Acid { carbons: 20, unsaturation: 5 })
    }

    fn c22u6z4z7z10z13z16z19(&self, expr: &Vec<Option<u32>>) -> (amounts: Vec<u32>)
        ensures
            amounts@ == selected(self@, expr@, acid(22, 6)),
    {
        self.select(expr, Class::Acid { carbons: 22, unsaturation: 6 })
    }
}

/// [`Find`] by trivial name.
pub trait FindByName {
    /// Linoleic acid (LA), C18:2.
    fn linoleic(&self, expr: &Vec<Option<u32>>) -> Vec<u32>;

    /// α-Linolenic acid (ALA), C18:3.
    fn alpha_linolenic(&self, expr: &Vec<Option<u32>>) -> Vec<u32>;

    /// Eicosapentaenoic acid (EPA), C20:5.
    fn eicosapentaenoic(&self, expr: &Vec<Option<u32>>) -> Vec<u32>;

    /// Docosahexaenoic acid (DHA), C22:6.
    fn docosahexaenoic(&self, expr: &Vec<Option<u32>>) -> Vec<u32>;
}

impl FindByName for FattyAcidExpr {
    fn linoleic(&self, expr: &Vec<Option<u32>>) -> (amounts: Vec<u32>)
        ensures
            amounts@ == selected(self@, expr@, acid(18, 2)),
    {
        self.select(expr, Class::Acid { carbons: 18, unsaturation: 2 })
    }

    fn alpha_linolenic(&self, expr: &Vec<Option<u32>>) -> (amounts: Vec<u32>)
        ensures
            amounts@ == selected(self@, expr@, acid(18, 3)),
    {
        self.select(expr, Class::Acid { carbons: 18, unsaturation: 3 })
    }

    fn eicosapentaenoic(&self, expr: &Vec<Option<u32>>) -> (amounts: Vec<u32>)
        ensures
            amounts@ == selected(self@, expr@, acid(20, 5)),
    {
        self.select(expr, Class::Acid { carbons: 20, unsaturation: 5 })
    }

    fn docosahexaenoic(&self, expr: &Vec<Option<u32>>) -> (amounts: Vec<u32>)
        ensures
            amounts@ == selected(self@, expr@, acid(22, 6)),
    {
        self.select(expr, Class::Acid { carbons: 22, unsaturation: 6 })
    }
}

} // verus!
