//! Quantities and classes of a whole column of fatty acids, beside a
//! parallel column of amounts.

use crate::fatty_acid::bounds_of;
use crate::fatty_acid::ecn_of;
use crate::fatty_acid::hydrogens_of;
use crate::fatty_acid::unsaturation_of;
use crate::fatty_acid::FattyAcid;
use crate::fatty_acid::Unsaturated;
use crate::series::materialized;
use crate::series::FattyAcidSeries;
use crate::series::Row;
use vstd::prelude::*;

pub mod filter;
pub mod find;
pub mod short;

verus! {

/// A class of fatty acids.
#[derive(Clone, Copy, Debug, PartialEq, Eq, Structural)]
pub enum Class {
    /// `U` is the given number.
    Degree(u8),
    /// `U` is not zero.
    Unsaturated,
    /// `U` is greater than one.
    Polyunsaturated,
    /// The acids of the given carbons and the given `U`.
    Acid { carbons: u8, unsaturation: u8 },
    /// The polyunsaturated acids whose last bond lies the given number of
    /// carbons before the end of the chain, as in n-3 and n-6.
    Omega(u8),
}

/// Whether every bond has a known position, none of them nearer than `n`
/// carbons to the end of the chain and one of them `n` carbons before it.
pub open spec fn omega(carbons: u8, bonds: Seq<Unsaturated>, n: u8) -> bool {
    &&& forall|k: int|
        0 <= k < bonds.len() ==> ((#[trigger] bonds[k]).index matches Some(i) && i + n <= carbons)
    &&& exists|k: int|
        0 <= k < bonds.len() && ((#[trigger] bonds[k]).index matches Some(i) && i + n == carbons)
}

/// Whether a fatty acid belongs to a class.
pub open spec fn in_class(class: Class, carbons: u8, bonds: Seq<Unsaturated>) -> bool {
    let u = unsaturation_of(bonds);
    match class {
        Class::Degree(degree) => u == degree,
        Class::Unsaturated => u != 0,
        Class::Polyunsaturated => u > 1,
        Class::Acid { carbons: c, unsaturation } => carbons == c && u == unsaturation,
        Class::Omega(n) => u > 1 && omega(carbons, bonds, n),
    }
}

/// Number of rows that both columns have.
pub open spec fn rows(records: Seq<Option<(u8, Seq<Unsaturated>)>>, amounts: Seq<Option<u32>>) -> nat {
    if records.len() <= amounts.len() {
        records.len()
    } else {
        amounts.len()
    }
}

/// The amount that row `k` adds to a class: its amount where the row has a
/// record of the class and an amount, else nothing.
pub open spec fn row_amount(
    records: Seq<Option<(u8, Seq<Unsaturated>)>>,
    amounts: Seq<Option<u32>>,
    class: Class,
    k: int,
) -> Option<u32> {
    match records[k] {
        Some((carbons, bonds)) => if in_class(class, carbons, bonds) {
            amounts[k]
        } else {
            None
        },
        None => None,
    }
}

/// The amounts of the first `n` rows that belong to a class, in row order.
pub open spec fn selected_upto(
    records: Seq<Option<(u8, Seq<Unsaturated>)>>,
    amounts: Seq<Option<u32>>,
    class: Class,
    n: nat,
) -> Seq<u32>
    decreases n,
{
    if n == 0 {
        Seq::empty()
    } else {
        let before = selected_upto(records, amounts, class, (n - 1) as nat);
        match row_amount(records, amounts, class, n - 1) {
            Some(amount) => before.push(amount),
            None => before,
        }
    }
}

/// The amounts of the rows that belong to a class, in row order. A row
/// without a record or without an amount is left out.
pub open spec fn selected(
    records: Seq<Option<(u8, Seq<Unsaturated>)>>,
    amounts: Seq<Option<u32>>,
    class: Class,
) -> Seq<u32> {
    selected_upto(records, amounts, class, rows(records, amounts))
}

/// Sum of a list of amounts.
pub open spec fn sum(values: Seq<u32>) -> nat
    decreases values.len(),
{
    if values.len() == 0 {
        0
    } else {
        sum(values.drop_last()) + values.last() as nat
    }
}

/// Sum of the amounts of the rows that belong to a class.
pub open spec fn total(
    records: Seq<Option<(u8, Seq<Unsaturated>)>>,
    amounts: Seq<Option<u32>>,
    class: Class,
) -> nat {
    sum(selected(records, amounts, class))
}

/// The amounts of a column that are not null, in row order.
pub open spec fn present(amounts: Seq<Option<u32>>) -> Seq<u32>
    decreases amounts.len(),
{
    if amounts.len() == 0 {
        Seq::empty()
    } else {
        match amounts.last() {
            Some(amount) => present(amounts.drop_last()).push(amount),
            None => present(amounts.drop_last()),
        }
    }
}

/// Whether `column` holds for each row with a record a value that `holds` of
/// the carbons and the bonds of the record, and no value for a row without
/// a record.
pub open spec fn column_of<T>(
    records: Seq<Option<(u8, Seq<Unsaturated>)>>,
    column: Seq<Option<T>>,
    holds: spec_fn(u8, Seq<Unsaturated>, T) -> bool,
) -> bool {
    &&& column.len() == records.len()
    &&& forall|k: int|
        0 <= k < records.len() ==> match (records[k], #[trigger] column[k]) {
            (None, None) => true,
            (Some((carbons, bonds)), Some(v)) => holds(carbons, bonds, v),
            _ => false,
        }
}

/// The record that a row adds to a column of records: none where the row has
/// no carbons or is no fatty acid.
pub open spec fn record_of(row: Row) -> Option<(u8, Seq<Unsaturated>)> {
    match materialized(row) {
        Ok(Some(record)) => Some(record),
        _ => None,
    }
}

/// A column of fatty acid records. A row may hold no record.
#[derive(Debug)]
pub struct FattyAcidExpr {
    records: Vec<Option<FattyAcid>>,
}

impl View for FattyAcidExpr {
    type V = Seq<Option<(u8, Seq<Unsaturated>)>>;

    closed spec fn view(&self) -> Seq<Option<(u8, Seq<Unsaturated>)>> {
        Seq::new(
            self.records@.len(),
            |k: int|
                match self.records@[k] {
                    None => None,
                    Some(acid) => Some((acid.carbons, acid.unsaturated@)),
                },
        )
    }
}

impl Clone for FattyAcidExpr {
    fn clone(&self) -> (r: Self)
        ensures
            r@ == self@,
    {
        let mut records: Vec<Option<FattyAcid>> = Vec::new();
        let mut k: usize = 0;
        while k < self.records.len()
            invariant
                k <= self.records.len(),
                records@.len() == k,
                forall|j: int|
                    0 <= j < k ==> match (self.records@[j], #[trigger] records@[j]) {
                        (None, None) => true,
                        (Some(acid), Some(copy)) => copy.carbons == acid.carbons && copy.unsaturated@
                            == acid.unsaturated@,
                        _ => false,
                    },
            decreases self.records.len() - k,
        {
            let record = match &self.records[k] {
                None => None,
                Some(acid) => Some(acid.clone()),
            };
            records.push(record);
            k += 1;
        }
        let copy = FattyAcidExpr { records };
        assert(copy@ =~= self@);
        copy
    }
}

/// Turns a column into the column of its records.
pub trait ExprExt {
    fn fatty_acid(self) -> FattyAcidExpr;
}

impl<'a> ExprExt for &'a FattyAcidSeries {
    /// The records of the rows, each with its bonds in canonical order. A row
    /// without carbons, or one that is no fatty acid, holds no record.
    fn fatty_acid(self) -> (r: FattyAcidExpr)
        ensures
            r@.len() == self@.len(),
            forall|k: int| 0 <= k < self@.len() ==> #[trigger] r@[k] == record_of(self@[k]),
    {
        let mut records: Vec<Option<FattyAcid>> = Vec::new();
        let count = self.len();
        let mut k: usize = 0;
        while k < count
            invariant
                k <= count,
                count == self@.len(),
                records@.len() == k,
                forall|j: int|
                    0 <= j < k ==> record_of(self@[j]) == match #[trigger] records@[j] {
                        None => None,
                        Some(acid) => Some((acid.carbons, acid.unsaturated@)),
                    },
            decreases count - k,
        {
            let record = match self.get(k) {
                Ok(Some(acid)) => Some(acid),
                _ => None,
            };
            records.push(record);
            k += 1;
        }
        FattyAcidExpr { records }
    }
}

impl FattyAcidExpr {
    /// The column of the given records.
    pub fn new(records: Vec<Option<FattyAcid>>) -> (r: Self)
        ensures
            r@.len() == records@.len(),
            forall|k: int|
                0 <= k < records@.len() ==> #[trigger] r@[k] == match records@[k] {
                    None => None,
                    Some(acid) => Some((acid.carbons, acid.unsaturated@)),
                },
    {
        FattyAcidExpr { records }
    }

    /// Number of rows.
    pub fn len(&self) -> (len: usize)
        ensures
            len == self@.len(),
    {
        self.records.len()
    }

    /// Whether a fatty acid belongs to a class.
    pub fn belongs(class: Class, acid: &FattyAcid) -> (r: bool)
        ensures
            r == in_class(class, acid.carbons, acid.unsaturated@),
    {
        let u: u128 = acid.unsaturation_count();
        match class {
            Class::Degree(degree) => u == degree as u128,
            Class::Unsaturated => u != 0,
            Class::Polyunsaturated => u > 1,
            Class::Acid { carbons, unsaturation } => acid.carbons == carbons && u
                == unsaturation as u128,
            Class::Omega(n) => {
                let mut within = true;
                let mut found = false;
                let mut k: usize = 0;
                while k < acid.unsaturated.len()
                    invariant
                        k <= acid.unsaturated.len(),
                        within == forall|j: int|
                            0 <= j < k ==> ((#[trigger] acid.unsaturated@[j]).index matches Some(i) && i + n
                                <= acid.carbons),
                        found == exists|j: int|
                            0 <= j < k && ((#[trigger] acid.unsaturated@[j]).index matches Some(i) && i + n
                                == acid.carbons),
                    decreases acid.unsaturated.len() - k,
                {
                    match acid.unsaturated[k].index {
                        Some(i) => {
                            let end: u16 = i as u16 + n as u16;
                            if end > acid.carbons as u16 {
                                within = false;
                            }
                            if end == acid.carbons as u16 {
                                found = true;
                            }
                        },
                        None => {
                            within = false;
                        },
                    }
                    k += 1;
                }
                u > 1 && within && found
            },
        }
    }

    /// For each bond of the record at row `k`, whether it lies `n` carbons
    /// before the end of the chain.
    pub(crate) fn row_flags(&self, k: usize, carbons: u8, n: u8) -> (row: Vec<Option<bool>>)
        requires
            k < self@.len(),
            self@[k as int] matches Some((c, bonds)) && c == carbons,
        ensures
            row@.len() == self@[k as int]->Some_0.1.len(),
            forall|j: int|
                0 <= j < row@.len() ==> #[trigger] row@[j] == match self@[k as int]->Some_0.1[j].index {
                    Some(i) => Some(i + n == carbons),
                    None => None,
                },
    {
        let mut row: Vec<Option<bool>> = Vec::new();
        match &self.records[k] {
            Some(acid) => {
                let mut j: usize = 0;
                while j < acid.unsaturated.len()
                    invariant
                        j <= acid.unsaturated.len(),
                        row@.len() == j,
                        acid.carbons == carbons,
                        forall|b: int|
                            0 <= b < j ==> #[trigger] row@[b] == match acid.unsaturated@[b].index {
                                Some(i) => Some(i + n == carbons),
                                None => None,
                            },
                    decreases acid.unsaturated.len() - j,
                {
                    let flag = match acid.unsaturated[j].index {
                        Some(i) => Some(i as u16 + n as u16 == carbons as u16),
                        None => None,
                    };
                    row.push(flag);
                    j += 1;
                }
            },
            None => {},
        }
        row
    }

    /// The amounts of the rows that belong to a class, in row order. A row
    /// without a record or without an amount is left out, and so is a row
    /// that only one of the two columns has.
    pub fn select(&self, expr: &Vec<Option<u32>>, class: Class) -> (amounts: Vec<u32>)
        ensures
            amounts@ == selected(self@, expr@, class),
    {
        let count = if self.records.len() <= expr.len() {
            self.records.len()
        } else {
            expr.len()
        };
        let mut amounts: Vec<u32> = Vec::new();
        let mut k: usize = 0;
        while k < count
            invariant
                k <= count,
                count == rows(self@, expr@),
                amounts@ == selected_upto(self@, expr@, class, k as nat),
            decreases count - k,
        {
            match &self.records[k] {
                Some(acid) => {
                    if Self::belongs(class, acid) {
                        match expr[k] {
                            Some(amount) => {
                                amounts.push(amount);
                            },
                            None => {},
                        }
                    }
                },
                None => {},
            }
            k += 1;
        }
        amounts
    }

    /// Sum of the amounts of the rows that belong to a class.
    pub fn total(&self, expr: &Vec<Option<u32>>, class: Class) -> (t: u128)
        ensures
            t == total(self@, expr@, class),
            t <= usize::MAX * u32::MAX,
    {
        let amounts = self.select(expr, class);
        let count = amounts.len();
        proof {
            assert(count * u32::MAX <= usize::MAX * u32::MAX) by (nonlinear_arith)
                requires
                    count <= usize::MAX,
            ;
        }
        sum_of(&amounts)
    }

    /// Carbons of each row. A row without a record has no value.
    pub fn carbons(&self) -> (column: Vec<Option<u8>>)
        ensures
            column_of(self@, column@, |carbons: u8, bonds: Seq<Unsaturated>, v: u8| v == carbons),
    {
        let mut column: Vec<Option<u8>> = Vec::new();
        let mut k: usize = 0;
        while k < self.records.len()
            invariant
                k <= self.records.len(),
                column@.len() == k,
                forall|j: int|
                    0 <= j < k ==> match (self@[j], #[trigger] column@[j]) {
                        (None, None) => true,
                        (Some((carbons, bonds)), Some(v)) => v == carbons,
                        _ => false,
                    },
            decreases self.records.len() - k,
        {
            let value = match &self.records[k] {
                None => None,
                Some(acid) => Some(acid.carbons()),
            };
            column.push(value);
            k += 1;
        }
        column
    }

    /// Number of unsaturated bonds of each row. A row without a record has no value.
    pub fn unsaturated(&self) -> (column: Vec<Option<usize>>)
        ensures
            column_of(self@, column@, |carbons: u8, bonds: Seq<Unsaturated>, v: usize| v == bonds.len()),
    {
        let mut column: Vec<Option<usize>> = Vec::new();
        let mut k: usize = 0;
        while k < self.records.len()
            invariant
                k <= self.records.len(),
                column@.len() == k,
                forall|j: int|
                    0 <= j < k ==> match (self@[j], #[trigger] column@[j]) {
                        (None, None) => true,
                        (Some((carbons, bonds)), Some(v)) => v == bonds.len(),
                        _ => false,
                    },
            decreases self.records.len() - k,
        {
            let value = match &self.records[k] {
                None => None,
                Some(acid) => Some(acid.unsaturated.len()),
            };
            column.push(value);
            k += 1;
        }
        column
    }

    /// Degrees of unsaturation `U` of each row. A row without a record has no value.
    pub fn unsaturation(&self) -> (column: Vec<Option<u128>>)
        ensures
            column_of(self@, column@, |carbons: u8, bonds: Seq<Unsaturated>, v: u128| v == unsaturation_of(bonds)),
    {
        let mut column: Vec<Option<u128>> = Vec::new();
        let mut k: usize = 0;
        while k < self.records.len()
            invariant
                k <= self.records.len(),
                column@.len() == k,
                forall|j: int|
                    0 <= j < k ==> match (self@[j], #[trigger] column@[j]) {
                        (None, None) => true,
                        (Some((carbons, bonds)), Some(v)) => v == unsaturation_of(bonds),
                        _ => false,
                    },
            decreases self.records.len() - k,
        {
            let value = match &self.records[k] {
                None => None,
                Some(acid) => Some(acid.unsaturation_count()),
            };
            column.push(value);
            k += 1;
        }
        column
    }

    /// Carbon-carbon bonds of each row. A row without a record has no value.
    pub fn bounds(&self) -> (column: Vec<Option<u8>>)
        ensures
            column_of(self@, column@, |carbons: u8, bonds: Seq<Unsaturated>, v: u8| v == bounds_of(carbons)),
    {
        let mut column: Vec<Option<u8>> = Vec::new();
        let mut k: usize = 0;
        while k < self.records.len()
            invariant
                k <= self.records.len(),
                column@.len() == k,
                forall|j: int|
                    0 <= j < k ==> match (self@[j], #[trigger] column@[j]) {
                        (None, None) => true,
                        (Some((carbons, bonds)), Some(v)) => v == bounds_of(carbons),
                        _ => false,
                    },
            decreases self.records.len() - k,
        {
            let value = match &self.records[k] {
                None => None,
                Some(acid) => Some(acid.bounds()),
            };
            column.push(value);
            k += 1;
        }
        column
    }

    /// Equivalent carbon number of each row, `ECN = C - 2U`. A row without a record has no value.
    pub fn ecn(&self) -> (column: Vec<Option<i128>>)
        ensures
            column_of(self@, column@, |carbons: u8, bonds: Seq<Unsaturated>, v: i128| v == ecn_of(carbons, unsaturation_of(bonds))),
    {
        let mut column: Vec<Option<i128>> = Vec::new();
        let mut k: usize = 0;
        while k < self.records.len()
            invariant
                k <= self.records.len(),
                column@.len() == k,
                forall|j: int|
                    0 <= j < k ==> match (self@[j], #[trigger] column@[j]) {
                        (None, None) => true,
                        (Some((carbons, bonds)), Some(v)) => v == ecn_of(carbons, unsaturation_of(bonds)),
                        _ => false,
                    },
            decreases self.records.len() - k,
        {
            let value = match &self.records[k] {
                None => None,
                Some(acid) => Some(acid.equivalent_carbon_number()),
            };
            column.push(value);
            k += 1;
        }
        column
    }

    /// Hydrogens of each row, `H = 2C - 2U`. A row without a record has no value.
    pub fn hydrogens(&self) -> (column: Vec<Option<i128>>)
        ensures
            column_of(self@, column@, |carbons: u8, bonds: Seq<Unsaturated>, v: i128| v == hydrogens_of(carbons, unsaturation_of(bonds))),
    {
        let mut column: Vec<Option<i128>> = Vec::new();
        let mut k: usize = 0;
        while k < self.records.len()
            invariant
                k <= self.records.len(),
                column@.len() == k,
                forall|j: int|
                    0 <= j < k ==> match (self@[j], #[trigger] column@[j]) {
                        (None, None) => true,
                        (Some((carbons, bonds)), Some(v)) => v == hydrogens_of(carbons, unsaturation_of(bonds)),
                        _ => false,
                    },
            decreases self.records.len() - k,
        {
            let value = match &self.records[k] {
                None => None,
                Some(acid) => Some(acid.hydrogens()),
            };
            column.push(value);
            k += 1;
        }
        column
    }

    /// Whether each row is saturated, `U = 0`. A row without a record has no value.
    pub fn saturated(&self) -> (column: Vec<Option<bool>>)
        ensures
            column_of(self@, column@, |carbons: u8, bonds: Seq<Unsaturated>, v: bool| v == (unsaturation_of(bonds) == 0)),
    {
        let mut column: Vec<Option<bool>> = Vec::new();
        let mut k: usize = 0;
        while k < self.records.len()
            invariant
                k <= self.records.len(),
                column@.len() == k,
                forall|j: int|
                    0 <= j < k ==> match (self@[j], #[trigger] column@[j]) {
                        (None, None) => true,
                        (Some((carbons, bonds)), Some(v)) => v == (unsaturation_of(bonds) == 0),
                        _ => false,
                    },
            decreases self.records.len() - k,
        {
            let value = match &self.records[k] {
                None => None,
                Some(acid) => Some(acid.saturated()),
            };
            column.push(value);
            k += 1;
        }
        column
    }

    /// See [`FattyAcidExpr::carbons`].
    pub fn c(&self) -> (column: Vec<Option<u8>>)
        ensures
            column_of(self@, column@, |carbons: u8, bonds: Seq<Unsaturated>, v: u8| v == carbons),
    {
        self.carbons()
    }

    /// See [`FattyAcidExpr::unsaturation`].
    pub fn u(&self) -> (column: Vec<Option<u128>>)
        ensures
            column_of(self@, column@, |carbons: u8, bonds: Seq<Unsaturated>, v: u128| v == unsaturation_of(bonds)),
    {
        self.unsaturation()
    }

    /// See [`FattyAcidExpr::bounds`].
    pub fn b(&self) -> (column: Vec<Option<u8>>)
        ensures
            column_of(self@, column@, |carbons: u8, bonds: Seq<Unsaturated>, v: u8| v == bounds_of(carbons)),
    {
        self.bounds()
    }

    /// See [`FattyAcidExpr::hydrogens`].
    pub fn h(&self) -> (column: Vec<Option<i128>>)
        ensures
            column_of(self@, column@, |carbons: u8, bonds: Seq<Unsaturated>, v: i128| v == hydrogens_of(carbons, unsaturation_of(bonds))),
    {
        self.hydrogens()
    }

    /// See [`FattyAcidExpr::saturated`].
    pub fn s(&self) -> (column: Vec<Option<bool>>)
        ensures
            column_of(self@, column@, |carbons: u8, bonds: Seq<Unsaturated>, v: bool| v == (unsaturation_of(bonds) == 0)),
    {
        self.saturated()
    }
}

/// Sum of a list of amounts.
pub fn sum_of(values: &Vec<u32>) -> (t: u128)
    ensures
        t == sum(values@),
        t <= values@.len() * u32::MAX,
{
    let mut t: u128 = 0;
    let mut k: usize = 0;
    while k < values.len()
        invariant
            k <= values.len(),
            t == sum(values@.take(k as int)),
            t <= k * u32::MAX,
        decreases values.len() - k,
    {
        proof {
            assert(values@.take(k + 1).drop_last() == values@.take(k as int));
            assert(k * u32::MAX + u32::MAX == (k + 1) * u32::MAX) by (nonlinear_arith);
            assert(k * u32::MAX <= usize::MAX * u32::MAX) by (nonlinear_arith)
                requires
                    k <= usize::MAX,
            ;
        }
        t = t + values[k] as u128;
        k += 1;
    }
    proof {
        assert(values@.take(k as int) == values@);
    }
    t
}

/// Sum of the amounts of a column that are not null.
pub fn sum_present(expr: &Vec<Option<u32>>) -> (t: u128)
    ensures
        t == sum(present(expr@)),
        t <= usize::MAX * u32::MAX,
{
    let mut t: u128 = 0;
    let mut k: usize = 0;
    while k < expr.len()
        invariant
            k <= expr.len(),
            t == sum(present(expr@.take(k as int))),
            t <= k * u32::MAX,
        decreases expr.len() - k,
    {
        proof {
            assert(expr@.take(k + 1).drop_last() == expr@.take(k as int));
            assert(k * u32::MAX + u32::MAX == (k + 1) * u32::MAX) by (nonlinear_arith);
            assert(k * u32::MAX <= usize::MAX * u32::MAX) by (nonlinear_arith)
                requires
                    k <= usize::MAX,
            ;
            let before = present(expr@.take(k as int));
            match expr@[k as int] {
                Some(amount) => {
                    assert(before.push(amount).drop_last() == before);
                },
                None => {},
            }
        }
        match expr[k] {
            Some(amount) => {
                t = t + amount as u128;
            },
            None => {},
        }
        k += 1;
    }
    proof {
        assert(expr@.take(k as int) == expr@);
        assert(k * u32::MAX <= usize::MAX * u32::MAX) by (nonlinear_arith)
            requires
                k <= usize::MAX,
        ;
    }
    t
}

} // verus!
