//! Classes of fatty acids and the indices of lipid quality over a column of
//! fatty acids and a parallel column of amounts.

use crate::expr::column_of;
use crate::expr::find::acid;
use crate::expr::in_class;
use crate::expr::present;
use crate::expr::row_amount;
use crate::expr::selected;
use crate::expr::selected_upto;
use crate::expr::sum;
use crate::expr::sum_present;
use crate::expr::total;
use crate::expr::Class;
use crate::expr::FattyAcidExpr;
use crate::fatty_acid::Unsaturated;
use vstd::prelude::*;

verus! {

/// A quotient of two sums of amounts, kept exact. The denominator is not
/// zero.
#[derive(Clone, Copy, Debug, PartialEq, Eq, Structural)]
pub struct Ratio {
    pub numerator: u128,
    pub denominator: u128,
}

impl View for Ratio {
    type V = (nat, nat);

    /// The numerator and the denominator.
    open spec fn view(&self) -> (nat, nat) {
        (self.numerator as nat, self.denominator as nat)
    }
}

/// The numerator and the denominator of an index, or none for an undefined
/// index.
pub open spec fn ratio_view(index: Option<Ratio>) -> Option<(nat, nat)> {
    match index {
        None => None,
        Some(ratio) => Some(ratio@),
    }
}

/// The quotient of two sums as numerator and denominator, undefined where
/// the denominator is zero.
pub open spec fn ratio(numerator: nat, denominator: nat) -> Option<(nat, nat)> {
    if denominator == 0 {
        None
    } else {
        Some((numerator, denominator))
    }
}

/// `C12:0 + 4 C14:0 + C16:0`, the sum of the saturated acids that raise
/// cholesterol, myristic acid counted four times.
pub open spec fn atherogenic(records: Seq<Option<(u8, Seq<Unsaturated>)>>, amounts: Seq<Option<u32>>) -> nat {
    total(records, amounts, acid(12, 0)) + 4 * total(records, amounts, acid(14, 0)) + total(
        records,
        amounts,
        acid(16, 0),
    )
}

/// `C12:0 + C14:0 + C16:0`.
pub open spec fn hypercholesterolemic(
    records: Seq<Option<(u8, Seq<Unsaturated>)>>,
    amounts: Seq<Option<u32>>,
) -> nat {
    total(records, amounts, acid(12, 0)) + total(records, amounts, acid(14, 0)) + total(
        records,
        amounts,
        acid(16, 0),
    )
}

/// `C14:0 + C16:0 + C18:0`.
pub open spec fn thrombogenic(records: Seq<Option<(u8, Seq<Unsaturated>)>>, amounts: Seq<Option<u32>>) -> nat {
    total(records, amounts, acid(14, 0)) + total(records, amounts, acid(16, 0)) + total(
        records,
        amounts,
        acid(18, 0),
    )
}

/// `MUFA + n-6 + 6 n-3`, twice the denominator of the index of
/// thrombogenicity.
pub open spec fn antithrombogenic(
    records: Seq<Option<(u8, Seq<Unsaturated>)>>,
    amounts: Seq<Option<u32>>,
) -> nat {
    total(records, amounts, Class::Degree(1)) + total(records, amounts, Class::Omega(6)) + 6 * total(
        records,
        amounts,
        Class::Omega(3),
    )
}

/// What [`Filter::ia`] answers.
pub open spec fn ia_of(records: Seq<Option<(u8, Seq<Unsaturated>)>>, amounts: Seq<Option<u32>>) -> Option<
    (nat, nat),
> {
    ratio(atherogenic(records, amounts), total(records, amounts, Class::Unsaturated))
}

/// What [`Filter::it`] answers: the halves of the denominator are carried to
/// the numerator.
pub open spec fn it_of(records: Seq<Option<(u8, Seq<Unsaturated>)>>, amounts: Seq<Option<u32>>) -> Option<
    (nat, nat),
> {
    ratio(2 * thrombogenic(records, amounts), antithrombogenic(records, amounts))
}

/// What [`Filter::hh`] answers.
pub open spec fn hh_of(records: Seq<Option<(u8, Seq<Unsaturated>)>>, amounts: Seq<Option<u32>>) -> Option<
    (nat, nat),
> {
    ratio(
        total(records, amounts, acid(18, 1)) + total(records, amounts, Class::Polyunsaturated),
        hypercholesterolemic(records, amounts),
    )
}

/// What [`Filter::hpi`] answers.
pub open spec fn hpi_of(records: Seq<Option<(u8, Seq<Unsaturated>)>>, amounts: Seq<Option<u32>>) -> Option<
    (nat, nat),
> {
    ratio(total(records, amounts, Class::Unsaturated), atherogenic(records, amounts))
}

/// What [`Filter::flq`] answers.
pub open spec fn flq_of(records: Seq<Option<(u8, Seq<Unsaturated>)>>, amounts: Seq<Option<u32>>) -> Option<
    (nat, nat),
> {
    ratio(
        total(records, amounts, acid(20, 5)) + total(records, amounts, acid(22, 6)),
        sum(present(amounts)),
    )
}

/// What [`Filter::ui`] answers: each amount times the `U` of its row, over
/// the rows with `U` from one to six.
pub open spec fn ui_of(records: Seq<Option<(u8, Seq<Unsaturated>)>>, amounts: Seq<Option<u32>>) -> nat {
    total(records, amounts, Class::Degree(1)) + 2 * total(records, amounts, Class::Degree(2)) + 3
        * total(records, amounts, Class::Degree(3)) + 4 * total(records, amounts, Class::Degree(4))
        + 5 * total(records, amounts, Class::Degree(5)) + 6 * total(records, amounts, Class::Degree(6))
}

/// For each bond of a row, whether it lies `n` carbons before the end of the
/// chain; unknown for a bond of unknown position.
pub open spec fn flags(carbons: u8, bonds: Seq<Unsaturated>, n: u8) -> Seq<Option<bool>> {
    Seq::new(
        bonds.len(),
        |j: int|
            match bonds[j].index {
                Some(i) => Some(i + n == carbons),
                None => None,
            },
    )
}

/// The amounts of a class that lies within another class sum to no more than
/// the amounts of that class, over the first `n` rows.
proof fn lemma_total_upto_monotone(
    records: Seq<Option<(u8, Seq<Unsaturated>)>>,
    amounts: Seq<Option<u32>>,
    narrow: Class,
    wide: Class,
    n: nat,
)
    requires
        forall|carbons: u8, bonds: Seq<Unsaturated>| #[trigger]
            in_class(narrow, carbons, bonds) ==> in_class(wide, carbons, bonds),
    ensures
        sum(selected_upto(records, amounts, narrow, n)) <= sum(
            selected_upto(records, amounts, wide, n),
        ),
    decreases n,
{
    if n > 0 {
        lemma_total_upto_monotone(records, amounts, narrow, wide, (n - 1) as nat);
        let before_narrow = selected_upto(records, amounts, narrow, (n - 1) as nat);
        let before_wide = selected_upto(records, amounts, wide, (n - 1) as nat);
        match row_amount(records, amounts, wide, n - 1) {
            Some(amount) => {
                assert(before_wide.push(amount).drop_last() == before_wide);
            },
            None => {},
        }
        match row_amount(records, amounts, narrow, n - 1) {
            Some(amount) => {
                assert(before_narrow.push(amount).drop_last() == before_narrow);
                let (carbons, bonds) = records[n - 1]->Some_0;
                assert(in_class(narrow, carbons, bonds));
            },
            None => {},
        }
    }
}

/// The amounts of a class that lies within another class sum to no more than
/// the amounts of that class.
pub proof fn lemma_total_monotone(
    records: Seq<Option<(u8, Seq<Unsaturated>)>>,
    amounts: Seq<Option<u32>>,
    narrow: Class,
    wide: Class,
)
    requires
        forall|carbons: u8, bonds: Seq<Unsaturated>| #[trigger]
            in_class(narrow, carbons, bonds) ==> in_class(wide, carbons, bonds),
    ensures
        total(records, amounts, narrow) <= total(records, amounts, wide),
{
    lemma_total_upto_monotone(records, amounts, narrow, wide, crate::expr::rows(records, amounts));
}

/// A profile whose unsaturated fatty acids sum to nothing has no index of
/// atherogenicity and no index of thrombogenicity: both are undefined. Its
/// two other ratios have the numerator zero, and are undefined exactly when
/// their saturated acids sum to nothing too.
pub proof fn lemma_undefined_without_unsaturated(
    records: Seq<Option<(u8, Seq<Unsaturated>)>>,
    amounts: Seq<Option<u32>>,
)
    requires
        total(records, amounts, Class::Unsaturated) == 0,
    ensures
        ia_of(records, amounts) is None,
        it_of(records, amounts) is None,
        hh_of(records, amounts) == ratio(0, hypercholesterolemic(records, amounts)),
        hpi_of(records, amounts) == ratio(0, atherogenic(records, amounts)),
{
    lemma_total_monotone(records, amounts, Class::Degree(1), Class::Unsaturated);
    lemma_total_monotone(records, amounts, Class::Omega(6), Class::Unsaturated);
    lemma_total_monotone(records, amounts, Class::Omega(3), Class::Unsaturated);
    lemma_total_monotone(records, amounts, Class::Polyunsaturated, Class::Unsaturated);
    lemma_total_monotone(records, amounts, acid(18, 1), Class::Unsaturated);
}

/// A profile whose unsaturated fatty acids sum to nothing, and whose lauric,
/// myristic and palmitic acids sum to nothing, has none of the four ratios:
/// each is undefined.
pub proof fn lemma_undefined_ratios(
    records: Seq<Option<(u8, Seq<Unsaturated>)>>,
    amounts: Seq<Option<u32>>,
)
    requires
        total(records, amounts, Class::Unsaturated) == 0,
        hypercholesterolemic(records, amounts) == 0,
    ensures
        ia_of(records, amounts) is None,
        it_of(records, amounts) is None,
        hh_of(records, amounts) is None,
        hpi_of(records, amounts) is None,
{
    lemma_undefined_without_unsaturated(records, amounts);
}

/// The quotient of two sums that fit the machine's widest integer.
fn quotient(numerator: u128, denominator: u128) -> (r: Option<Ratio>)
    ensures
        ratio_view(r) == ratio(numerator as nat, denominator as nat),
{
    if denominator == 0 {
        None
    } else {
        Some(Ratio { numerator, denominator })
    }
}

/// No sum of amounts reaches two to the ninety-sixth.
proof fn lemma_total_fits(t: u128)
    requires
        t <= usize::MAX * u32::MAX,
    ensures
        t < 0x1_0000_0000_0000_0000_0000_0000,
{
    assert(usize::MAX * u32::MAX < 0x1_0000_0000_0000_0000_0000_0000) by (nonlinear_arith)
        requires
            usize::MAX <= 0xffff_ffff_ffff_ffff,
            u32::MAX == 0xffff_ffff,
    ;
}

impl FattyAcidExpr {
    /// `C12:0 + 4 C14:0 + C16:0`.
    fn atherogenic_sum(&self, expr: &Vec<Option<u32>>) -> (t: u128)
        ensures
            t == atherogenic(self@, expr@),
    {
        let c12: u128 = self.total(expr, Class::Acid { carbons: 12, unsaturation: 0 });
        let c14: u128 = self.total(expr, Class::Acid { carbons: 14, unsaturation: 0 });
        let c16: u128 = self.total(expr, Class::Acid { carbons: 16, unsaturation: 0 });
        proof {
            lemma_total_fits(c12);
            lemma_total_fits(c14);
            lemma_total_fits(c16);
        }
        c12 + 4 * c14 + c16
    }
}

/// The classes of fatty acids and the indices of lipid quality. A class
/// method hands out the amounts of the rows of its class, in row order; a row
/// without a record or without an amount belongs to no class.
pub trait Filter {
    /// The monoenoic acids, `U = 1`.
    fn monoenoics(&self, expr: &Vec<Option<u32>>) -> Vec<u32>;

    /// The dienoic acids, `U = 2`.
    fn dienoics(&self, expr: &Vec<Option<u32>>) -> Vec<u32>;

    /// The trienoic acids, `U = 3`.
    fn trienoics(&self, expr: &Vec<Option<u32>>) -> Vec<u32>;

    /// The tetraenoic acids, `U = 4`.
    fn tetraenoics(&self, expr: &Vec<Option<u32>>) -> Vec<u32>;

    /// The pentaenoic acids, `U = 5`.
    fn pentaenoics(&self, expr: &Vec<Option<u32>>) -> Vec<u32>;

    /// The hexaenoic acids, `U = 6`.
    fn hexaenoics(&self, expr: &Vec<Option<u32>>) -> Vec<u32>;

    /// SFA: the saturated fatty acids, `U = 0`.
    fn sfa(&self, expr: &Vec<Option<u32>>) -> Vec<u32>;

    /// UFA: the unsaturated fatty acids, `U` not zero.
    fn ufa(&self, expr: &Vec<Option<u32>>) -> Vec<u32>;

    /// MUFA: the monounsaturated fatty acids, `U = 1`.
    fn mufa(&self, expr: &Vec<Option<u32>>) -> Vec<u32>;

    /// PUFA: the polyunsaturated fatty acids, `U` greater than one.
    fn pufa(&self, expr: &Vec<Option<u32>>) -> Vec<u32>;

    /// For each row the flags of its bonds: whether the bond lies `n` carbons
    /// before the end of the chain, as the last bond of an n-3 or n-6 acid
    /// does.
    fn pufan(&self, n: u8) -> Vec<Option<Vec<Option<bool>>>>;

    /// IA, the index of atherogenicity: `(C12:0 + 4 C14:0 + C16:0) / UFA`, each name
    /// the sum of the amounts of its rows.
    /// Undefined, `None`, where the denominator is zero.
    fn ia(&self, expr: &Vec<Option<u32>>) -> Option<Ratio>;

    /// IT, the index of thrombogenicity: `(C14:0 + C16:0 + C18:0) / (0.5 MUFA + 0.5 (n-6 + 6 n-3))`,
    /// where n-6 and n-3 are the polyunsaturated acids of these families.
    /// Undefined, `None`, where the denominator is zero.
    fn it(&self, expr: &Vec<Option<u32>>) -> Option<Ratio>;

    /// HH, the hypocholesterolemic to hypercholesterolemic ratio:
    /// `(C18:1 + PUFA) / (C12:0 + C14:0 + C16:0)`.
    /// Undefined, `None`, where the denominator is zero.
    fn hh(&self, expr: &Vec<Option<u32>>) -> Option<Ratio>;

    /// HPI, the health-promoting index: `UFA / (C12:0 + 4 C14:0 + C16:0)`.
    /// Undefined, `None`, where the denominator is zero.
    fn hpi(&self, expr: &Vec<Option<u32>>) -> Option<Ratio>;

    /// FLQ, the fish lipid quality: `(EPA + DHA)` over the sum of all amounts of
    /// the column.
    /// Undefined, `None`, where the denominator is zero.
    fn flq(&self, expr: &Vec<Option<u32>>) -> Option<Ratio>;

    /// UI, the unsaturation index: the amount of each row times its `U`,
    /// summed over the rows with `U` from one to six.
    fn ui(&self, expr: &Vec<Option<u32>>) -> u128;

    /// TFA: by this library's convention the rows of eighteen carbons and `U = 3`.
    fn tfa(&self, expr: &Vec<Option<u32>>) -> Vec<u32>;
}

impl Filter for FattyAcidExpr {
    fn monoenoics(&self, expr: &Vec<Option<u32>>) -> (amounts: Vec<u32>)
        ensures
            amounts@ == selected(self@, expr@, Class::Degree(1)),
    {
        self.select(expr, Class::Degree(1))
    }

    fn dienoics(&self, expr: &Vec<Option<u32>>) -> (amounts: Vec<u32>)
        ensures
            amounts@ == selected(self@, expr@, Class::Degree(2)),
    {
        self.select(expr, Class::Degree(2))
    }

    fn trienoics(&self, expr: &Vec<Option<u32>>) -> (amounts: Vec<u32>)
        ensures
            amounts@ == selected(self@, expr@, Class::Degree(3)),
    {
        self.select(expr, Class::Degree(3))
    }

    fn tetraenoics(&self, expr: &Vec<Option<u32>>) -> (amounts: Vec<u32>)
        ensures
            amounts@ == selected(self@, expr@, Class::Degree(4)),
    {
        self.select(expr, Class::Degree(4))
    }

    fn pentaenoics(&self, expr: &Vec<Option<u32>>) -> (amounts: Vec<u32>)
        ensures
            amounts@ == selected(self@, expr@, Class::Degree(5)),
    {
        self.select(expr, Class::Degree(5))
    }

    fn hexaenoics(&self, expr: &Vec<Option<u32>>) -> (amounts: Vec<u32>)
        ensures
            amounts@ == selected(self@, expr@, Class::Degree(6)),
    {
        self.select(expr, Class::Degree(6))
    }

    fn sfa(&self, expr: &Vec<Option<u32>>) -> (amounts: Vec<u32>)
        ensures
            amounts@ == selected(self@, expr@, Class::Degree(0)),
    {
        self.select(expr, Class::Degree(0))
    }

    fn ufa(&self, expr: &Vec<Option<u32>>) -> (amounts: Vec<u32>)
        ensures
            amounts@ == selected(self@, expr@, Class::Unsaturated),
    {
        self.select(expr, Class::Unsaturated)
    }

    fn mufa(&self, expr: &Vec<Option<u32>>) -> (amounts: Vec<u32>)
        ensures
            amounts@ == selected(self@, expr@, Class::Degree(1)),
    {
        self.select(expr, Class::Degree(1))
    }

    fn pufa(&self, expr: &Vec<Option<u32>>) -> (amounts: Vec<u32>)
        ensures
            amounts@ == selected(self@, expr@, Class::Polyunsaturated),
    {
        self.select(expr, Class::Polyunsaturated)
    }

    fn pufan(&self, n: u8) -> (column: Vec<Option<Vec<Option<bool>>>>)
        ensures
            column_of(
                self@,
                column@,
                |carbons: u8, bonds: Seq<Unsaturated>, row: Vec<Option<bool>>|
                    row@ == flags(carbons, bonds, n),
            ),
    {
        let carbons = self.carbons();
        let mut column: Vec<Option<Vec<Option<bool>>>> = Vec::new();
        let mut k: usize = 0;
        while k < self.len()
            invariant
                k <= self@.len(),
                column@.len() == k,
                carbons@.len() == self@.len(),
                column_of(self@, carbons@, |c: u8, bonds: Seq<Unsaturated>, v: u8| v == c),
                forall|j: int|
                    0 <= j < k ==> match (self@[j], #[trigger] column@[j]) {
                        (None, None) => true,
                        (Some((c, bonds)), Some(row)) => row@ == flags(c, bonds, n),
                        _ => false,
                    },
            decreases self@.len() - k,
        {
            let row = match carbons[k] {
                None => None,
                Some(c) => Some(self.row_flags(k, c, n)),
            };
            column.push(row);
            k += 1;
        }
        column
    }

    fn ia(&self, expr: &Vec<Option<u32>>) -> (r: Option<Ratio>)
        ensures
            ratio_view(r) == ia_of(self@, expr@),
    {
        let numerator: u128 = self.atherogenic_sum(expr);
        let denominator: u128 = self.total(expr, Class::Unsaturated);
        quotient(numerator, denominator)
    }

    fn it(&self, expr: &Vec<Option<u32>>) -> (r: Option<Ratio>)
        ensures
            ratio_view(r) == it_of(self@, expr@),
    {
        let c14: u128 = self.total(expr, Class::Acid { carbons: 14, unsaturation: 0 });
        let c16: u128 = self.total(expr, Class::Acid { carbons: 16, unsaturation: 0 });
        let c18: u128 = self.total(expr, Class::Acid { carbons: 18, unsaturation: 0 });
        let mufa: u128 = self.total(expr, Class::Degree(1));
        let n6: u128 = self.total(expr, Class::Omega(6));
        let n3: u128 = self.total(expr, Class::Omega(3));
        proof {
            lemma_total_fits(c14);
            lemma_total_fits(c16);
            lemma_total_fits(c18);
            lemma_total_fits(mufa);
            lemma_total_fits(n6);
            lemma_total_fits(n3);
        }
        quotient(2 * (c14 + c16 + c18), mufa + n6 + 6 * n3)
    }

    fn hh(&self, expr: &Vec<Option<u32>>) -> (r: Option<Ratio>)
        ensures
            ratio_view(r) == hh_of(self@, expr@),
    {
        let c18u1: u128 = self.total(expr, Class::Acid { carbons: 18, unsaturation: 1 });
        let pufa: u128 = self.total(expr, Class::Polyunsaturated);
        let c12: u128 = self.total(expr, Class::Acid { carbons: 12, unsaturation: 0 });
        let c14: u128 = self.total(expr, Class::Acid { carbons: 14, unsaturation: 0 });
        let c16: u128 = self.total(expr, Class::Acid { carbons: 16, unsaturation: 0 });
        proof {
            lemma_total_fits(c18u1);
            lemma_total_fits(pufa);
            lemma_total_fits(c12);
            lemma_total_fits(c14);
            lemma_total_fits(c16);
        }
        quotient(c18u1 + pufa, c12 + c14 + c16)
    }

    fn hpi(&self, expr: &Vec<Option<u32>>) -> (r: Option<Ratio>)
        ensures
            ratio_view(r) == hpi_of(self@, expr@),
    {
        let numerator: u128 = self.total(expr, Class::Unsaturated);
        let denominator: u128 = self.atherogenic_sum(expr);
        quotient(numerator, denominator)
    }

    fn flq(&self, expr: &Vec<Option<u32>>) -> (r: Option<Ratio>)
        ensures
            ratio_view(r) == flq_of(self@, expr@),
    {
        let epa: u128 = self.total(expr, Class::Acid { carbons: 20, unsaturation: 5 });
        let dha: u128 = self.total(expr, Class::Acid { carbons: 22, unsaturation: 6 });
        let all: u128 = sum_present(expr);
        proof {
            lemma_total_fits(epa);
            lemma_total_fits(dha);
        }
        quotient(epa + dha, all)
    }

    fn ui(&self, expr: &Vec<Option<u32>>) -> (index: u128)
        ensures
            index == ui_of(self@, expr@),
    {
        let mono: u128 = self.total(expr, Class::Degree(1));
        let di: u128 = self.total(expr, Class::Degree(2));
        let tri: u128 = self.total(expr, Class::Degree(3));
        let tetra: u128 = self.total(expr, Class::Degree(4));
        let penta: u128 = self.total(expr, Class::Degree(5));
        let hexa: u128 = self.total(expr, Class::Degree(6));
        proof {
            lemma_total_fits(mono);
            lemma_total_fits(di);
            lemma_total_fits(tri);
            lemma_total_fits(tetra);
            lemma_total_fits(penta);
            lemma_total_fits(hexa);
        }
        mono + 2 * di + 3 * tri + 4 * tetra + 5 * penta + 6 * hexa
    }

    fn tfa(&self, expr: &Vec<Option<u32>>) -> (amounts: Vec<u32>)
        ensures
            amounts@ == selected(self@, expr@, acid(18, 3)),
    {
        self.select(expr, Class::Acid { carbons: 18, unsaturation: 3 })
    }
}

} // verus!
