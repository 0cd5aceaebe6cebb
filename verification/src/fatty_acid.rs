//! The fatty acid record: a carbon chain and its unsaturated bonds.

use vstd::prelude::*;
use vstd::relations::sorted_by;
use vstd::relations::total_ordering;
use vstd::seq_lib::lemma_sorted_unique;
use vstd::seq_lib::to_multiset_build;
use vstd::seq_lib::to_multiset_insert;
use vstd::std_specs::cmp::PartialEqSpecImpl;
use vstd::std_specs::convert::FromSpecImpl;
use vstd::std_specs::convert::TryFromSpecImpl;

pub mod display;

verus! {

/// Geometry of a double bond. Trans comes before cis.
#[derive(Clone, Copy, Debug, PartialEq, Eq, PartialOrd, Ord, Hash, Structural)]
pub enum Isomerism {
    Trans,
    Cis,
}

impl From<Isomerism> for i8 {
    /// The geometry code of a column: `1` for cis, `-1` for trans.
    fn from(value: Isomerism) -> (code: i8) {
        match value {
            Isomerism::Cis => 1,
            Isomerism::Trans => -1,
        }
    }
}

impl FromSpecImpl<Isomerism> for i8 {
    open spec fn obeys_from_spec() -> bool {
        true
    }

    open spec fn from_spec(value: Isomerism) -> i8 {
        match value {
            Isomerism::Cis => 1i8,
            Isomerism::Trans => -1i8,
        }
    }
}

impl TryFrom<i8> for Isomerism {
    type Error = i8;

    /// A positive code is cis, a negative one trans; zero is no geometry and
    /// is handed back.
    fn try_from(value: i8) -> (r: Result<Self, i8>) {
        if value > 0 {
            Ok(Isomerism::Cis)
        } else if value < 0 {
            Ok(Isomerism::Trans)
        } else {
            Err(value)
        }
    }
}

impl TryFromSpecImpl<i8> for Isomerism {
    open spec fn obeys_try_from_spec() -> bool {
        true
    }

    open spec fn try_from_spec(value: i8) -> Result<Self, i8> {
        if value > 0 {
            Ok(Isomerism::Cis)
        } else if value < 0 {
            Ok(Isomerism::Trans)
        } else {
            Err(value)
        }
    }
}

/// How many degrees of unsaturation a bond contributes: one for a double
/// bond, two for a triple bond.
#[derive(Clone, Copy, Debug, PartialEq, Eq, PartialOrd, Ord, Hash, Structural)]
pub enum Unsaturation {
    One,
    Two,
}

impl Default for Unsaturation {
    fn default() -> (r: Self)
        ensures
            r == Unsaturation::One,
    {
        Unsaturation::One
    }
}

impl From<Unsaturation> for u8 {
    fn from(value: Unsaturation) -> (code: u8) {
        match value {
            Unsaturation::One => 1,
            Unsaturation::Two => 2,
        }
    }
}

impl FromSpecImpl<Unsaturation> for u8 {
    open spec fn obeys_from_spec() -> bool {
        true
    }

    open spec fn from_spec(value: Unsaturation) -> u8 {
        match value {
            Unsaturation::One => 1u8,
            Unsaturation::Two => 2u8,
        }
    }
}

impl TryFrom<u8> for Unsaturation {
    type Error = u8;

    /// `1` is a double bond, `2` a triple bond; any other code is handed back.
    fn try_from(value: u8) -> (r: Result<Self, u8>) {
        if value == 1 {
            Ok(Unsaturation::One)
        } else if value == 2 {
            Ok(Unsaturation::Two)
        } else {
            Err(value)
        }
    }
}

impl TryFromSpecImpl<u8> for Unsaturation {
    open spec fn obeys_try_from_spec() -> bool {
        true
    }

    open spec fn try_from_spec(value: u8) -> Result<Self, u8> {
        if value == 1 {
            Ok(Unsaturation::One)
        } else if value == 2 {
            Ok(Unsaturation::Two)
        } else {
            Err(value)
        }
    }
}

/// One unsaturated bond. Each part may be unknown.
#[derive(Clone, Copy, Debug, PartialEq, Eq, Hash, Structural)]
pub struct Unsaturated {
    /// Carbon position of the bond, counted from one end of the chain.
    pub index: Option<u8>,
    pub isomerism: Option<Isomerism>,
    pub unsaturation: Option<Unsaturation>,
}

impl Default for Unsaturated {
    fn default() -> (r: Self)
        ensures
            r == (Unsaturated { index: None, isomerism: None, unsaturation: None }),
    {
        Unsaturated { index: None, isomerism: None, unsaturation: None }
    }
}

/// Place of a bond kind in the canonical order: unknown first, then double,
/// then triple.
pub open spec fn unsaturation_rank(unsaturation: Option<Unsaturation>) -> int {
    match unsaturation {
        None => 0,
        Some(Unsaturation::One) => 1,
        Some(Unsaturation::Two) => 2,
    }
}

/// Place of a geometry in the canonical order: unknown first, then trans,
/// then cis.
pub open spec fn isomerism_rank(isomerism: Option<Isomerism>) -> int {
    match isomerism {
        None => 0,
        Some(Isomerism::Trans) => 1,
        Some(Isomerism::Cis) => 2,
    }
}

/// Place of a position in the canonical order: unknown first, then by number.
pub open spec fn index_rank(index: Option<u8>) -> int {
    match index {
        None => 0,
        Some(i) => i + 1,
    }
}

/// The canonical order of bonds: by kind, then geometry, then position, each
/// ascending with the unknown value first.
pub open spec fn canonical_le(a: Unsaturated, b: Unsaturated) -> bool {
    let (ua, ub) = (unsaturation_rank(a.unsaturation), unsaturation_rank(b.unsaturation));
    let (ia, ib) = (isomerism_rank(a.isomerism), isomerism_rank(b.isomerism));
    let (xa, xb) = (index_rank(a.index), index_rank(b.index));
    ua < ub || (ua == ub && (ia < ib || (ia == ib && xa <= xb)))
}

/// [`canonical_le`] as a relation value.
pub open spec fn canonical_order() -> spec_fn(Unsaturated, Unsaturated) -> bool {
    |a: Unsaturated, b: Unsaturated| canonical_le(a, b)
}

/// Whether a bond list is in canonical order.
pub open spec fn is_canonical(bonds: Seq<Unsaturated>) -> bool {
    forall|i: int, j: int| 0 <= i < j < bonds.len() ==> canonical_le(#[trigger] bonds[i], #[trigger] bonds[j])
}

/// The canonical arrangement of a bond list: the same bonds, in canonical
/// order.
pub open spec fn canonical(bonds: Seq<Unsaturated>) -> Seq<Unsaturated> {
    bonds.sort_by(canonical_order())
}

/// Degrees of unsaturation of one bond; a bond of unknown kind counts as a
/// double bond.
pub open spec fn degree(bond: Unsaturated) -> nat {
    match bond.unsaturation {
        Some(Unsaturation::Two) => 2,
        _ => 1,
    }
}

/// Sum of the degrees of unsaturation over a bond list.
pub open spec fn unsaturation_of(bonds: Seq<Unsaturated>) -> nat
    decreases bonds.len(),
{
    if bonds.len() == 0 {
        0
    } else {
        unsaturation_of(bonds.drop_last()) + degree(bonds.last())
    }
}

/// Whether a bond may sit on a chain of `carbons` atoms: its position, if
/// known, is strictly inside the chain.
pub open spec fn interior(bond: Unsaturated, carbons: u8) -> bool {
    bond.index matches Some(i) ==> 0 < i < carbons
}

/// The canonical order is a total order on bonds.
pub proof fn lemma_canonical_order_total()
    ensures
        total_ordering(canonical_order()),
{
    let order = canonical_order();
    assert forall|a: Unsaturated, b: Unsaturated| #[trigger] order(a, b) && #[trigger] order(b, a) implies a == b by {
        assert(unsaturation_rank(a.unsaturation) == unsaturation_rank(b.unsaturation));
        assert(isomerism_rank(a.isomerism) == isomerism_rank(b.isomerism));
        assert(index_rank(a.index) == index_rank(b.index));
        assert(a.unsaturation == b.unsaturation);
        assert(a.isomerism == b.isomerism);
        assert(a.index == b.index);
    }
}

/// A list in canonical order is sorted by the canonical order, and back.
pub proof fn lemma_canonical_is_sorted(bonds: Seq<Unsaturated>)
    ensures
        is_canonical(bonds) <==> sorted_by(bonds, canonical_order()),
{
    let order = canonical_order();
    if is_canonical(bonds) {
        assert forall|i: int, j: int| 0 <= i < j < bonds.len() implies #[trigger] order(bonds[i], bonds[j]) by {
            assert(canonical_le(bonds[i], bonds[j]));
        }
    }
    if sorted_by(bonds, order) {
        assert forall|i: int, j: int| 0 <= i < j < bonds.len() implies canonical_le(
            #[trigger] bonds[i],
            #[trigger] bonds[j],
        ) by {
            assert(order(bonds[i], bonds[j]));
        }
    }
}

/// The canonical arrangement is in canonical order and holds the same bonds,
/// each as often as the list does.
pub proof fn lemma_canonical_ensures(bonds: Seq<Unsaturated>)
    ensures
        is_canonical(canonical(bonds)),
        canonical(bonds).to_multiset() == bonds.to_multiset(),
        canonical(bonds).len() == bonds.len(),
{
    lemma_canonical_order_total();
    bonds.lemma_sort_by_ensures(canonical_order());
    lemma_canonical_is_sorted(canonical(bonds));
    bonds.to_multiset_ensures();
    canonical(bonds).to_multiset_ensures();
}

/// A list in canonical order that holds the same bonds as `bonds` is the
/// canonical arrangement of `bonds`.
pub proof fn lemma_canonical_unique(arranged: Seq<Unsaturated>, bonds: Seq<Unsaturated>)
    requires
        is_canonical(arranged),
        arranged.to_multiset() == bonds.to_multiset(),
    ensures
        arranged == canonical(bonds),
{
    lemma_canonical_order_total();
    lemma_canonical_ensures(bonds);
    lemma_canonical_is_sorted(arranged);
    lemma_canonical_is_sorted(canonical(bonds));
    lemma_sorted_unique(arranged, canonical(bonds), canonical_order());
}

/// Why a bond or a chain was refused.
#[derive(Clone, Copy, Debug, PartialEq, Eq, Structural)]
pub enum StructuralError {
    /// The chain has no carbon atom.
    NoCarbons,
    /// The bond's position is zero.
    ZeroIndex,
    /// The bond's position is the last carbon or lies beyond the chain.
    IndexBeyondChain,
}

/// What [`FattyAcid::push_bond`] answers for a bond on a chain of `carbons`
/// atoms.
pub open spec fn bond_check(bond: Unsaturated, carbons: u8) -> Result<(), StructuralError> {
    match bond.index {
        Some(i) if i == 0 => Err(StructuralError::ZeroIndex),
        Some(i) if i >= carbons => Err(StructuralError::IndexBeyondChain),
        _ => Ok(()),
    }
}

/// A fatty acid: the number of carbon atoms and the unsaturated bonds.
#[derive(Debug)]
pub struct FattyAcid {
    pub carbons: u8,
    pub unsaturated: Vec<Unsaturated>,
}

impl Default for FattyAcid {
    /// The record without carbons and without bonds. It is no fatty acid
    /// yet: the carbons are to be set.
    fn default() -> (r: Self)
        ensures
            r.carbons == 0,
            r.unsaturated@ == Seq::<Unsaturated>::empty(),
    {
        FattyAcid { carbons: 0, unsaturated: Vec::new() }
    }
}

impl Clone for FattyAcid {
    fn clone(&self) -> (r: Self)
        ensures
            r.carbons == self.carbons,
            r.unsaturated@ == self.unsaturated@,
    {
        let mut unsaturated: Vec<Unsaturated> = Vec::new();
        let mut i: usize = 0;
        while i < self.unsaturated.len()
            invariant
                i <= self.unsaturated.len(),
                unsaturated@ == self.unsaturated@.take(i as int),
            decreases self.unsaturated.len() - i,
        {
            unsaturated.push(self.unsaturated[i]);
            assert(self.unsaturated@.take(i + 1) == self.unsaturated@.take(i as int).push(
                self.unsaturated@[i as int],
            ));
            i += 1;
        }
        assert(self.unsaturated@.take(i as int) == self.unsaturated@);
        FattyAcid { carbons: self.carbons, unsaturated }
    }
}

impl PartialEq for FattyAcid {
    /// Two records are equal when they have the same number of carbons and
    /// the same bonds in the same order.
    fn eq(&self, other: &Self) -> (equal: bool) {
        if self.carbons != other.carbons || self.unsaturated.len() != other.unsaturated.len() {
            return false;
        }
        let mut i: usize = 0;
        while i < self.unsaturated.len()
            invariant
                i <= self.unsaturated.len(),
                self.unsaturated.len() == other.unsaturated.len(),
                self.unsaturated@.take(i as int) == other.unsaturated@.take(i as int),
            decreases self.unsaturated.len() - i,
        {
            if self.unsaturated[i] != other.unsaturated[i] {
                return false;
            }
            assert(self.unsaturated@.take(i + 1) == self.unsaturated@.take(i as int).push(
                self.unsaturated@[i as int],
            ));
            assert(other.unsaturated@.take(i + 1) == other.unsaturated@.take(i as int).push(
                other.unsaturated@[i as int],
            ));
            i += 1;
        }
        assert(self.unsaturated@.take(i as int) == self.unsaturated@);
        assert(other.unsaturated@.take(i as int) == other.unsaturated@);
        true
    }
}

impl PartialEqSpecImpl for FattyAcid {
    open spec fn obeys_eq_spec() -> bool {
        true
    }

    open spec fn eq_spec(&self, other: &Self) -> bool {
        self.carbons == other.carbons && self.unsaturated@ == other.unsaturated@
    }
}

impl Eq for FattyAcid {

}

/// The derived quantities of a fatty acid under their short names.
pub trait FattyAcidExt {
    /// Carbons.
    fn c(&self) -> u8;

    /// Hydrogens, `H = 2C - 2U`.
    fn h(&self) -> i128;

    /// Equivalent carbon number, `ECN = C - 2U`.
    fn ecn(&self) -> i128;

    /// Saturated.
    fn s(&self) -> bool;

    /// Carbon-carbon bonds.
    fn b(&self) -> u8;

    /// Degrees of unsaturation.
    fn u(&self) -> u128;
}

impl FattyAcidExt for FattyAcid {
    fn c(&self) -> (c: u8)
        ensures
            c == self.carbons,
    {
        self.carbons()
    }

    fn h(&self) -> (h: i128)
        ensures
            h == hydrogens_of(self.carbons, unsaturation_of(self.unsaturated@)),
    {
        self.hydrogens()
    }

    fn ecn(&self) -> (ecn: i128)
        ensures
            ecn == ecn_of(self.carbons, unsaturation_of(self.unsaturated@)),
    {
        self.equivalent_carbon_number()
    }

    fn s(&self) -> (s: bool)
        ensures
            s == (unsaturation_of(self.unsaturated@) == 0),
    {
        self.saturated()
    }

    fn b(&self) -> (b: u8)
        ensures
            b == bounds_of(self.carbons),
    {
        self.bounds()
    }

    fn u(&self) -> (u: u128)
        ensures
            u == unsaturation_of(self.unsaturated@),
    {
        self.unsaturation_count()
    }
}

/// The saturated fatty acids of even chain length from two to thirty-two
/// carbons, shortest first.
pub fn saturated_acids() -> (table: Vec<FattyAcid>)
    ensures
        table@.len() == 16,
        forall|k: int|
            0 <= k < 16 ==> (#[trigger] table@[k]).carbons == 2 * (k + 1) && table@[k].unsaturated@
                == Seq::<Unsaturated>::empty(),
{
    let mut table: Vec<FattyAcid> = Vec::new();
    let mut carbons: u8 = 2;
    while carbons <= 32
        invariant
            2 <= carbons <= 34,
            carbons % 2 == 0,
            table@.len() == carbons / 2 - 1,
            forall|k: int|
                0 <= k < table@.len() ==> (#[trigger] table@[k]).carbons == 2 * (k + 1)
                    && table@[k].unsaturated@ == Seq::<Unsaturated>::empty(),
        decreases 34 - carbons,
    {
        table.push(FattyAcid::new(carbons));
        carbons += 2;
    }
    table
}

/// Puts `bond` into `bonds` at its place in the canonical order.
fn insert_in_order(bonds: &mut Vec<Unsaturated>, bond: Unsaturated)
    requires
        is_canonical(old(bonds)@),
    ensures
        is_canonical(final(bonds)@),
        final(bonds)@.to_multiset() == old(bonds)@.to_multiset().insert(bond),
{
    let mut place: usize = 0;
    while place < bonds.len()
        invariant
            place <= bonds.len(),
            *bonds == *old(bonds),
            forall|k: int| 0 <= k < place ==> canonical_le(#[trigger] bonds@[k], bond),
        ensures
            place <= bonds.len(),
            *bonds == *old(bonds),
            forall|k: int| 0 <= k < place ==> canonical_le(#[trigger] bonds@[k], bond),
            place < bonds.len() ==> !canonical_le(bonds@[place as int], bond),
        decreases bonds.len() - place,
    {
        if !bonds[place].precedes(&bond) {
            break;
        }
        place += 1;
    }
    proof {
        to_multiset_insert(bonds@, place as int, bond);
        let after = bonds@.insert(place as int, bond);
        assert forall|i: int, j: int| 0 <= i < j < after.len() implies canonical_le(
            #[trigger] after[i],
            #[trigger] after[j],
        ) by {
            if j < place {
                assert(canonical_le(bonds@[i], bonds@[j]));
            } else if j == place {
                assert(canonical_le(bonds@[i], bond));
            } else if i < place {
                assert(canonical_le(bonds@[i], bonds@[j - 1]));
            } else if i == place {
                assert(!canonical_le(bonds@[place as int], bond));
                if j - 1 > place {
                    assert(canonical_le(bonds@[place as int], bonds@[j - 1]));
                }
            } else {
                assert(canonical_le(bonds@[i - 1], bonds@[j - 1]));
            }
        }
    }
    bonds.insert(place, bond);
}

impl Unsaturated {
    /// Whether `self` comes no later than `other` in the canonical order.
    pub fn precedes(&self, other: &Unsaturated) -> (r: bool)
        ensures
            r == canonical_le(*self, *other),
    {
        let ua: u8 = Self::kind_rank(self.unsaturation);
        let ub: u8 = Self::kind_rank(other.unsaturation);
        let ia: u8 = Self::geometry_rank(self.isomerism);
        let ib: u8 = Self::geometry_rank(other.isomerism);
        let xa: u16 = Self::position_rank(self.index);
        let xb: u16 = Self::position_rank(other.index);
        ua < ub || (ua == ub && (ia < ib || (ia == ib && xa <= xb)))
    }

    fn kind_rank(unsaturation: Option<Unsaturation>) -> (r: u8)
        ensures
            r == unsaturation_rank(unsaturation),
    {
        match unsaturation {
            None => 0,
            Some(Unsaturation::One) => 1,
            Some(Unsaturation::Two) => 2,
        }
    }

    fn geometry_rank(isomerism: Option<Isomerism>) -> (r: u8)
        ensures
            r == isomerism_rank(isomerism),
    {
        match isomerism {
            None => 0,
            Some(Isomerism::Trans) => 1,
            Some(Isomerism::Cis) => 2,
        }
    }

    fn position_rank(index: Option<u8>) -> (r: u16)
        ensures
            r == index_rank(index),
    {
        match index {
            None => 0,
            Some(i) => i as u16 + 1,
        }
    }

    /// Degrees of unsaturation of this bond.
    pub fn degree(&self) -> (d: u8)
        ensures
            d == degree(*self),
    {
        match self.unsaturation {
            Some(Unsaturation::Two) => 2,
            _ => 1,
        }
    }
}

impl FattyAcid {
    /// A saturated fatty acid of `carbons` atoms.
    pub fn new(carbons: u8) -> (r: Self)
        requires
            carbons >= 1,
        ensures
            r.carbons == carbons,
            r.unsaturated@ == Seq::<Unsaturated>::empty(),
            r.valid(),
    {
        FattyAcid { carbons, unsaturated: Vec::new() }
    }

    /// A record as the data model wants it: at least one carbon, every bond
    /// inside the chain, the bonds in canonical order.
    pub open spec fn valid(&self) -> bool {
        &&& self.carbons >= 1
        &&& forall|k: int| 0 <= k < self.unsaturated@.len() ==> interior(#[trigger] self.unsaturated@[k], self.carbons)
        &&& is_canonical(self.unsaturated@)
    }

    /// Brings the bonds into canonical order.
    pub fn sort(&mut self)
        ensures
            final(self).carbons == old(self).carbons,
            final(self).unsaturated@ == canonical(old(self).unsaturated@),
    {
        let mut arranged: Vec<Unsaturated> = Vec::new();
        let mut i: usize = 0;
        assert(self.unsaturated@.take(0) == arranged@);
        while i < self.unsaturated.len()
            invariant
                i <= self.unsaturated.len(),
                *self == *old(self),
                is_canonical(arranged@),
                arranged@.to_multiset() == self.unsaturated@.take(i as int).to_multiset(),
            decreases self.unsaturated.len() - i,
        {
            let bond = self.unsaturated[i];
            insert_in_order(&mut arranged, bond);
            proof {
                assert(self.unsaturated@.take(i + 1) == self.unsaturated@.take(i as int).push(bond));
                to_multiset_build(self.unsaturated@.take(i as int), bond);
            }
            i += 1;
        }
        proof {
            assert(self.unsaturated@.take(i as int) == self.unsaturated@);
            lemma_canonical_unique(arranged@, self.unsaturated@);
        }
        self.unsaturated = arranged;
    }

    /// Adds a bond and brings the bonds back into canonical order. A bond
    /// whose position is zero, the last carbon or beyond the chain is refused
    /// and the record stays as it was.
    pub fn push_bond(&mut self, bond: Unsaturated) -> (r: Result<(), StructuralError>)
        ensures
            r == bond_check(bond, old(self).carbons),
            final(self).carbons == old(self).carbons,
            r is Err ==> final(self).unsaturated@ == old(self).unsaturated@,
            r is Ok ==> final(self).unsaturated@ == canonical(old(self).unsaturated@.push(bond)),
            r is Ok ==> is_canonical(final(self).unsaturated@),
            r is Ok && old(self).valid() ==> final(self).valid(),
    {
        match bond.index {
            Some(i) => {
                if i == 0 {
                    return Err(StructuralError::ZeroIndex);
                }
                if i >= self.carbons {
                    return Err(StructuralError::IndexBeyondChain);
                }
            },
            None => {},
        }
        self.unsaturated.push(bond);
        self.sort();
        proof {
            let pushed = old(self).unsaturated@.push(bond);
            lemma_canonical_ensures(pushed);
            if old(self).valid() {
                lemma_bonds_kept(pushed, self.carbons);
            }
        }
        Ok(())
    }

    /// A fatty acid of `carbons` atoms with the given bonds, brought into
    /// canonical order. An empty chain is refused, and so is the first bond
    /// whose position does not lie inside the chain.
    pub fn from_bonds(carbons: u8, bonds: Vec<Unsaturated>) -> (r: Result<Self, StructuralError>)
        ensures
            match r {
                Ok(acid) => record_check(carbons, bonds@) is Ok && acid.carbons == carbons
                    && acid.unsaturated@ == canonical(bonds@) && acid.valid(),
                Err(e) => record_check(carbons, bonds@) == Err::<(), StructuralError>(e),
            },
    {
        if carbons == 0 {
            return Err(StructuralError::NoCarbons);
        }
        let mut i: usize = 0;
        while i < bonds.len()
            invariant
                i <= bonds.len(),
                carbons >= 1,
                bonds_check(bonds@.take(i as int), carbons) is Ok,
                forall|k: int| 0 <= k < i ==> interior(#[trigger] bonds@[k], carbons),
            decreases bonds.len() - i,
        {
            proof {
                assert(bonds@.take(i + 1).drop_last() == bonds@.take(i as int));
            }
            match bonds[i].index {
                Some(at) => {
                    if at == 0 || at >= carbons {
                        proof {
                            lemma_bonds_check_failure(bonds@, carbons, i as int);
                        }
                        return Err(
                            if at == 0 {
                                StructuralError::ZeroIndex
                            } else {
                                StructuralError::IndexBeyondChain
                            },
                        );
                    }
                },
                None => {},
            }
            i += 1;
        }
        proof {
            assert(bonds@.take(i as int) == bonds@);
            lemma_bonds_kept(bonds@, carbons);
            lemma_canonical_ensures(bonds@);
        }
        let mut acid = FattyAcid { carbons, unsaturated: bonds };
        acid.sort();
        Ok(acid)
    }

    /// A fatty acid from signed positions: `doubles` are the double bonds,
    /// `triples` the triple bonds; a negative position is a trans bond at its
    /// absolute value, a positive one a cis bond. The bonds are brought into
    /// canonical order. An empty chain is refused, and so is the first
    /// position, the doubles before the triples, that is zero or does not
    /// lie inside the chain.
    pub fn from_locants(carbons: u8, doubles: &Vec<i16>, triples: &Vec<i16>) -> (r: Result<
        Self,
        StructuralError,
    >)
        ensures
            match r {
                Ok(acid) => carbons >= 1 && locants_check(carbons, doubles@ + triples@) is Ok
                    && acid.carbons == carbons && acid.unsaturated@ == canonical(
                    locant_bonds(doubles@, Unsaturation::One) + locant_bonds(
                        triples@,
                        Unsaturation::Two,
                    ),
                ) && acid.valid(),
                Err(e) => if carbons == 0 {
                    e == StructuralError::NoCarbons
                } else {
                    locants_check(carbons, doubles@ + triples@) == Err::<(), StructuralError>(e)
                },
            },
    {
        if carbons == 0 {
            return Err(StructuralError::NoCarbons);
        }
        let ghost all = doubles@ + triples@;
        let mut bonds: Vec<Unsaturated> = Vec::new();
        let mut i: usize = 0;
        assert(locant_bonds(doubles@.take(0), Unsaturation::One) == bonds@);
        while i < doubles.len()
            invariant
                i <= doubles.len(),
                carbons >= 1,
                all == doubles@ + triples@,
                locants_check(carbons, all.take(i as int)) is Ok,
                bonds@ == locant_bonds(doubles@.take(i as int), Unsaturation::One),
                forall|k: int| 0 <= k < bonds@.len() ==> interior(#[trigger] bonds@[k], carbons),
            decreases doubles.len() - i,
        {
            proof {
                assert(all.take(i + 1).drop_last() == all.take(i as int));
                assert(all[i as int] == doubles@[i as int]);
            }
            match Self::locant_bond(carbons, doubles[i], Unsaturation::One) {
                Ok(bond) => {
                    bonds.push(bond);
                },
                Err(e) => {
                    proof {
                        lemma_locants_check_failure(carbons, all, i as int);
                    }
                    return Err(e);
                },
            }
            assert(bonds@ == locant_bonds(doubles@.take(i + 1), Unsaturation::One));
            i += 1;
        }
        let ghost first = bonds@;
        let mut j: usize = 0;
        proof {
            assert(doubles@.take(i as int) == doubles@);
            assert(bonds@ == first + locant_bonds(triples@.take(0), Unsaturation::Two));
        }
        while j < triples.len()
            invariant
                j <= triples.len(),
                carbons >= 1,
                all == doubles@ + triples@,
                first == locant_bonds(doubles@, Unsaturation::One),
                locants_check(carbons, all.take(doubles@.len() + j)) is Ok,
                bonds@ == first + locant_bonds(triples@.take(j as int), Unsaturation::Two),
                forall|k: int| 0 <= k < bonds@.len() ==> interior(#[trigger] bonds@[k], carbons),
            decreases triples.len() - j,
        {
            proof {
                assert(all.take(doubles@.len() + j + 1).drop_last() == all.take(doubles@.len() + j));
                assert(all[doubles@.len() + j] == triples@[j as int]);
            }
            match Self::locant_bond(carbons, triples[j], Unsaturation::Two) {
                Ok(bond) => {
                    bonds.push(bond);
                },
                Err(e) => {
                    proof {
                        lemma_locants_check_failure(carbons, all, doubles@.len() + j);
                    }
                    return Err(e);
                },
            }
            assert(bonds@ == first + locant_bonds(triples@.take(j + 1), Unsaturation::Two));
            j += 1;
        }
        proof {
            assert(triples@.take(j as int) == triples@);
            assert(all.take(doubles@.len() + j) == all);
            lemma_bonds_kept(bonds@, carbons);
            lemma_canonical_ensures(bonds@);
        }
        let mut acid = FattyAcid { carbons, unsaturated: bonds };
        acid.sort();
        Ok(acid)
    }

    /// The bond that a signed position stands for, where the position may
    /// stand on the chain.
    fn locant_bond(carbons: u8, locant: i16, unsaturation: Unsaturation) -> (r: Result<
        Unsaturated,
        StructuralError,
    >)
        ensures
            match r {
                Ok(bond) => locant_check(carbons, locant) is Ok && bond == locant_bond(
                    locant,
                    unsaturation,
                ) && interior(bond, carbons),
                Err(e) => locant_check(carbons, locant) == Err::<(), StructuralError>(e),
            },
    {
        if locant == 0 {
            return Err(StructuralError::ZeroIndex);
        }
        let wide: i16 = carbons as i16;
        if locant >= wide || locant <= -wide {
            return Err(StructuralError::IndexBeyondChain);
        }
        if locant > 0 {
            let index: u8 = locant as u8;
            Ok(
                Unsaturated {
                    index: Some(index),
                    isomerism: Some(Isomerism::Cis),
                    unsaturation: Some(unsaturation),
                },
            )
        } else {
            let index: u8 = (-locant) as u8;
            Ok(
                Unsaturated {
                    index: Some(index),
                    isomerism: Some(Isomerism::Trans),
                    unsaturation: Some(unsaturation),
                },
            )
        }
    }

    /// Number of carbon atoms.
    pub fn carbons(&self) -> (c: u8)
        ensures
            c == self.carbons,
    {
        self.carbons
    }

    /// Number of carbon-carbon bonds: one less than the carbons, and none for
    /// an empty chain.
    pub fn bounds(&self) -> (b: u8)
        ensures
            b == bounds_of(self.carbons),
    {
        if self.carbons >= 1 {
            self.carbons - 1
        } else {
            0
        }
    }

    /// Degrees of unsaturation `U`: one for each double bond and two for each
    /// triple bond.
    pub fn unsaturation_count(&self) -> (u: u128)
        ensures
            u == unsaturation_of(self.unsaturated@),
            u <= 2 * usize::MAX,
    {
        let mut u: u128 = 0;
        let mut i: usize = 0;
        while i < self.unsaturated.len()
            invariant
                i <= self.unsaturated.len(),
                u == unsaturation_of(self.unsaturated@.take(i as int)),
                u <= 2 * i,
            decreases self.unsaturated.len() - i,
        {
            proof {
                assert(self.unsaturated@.take(i + 1).drop_last() == self.unsaturated@.take(i as int));
            }
            let d: u8 = self.unsaturated[i].degree();
            u = u + d as u128;
            i += 1;
        }
        proof {
            assert(self.unsaturated@.take(i as int) == self.unsaturated@);
        }
        u
    }

    /// Number of hydrogen atoms, `H = 2C - 2U`.
    pub fn hydrogens(&self) -> (h: i128)
        ensures
            h == hydrogens_of(self.carbons, unsaturation_of(self.unsaturated@)),
    {
        let u: u128 = self.unsaturation_count();
        2 * (self.carbons as i128) - 2 * (u as i128)
    }

    /// Equivalent carbon number, `ECN = C - 2U`.
    pub fn equivalent_carbon_number(&self) -> (ecn: i128)
        ensures
            ecn == ecn_of(self.carbons, unsaturation_of(self.unsaturated@)),
    {
        let u: u128 = self.unsaturation_count();
        (self.carbons as i128) - 2 * (u as i128)
    }

    /// Whether the chain has no unsaturated bond, `U = 0`.
    pub fn saturated(&self) -> (s: bool)
        ensures
            s == (unsaturation_of(self.unsaturated@) == 0),
    {
        proof {
            lemma_unsaturation_bound(self.unsaturated@);
        }
        self.unsaturated.len() == 0
    }
}

/// Carbon-carbon bonds of a chain of `carbons` atoms.
pub open spec fn bounds_of(carbons: u8) -> int {
    if carbons >= 1 {
        carbons - 1
    } else {
        0
    }
}

/// `H = 2C - 2U`.
pub open spec fn hydrogens_of(carbons: u8, unsaturation: nat) -> int {
    2 * carbons - 2 * unsaturation
}

/// `ECN = C - 2U`.
pub open spec fn ecn_of(carbons: u8, unsaturation: nat) -> int {
    carbons - 2 * unsaturation
}

/// Whether every bond of a list may sit on a chain of `carbons` atoms: the
/// error of the first bond that may not.
pub open spec fn bonds_check(bonds: Seq<Unsaturated>, carbons: u8) -> Result<(), StructuralError>
    decreases bonds.len(),
{
    if bonds.len() == 0 {
        Ok(())
    } else {
        match bonds_check(bonds.drop_last(), carbons) {
            Err(e) => Err(e),
            Ok(_) => bond_check(bonds.last(), carbons),
        }
    }
}

/// Whether a chain of `carbons` atoms with the bonds of `bonds` is a fatty
/// acid: the chain is not empty and every bond lies inside it.
pub open spec fn record_check(carbons: u8, bonds: Seq<Unsaturated>) -> Result<(), StructuralError> {
    if carbons == 0 {
        Err(StructuralError::NoCarbons)
    } else {
        bonds_check(bonds, carbons)
    }
}

/// Where the bonds before `i` are accepted and the one at `i` is refused, the
/// list is refused with the error of that bond.
pub proof fn lemma_bonds_check_failure(bonds: Seq<Unsaturated>, carbons: u8, i: int)
    requires
        0 <= i < bonds.len(),
        bonds_check(bonds.take(i), carbons) is Ok,
        bond_check(bonds[i], carbons) is Err,
    ensures
        bonds_check(bonds, carbons) == bond_check(bonds[i], carbons),
    decreases bonds.len(),
{
    if i == bonds.len() - 1 {
        assert(bonds.drop_last() == bonds.take(i));
    } else {
        assert(bonds.drop_last().take(i) == bonds.take(i));
        lemma_bonds_check_failure(bonds.drop_last(), carbons, i);
    }
}

/// A list is accepted exactly when each of its bonds lies inside the chain.
pub proof fn lemma_bonds_check_ok(bonds: Seq<Unsaturated>, carbons: u8)
    ensures
        bonds_check(bonds, carbons) is Ok <==> forall|k: int|
            0 <= k < bonds.len() ==> interior(#[trigger] bonds[k], carbons),
    decreases bonds.len(),
{
    if bonds.len() > 0 {
        lemma_bonds_check_ok(bonds.drop_last(), carbons);
        if bonds_check(bonds, carbons) is Ok {
            assert forall|k: int| 0 <= k < bonds.len() implies interior(#[trigger] bonds[k], carbons) by {
                if k < bonds.len() - 1 {
                    assert(bonds.drop_last()[k] == bonds[k]);
                }
            }
        }
        if forall|k: int| 0 <= k < bonds.len() ==> interior(#[trigger] bonds[k], carbons) {
            assert forall|k: int| 0 <= k < bonds.drop_last().len() implies interior(
                #[trigger] bonds.drop_last()[k],
                carbons,
            ) by {
                assert(bonds.drop_last()[k] == bonds[k]);
            }
            assert(interior(bonds[bonds.len() - 1], carbons));
        }
    }
}

/// Whether a signed position may stand on a chain of `carbons` atoms: it is
/// not zero and its absolute value lies inside the chain.
pub open spec fn locant_check(carbons: u8, locant: i16) -> Result<(), StructuralError> {
    if locant == 0 {
        Err(StructuralError::ZeroIndex)
    } else if locant >= carbons || -locant >= carbons {
        Err(StructuralError::IndexBeyondChain)
    } else {
        Ok(())
    }
}

/// Whether every signed position of a list may stand on a chain of `carbons`
/// atoms: the error of the first one that may not.
pub open spec fn locants_check(carbons: u8, locants: Seq<i16>) -> Result<(), StructuralError>
    decreases locants.len(),
{
    if locants.len() == 0 {
        Ok(())
    } else {
        match locants_check(carbons, locants.drop_last()) {
            Err(e) => Err(e),
            Ok(_) => locant_check(carbons, locants.last()),
        }
    }
}

/// The bond that a signed position stands for: a trans bond at the absolute
/// value of a negative position, a cis bond at a positive one.
pub open spec fn locant_bond(locant: i16, unsaturation: Unsaturation) -> Unsaturated {
    if locant < 0 {
        Unsaturated {
            index: Some((-locant) as u8),
            isomerism: Some(Isomerism::Trans),
            unsaturation: Some(unsaturation),
        }
    } else {
        Unsaturated {
            index: Some(locant as u8),
            isomerism: Some(Isomerism::Cis),
            unsaturation: Some(unsaturation),
        }
    }
}

/// The bonds that the signed positions of a list stand for, in the order of
/// the list.
pub open spec fn locant_bonds(locants: Seq<i16>, unsaturation: Unsaturation) -> Seq<Unsaturated> {
    Seq::new(locants.len(), |k: int| locant_bond(locants[k], unsaturation))
}

/// Where the positions before `i` are accepted and the one at `i` is refused,
/// the list is refused with the error of that position.
pub proof fn lemma_locants_check_failure(carbons: u8, locants: Seq<i16>, i: int)
    requires
        0 <= i < locants.len(),
        locants_check(carbons, locants.take(i)) is Ok,
        locant_check(carbons, locants[i]) is Err,
    ensures
        locants_check(carbons, locants) == locant_check(carbons, locants[i]),
    decreases locants.len(),
{
    if i == locants.len() - 1 {
        assert(locants.drop_last() == locants.take(i));
    } else {
        assert(locants.drop_last().take(i) == locants.take(i));
        lemma_locants_check_failure(carbons, locants.drop_last(), i);
    }
}

/// The canonical arrangement of bonds that lie inside the chain holds only
/// bonds that lie inside the chain.
pub proof fn lemma_bonds_kept(bonds: Seq<Unsaturated>, carbons: u8)
    requires
        forall|k: int| 0 <= k < bonds.len() ==> interior(#[trigger] bonds[k], carbons),
    ensures
        forall|k: int| 0 <= k < canonical(bonds).len() ==> interior(#[trigger] canonical(bonds)[k], carbons),
{
    lemma_canonical_order_total();
    bonds.lemma_sort_by_ensures(canonical_order());
    let arranged = canonical(bonds);
    assert forall|k: int| 0 <= k < arranged.len() implies interior(#[trigger] arranged[k], carbons) by {
        assert(arranged.contains(arranged[k]));
        assert(bonds.contains(arranged[k]));
        let at = choose|at: int| 0 <= at < bonds.len() && bonds[at] == arranged[k];
        assert(interior(bonds[at], carbons));
    }
}

/// The bond list of a record onto which the bonds of `bonds` were pushed one
/// by one, each push followed by the canonical re-ordering.
pub open spec fn pushed_all(bonds: Seq<Unsaturated>) -> Seq<Unsaturated>
    decreases bonds.len(),
{
    if bonds.len() == 0 {
        bonds
    } else {
        canonical(pushed_all(bonds.drop_last()).push(bonds.last()))
    }
}

/// After every push the bonds are in canonical order, and they are the
/// canonical arrangement of all that was pushed.
pub proof fn lemma_pushed_all_canonical(bonds: Seq<Unsaturated>)
    ensures
        is_canonical(pushed_all(bonds)),
        pushed_all(bonds) == canonical(bonds),
    decreases bonds.len(),
{
    lemma_canonical_ensures(bonds);
    if bonds.len() == 0 {
        assert(canonical(bonds).len() == 0);
        assert(canonical(bonds) =~= bonds);
    } else {
        let before = pushed_all(bonds.drop_last());
        lemma_pushed_all_canonical(bonds.drop_last());
        lemma_canonical_ensures(bonds.drop_last());
        lemma_canonical_ensures(before.push(bonds.last()));
        to_multiset_build(before, bonds.last());
        to_multiset_build(bonds.drop_last(), bonds.last());
        assert(bonds.drop_last().push(bonds.last()) == bonds);
        lemma_canonical_unique(pushed_all(bonds), bonds);
    }
}

/// The order of insertion does not matter: two lists that hold the same
/// bonds, pushed in whatever order, give the same bond list.
pub proof fn lemma_insertion_order_irrelevant(first: Seq<Unsaturated>, second: Seq<Unsaturated>)
    requires
        first.to_multiset() == second.to_multiset(),
    ensures
        pushed_all(first) == pushed_all(second),
        is_canonical(pushed_all(first)),
{
    lemma_pushed_all_canonical(first);
    lemma_pushed_all_canonical(second);
    lemma_canonical_ensures(first);
    lemma_canonical_unique(canonical(first), second);
}

/// `U` lies between the number of bonds and twice that number.
pub proof fn lemma_unsaturation_bound(bonds: Seq<Unsaturated>)
    ensures
        bonds.len() <= unsaturation_of(bonds) <= 2 * bonds.len(),
    decreases bonds.len(),
{
    if bonds.len() > 0 {
        lemma_unsaturation_bound(bonds.drop_last());
    }
}

} // verus!
