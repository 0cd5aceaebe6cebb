//! Nomenclature of a fatty acid: the record written out under a notation.

use crate::fatty_acid::FattyAcid;
use crate::fatty_acid::Isomerism;
use crate::fatty_acid::Unsaturated;
use vstd::prelude::*;
use vstd::string::StringExecFns;

verus! {

/// Where the geometry marker of a bond stands: before or after its position.
#[derive(Clone, Copy, Debug, PartialEq, Eq, PartialOrd, Ord, Structural)]
pub enum Notation {
    Prefix,
    Suffix,
}

/// Whether the usual geometry, cis, is written out or left out. Trans is
/// always written.
#[derive(Clone, Copy, Debug, PartialEq, Eq, PartialOrd, Ord, Structural)]
pub enum Elision {
    Explicit,
    Implicit,
}

impl Default for Elision {
    fn default() -> (r: Self)
        ensures
            r == Elision::Implicit,
    {
        Elision::Implicit
    }
}

/// The fragments between the numbers: `c` before the carbons, `u` before the
/// number of bonds, `i[0]` before the first position and `i[1]` before each
/// further one.
#[derive(Clone, Copy, Debug, PartialEq, Eq, PartialOrd, Ord)]
pub struct Separators {
    pub c: &'static str,
    pub u: &'static str,
    pub i: [&'static str; 2],
}

/// A notation.
#[derive(Clone, Copy, Debug, PartialEq, Eq, PartialOrd, Ord)]
pub struct Options {
    pub separators: Separators,
    pub notation: Notation,
    pub elision: Elision,
}

/// The notation of identifiers, as in `c18u1c9`: the geometry before the
/// position, cis written out.
pub fn id() -> (options: Options)
    ensures
        options.separators.c@ == seq!['c'],
        options.separators.u@ == seq!['u'],
        options.separators.i[0]@ == Seq::<char>::empty(),
        options.separators.i[1]@ == Seq::<char>::empty(),
        options.notation == Notation::Prefix,
        options.elision == Elision::Explicit,
{
    proof {
        reveal_strlit("c");
        reveal_strlit("u");
        reveal_strlit("");
    }
    let options = Options {
        separators: Separators { c: "c", u: "u", i: ["", ""] },
        notation: Notation::Prefix,
        elision: Elision::Explicit,
    };
    assert(options.separators.c@ =~= seq!['c']);
    assert(options.separators.u@ =~= seq!['u']);
    assert(options.separators.i[0]@ =~= Seq::<char>::empty());
    assert(options.separators.i[1]@ =~= Seq::<char>::empty());
    options
}

/// The common notation, as in `18:1Δ9`: the geometry after the position,
/// cis left out.
pub fn common() -> (options: Options)
    ensures
        options.separators.c@ == Seq::<char>::empty(),
        options.separators.u@ == seq![':'],
        options.separators.i[0]@ == seq!['Δ'],
        options.separators.i[1]@ == seq![','],
        options.notation == Notation::Suffix,
        options.elision == Elision::Implicit,
{
    proof {
        reveal_strlit("");
        reveal_strlit(":");
        reveal_strlit("Δ");
        reveal_strlit(",");
    }
    let options = Options {
        separators: Separators { c: "", u: ":", i: ["Δ", ","] },
        notation: Notation::Suffix,
        elision: Elision::Implicit,
    };
    assert(options.separators.c@ =~= Seq::<char>::empty());
    assert(options.separators.u@ =~= seq![':']);
    assert(options.separators.i[0]@ =~= seq!['Δ']);
    assert(options.separators.i[1]@ =~= seq![',']);
    options
}

/// The character of a decimal digit.
pub open spec fn digit(d: nat) -> char {
    if d == 0 {
        '0'
    } else if d == 1 {
        '1'
    } else if d == 2 {
        '2'
    } else if d == 3 {
        '3'
    } else if d == 4 {
        '4'
    } else if d == 5 {
        '5'
    } else if d == 6 {
        '6'
    } else if d == 7 {
        '7'
    } else if d == 8 {
        '8'
    } else {
        '9'
    }
}

/// A number in decimal, without leading zeros.
pub open spec fn decimal(n: nat) -> Seq<char>
    decreases n,
{
    if n < 10 {
        seq![digit(n)]
    } else {
        decimal(n / 10).push(digit(n % 10))
    }
}

/// A number in decimal, with zeros in front up to `width` characters.
pub open spec fn zero_padded(n: nat, width: nat) -> Seq<char> {
    let digits = decimal(n);
    if digits.len() >= width {
        digits
    } else {
        Seq::new((width - digits.len()) as nat, |k: int| '0') + digits
    }
}

/// The geometry marker of a bond: `t` for trans, `c` for cis where cis is
/// written out, nothing where the geometry is unknown.
pub open spec fn marker(isomerism: Option<Isomerism>, elision: Elision) -> Seq<char> {
    match isomerism {
        Some(Isomerism::Trans) => seq!['t'],
        Some(Isomerism::Cis) => if elision == Elision::Explicit {
            seq!['c']
        } else {
            Seq::empty()
        },
        None => Seq::empty(),
    }
}

/// One bond written out: its position, if known, with the geometry marker
/// before or after it.
pub open spec fn locant(bond: Unsaturated, options: Options, width: nat) -> Seq<char> {
    let number = match bond.index {
        Some(i) => zero_padded(i as nat, width),
        None => Seq::empty(),
    };
    match options.notation {
        Notation::Prefix => marker(bond.isomerism, options.elision) + number,
        Notation::Suffix => number + marker(bond.isomerism, options.elision),
    }
}

/// The bonds written out in their order, each after its separator.
pub open spec fn locants(bonds: Seq<Unsaturated>, options: Options, width: nat) -> Seq<char>
    decreases bonds.len(),
{
    if bonds.len() == 0 {
        Seq::empty()
    } else {
        let separator = if bonds.len() == 1 {
            options.separators.i[0]@
        } else {
            options.separators.i[1]@
        };
        locants(bonds.drop_last(), options, width) + separator + locant(bonds.last(), options, width)
    }
}

/// A fatty acid written out: the carbons and the number of bonds, each after
/// its separator and padded with zeros to `width`; in the expanded form the
/// bonds follow.
pub open spec fn rendered(
    carbons: u8,
    bonds: Seq<Unsaturated>,
    options: Options,
    width: nat,
    expanded: bool,
) -> Seq<char> {
    let head = options.separators.c@ + zero_padded(carbons as nat, width) + options.separators.u@
        + zero_padded(bonds.len(), width);
    if expanded {
        head + locants(bonds, options, width)
    } else {
        head
    }
}

/// The text of a decimal digit.
fn digit_str(d: usize) -> (text: &'static str)
    requires
        d < 10,
    ensures
        text@ == seq![digit(d as nat)],
{
    proof {
        reveal_strlit("0");
        reveal_strlit("1");
        reveal_strlit("2");
        reveal_strlit("3");
        reveal_strlit("4");
        reveal_strlit("5");
        reveal_strlit("6");
        reveal_strlit("7");
        reveal_strlit("8");
        reveal_strlit("9");
    }
    let text = if d == 0 {
        "0"
    } else if d == 1 {
        "1"
    } else if d == 2 {
        "2"
    } else if d == 3 {
        "3"
    } else if d == 4 {
        "4"
    } else if d == 5 {
        "5"
    } else if d == 6 {
        "6"
    } else if d == 7 {
        "7"
    } else if d == 8 {
        "8"
    } else {
        "9"
    };
    assert(text@ =~= seq![digit(d as nat)]);
    text
}

/// Number of decimal digits of `n`.
fn decimal_len(n: usize) -> (len: usize)
    ensures
        len == decimal(n as nat).len(),
        1 <= len <= 20,
    decreases n,
{
    if n < 10 {
        1
    } else {
        let rest = decimal_len(n / 10);
        proof {
            lemma_decimal_len(n as nat);
        }
        rest + 1
    }
}

/// A number below ten to the `k` has at most `k` digits.
proof fn lemma_decimal_bound(n: nat, k: nat)
    requires
        k >= 1,
        n < pow10(k),
    ensures
        decimal(n).len() <= k,
    decreases k,
{
    if n >= 10 {
        assert(k >= 2) by {
            assert(pow10(1) == 10) by {
                reveal_with_fuel(pow10, 2);
            }
        }
        assert(n / 10 < pow10((k - 1) as nat));
        lemma_decimal_bound(n / 10, (k - 1) as nat);
    }
}

/// Ten to the `k`.
spec fn pow10(k: nat) -> nat
    decreases k,
{
    if k == 0 {
        1
    } else {
        10 * pow10((k - 1) as nat)
    }
}

/// A machine word has at most twenty digits.
proof fn lemma_decimal_len(n: nat)
    requires
        n <= usize::MAX,
    ensures
        decimal(n).len() <= 20,
{
    assert(pow10(20) == 100_000_000_000_000_000_000nat) by {
        reveal_with_fuel(pow10, 21);
    }
    lemma_decimal_bound(n, 20);
}

/// Writes `n` in decimal at the end of `out`.
fn push_decimal(out: &mut String, n: usize)
    ensures
        final(out)@ == old(out)@ + decimal(n as nat),
    decreases n,
{
    if n >= 10 {
        push_decimal(out, n / 10);
    }
    out.append(digit_str(n % 10));
    assert(out@ =~= old(out)@ + decimal(n as nat));
}

/// Writes `n` in decimal at the end of `out`, with zeros in front up to
/// `width` characters.
fn push_zero_padded(out: &mut String, n: usize, width: usize)
    ensures
        final(out)@ == old(out)@ + zero_padded(n as nat, width as nat),
{
    let len = decimal_len(n);
    let mut written: usize = len;
    while written < width
        invariant
            len <= written,
            len < width ==> written <= width,
            len >= width ==> written == len,
            len == decimal(n as nat).len(),
            out@ == old(out)@ + Seq::new((written - len) as nat, |k: int| '0'),
        decreases width - written,
    {
        proof {
            reveal_strlit("0");
        }
        out.append("0");
        written += 1;
        assert(out@ =~= old(out)@ + Seq::new((written - len) as nat, |k: int| '0'));
    }
    push_decimal(out, n);
    proof {
        let zeros = Seq::new((written - len) as nat, |k: int| '0');
        assert(out@ == old(out)@ + zeros + decimal(n as nat));
        if len >= width {
            assert(zeros =~= Seq::<char>::empty());
        }
        assert(out@ =~= old(out)@ + zero_padded(n as nat, width as nat));
    }
}

/// Writes the geometry marker of a bond at the end of `out`.
fn push_marker(out: &mut String, isomerism: Option<Isomerism>, elision: Elision)
    ensures
        final(out)@ == old(out)@ + marker(isomerism, elision),
{
    proof {
        reveal_strlit("t");
        reveal_strlit("c");
    }
    match isomerism {
        Some(Isomerism::Trans) => {
            out.append("t");
        },
        Some(Isomerism::Cis) => {
            if elision == Elision::Explicit {
                out.append("c");
            }
        },
        None => {},
    }
    assert(out@ =~= old(out)@ + marker(isomerism, elision));
}

/// Writes one bond at the end of `out`.
fn push_locant(out: &mut String, bond: &Unsaturated, options: &Options, width: usize)
    ensures
        final(out)@ == old(out)@ + locant(*bond, *options, width as nat),
{
    match options.notation {
        Notation::Prefix => {
            push_marker(out, bond.isomerism, options.elision);
            match bond.index {
                Some(i) => {
                    push_zero_padded(out, i as usize, width);
                },
                None => {},
            }
        },
        Notation::Suffix => {
            match bond.index {
                Some(i) => {
                    push_zero_padded(out, i as usize, width);
                },
                None => {},
            }
            push_marker(out, bond.isomerism, options.elision);
        },
    }
    assert(out@ =~= old(out)@ + locant(*bond, *options, width as nat));
}

/// Writes a fatty acid out under a notation. Each number is padded with
/// zeros to `width` characters; with `expanded` the bonds follow the counts.
/// A bond of unknown position is written with an empty position.
pub fn render(fatty_acid: &FattyAcid, options: &Options, width: usize, expanded: bool) -> (text:
    String)
    ensures
        text@ == rendered(
            fatty_acid.carbons,
            fatty_acid.unsaturated@,
            *options,
            width as nat,
            expanded,
        ),
{
    let mut out = String::new();
    out.append(options.separators.c);
    push_zero_padded(&mut out, fatty_acid.carbons as usize, width);
    out.append(options.separators.u);
    push_zero_padded(&mut out, fatty_acid.unsaturated.len(), width);
    let ghost head = out@;
    if expanded {
        let mut k: usize = 0;
        while k < fatty_acid.unsaturated.len()
            invariant
                k <= fatty_acid.unsaturated.len(),
                out@ == head + locants(fatty_acid.unsaturated@.take(k as int), *options, width as nat),
            decreases fatty_acid.unsaturated.len() - k,
        {
            let ghost before = out@;
            if k == 0 {
                out.append(options.separators.i[0]);
            } else {
                out.append(options.separators.i[1]);
            }
            push_locant(&mut out, &fatty_acid.unsaturated[k], options, width);
            proof {
                let prefix = fatty_acid.unsaturated@.take(k + 1);
                assert(prefix.drop_last() == fatty_acid.unsaturated@.take(k as int));
                assert(prefix.last() == fatty_acid.unsaturated@[k as int]);
                assert(out@ =~= head + locants(prefix, *options, width as nat));
            }
            k += 1;
        }
        proof {
            assert(fatty_acid.unsaturated@.take(k as int) == fatty_acid.unsaturated@);
        }
    }
    assert(out@ =~= rendered(
        fatty_acid.carbons,
        fatty_acid.unsaturated@,
        *options,
        width as nat,
        expanded,
    ));
    out
}

/// A fatty acid together with the notation to write it in.
#[derive(Clone, Debug)]
pub struct Display<T> {
    pub fatty_acid: T,
    pub options: Options,
}

impl<T> Display<T> {
    pub fn new(fatty_acid: T, options: Options) -> (r: Self)
        ensures
            r.fatty_acid == fatty_acid,
            r.options == options,
    {
        Display { fatty_acid, options }
    }
}

impl Display<FattyAcid> {
    /// The short form without padding: carbons and number of bonds.
    pub fn to_string(&self) -> (text: String)
        ensures
            text@ == rendered(
                self.fatty_acid.carbons,
                self.fatty_acid.unsaturated@,
                self.options,
                0,
                false,
            ),
    {
        render(&self.fatty_acid, &self.options, 0, false)
    }

    /// The form with numbers padded to `width`, and with the bonds where
    /// `expanded` is set.
    pub fn format(&self, width: usize, expanded: bool) -> (text: String)
        ensures
            text@ == rendered(
                self.fatty_acid.carbons,
                self.fatty_acid.unsaturated@,
                self.options,
                width as nat,
                expanded,
            ),
    {
        render(&self.fatty_acid, &self.options, width, expanded)
    }
}

impl<'a> Display<&'a FattyAcid> {
    /// The short form without padding: carbons and number of bonds.
    pub fn to_string(&self) -> (text: String)
        ensures
            text@ == rendered(
                self.fatty_acid.carbons,
                self.fatty_acid.unsaturated@,
                self.options,
                0,
                false,
            ),
    {
        render(self.fatty_acid, &self.options, 0, false)
    }

    /// The form with numbers padded to `width`, and with the bonds where
    /// `expanded` is set.
    pub fn format(&self, width: usize, expanded: bool) -> (text: String)
        ensures
            text@ == rendered(
                self.fatty_acid.carbons,
                self.fatty_acid.unsaturated@,
                self.options,
                width as nat,
                expanded,
            ),
    {
        render(self.fatty_acid, &self.options, width, expanded)
    }
}

/// Pairs a fatty acid with a notation.
pub trait DisplayWithOptions {
    fn display(self, options: Options) -> Display<Self> where Self: Sized;
}

impl DisplayWithOptions for FattyAcid {
    fn display(self, options: Options) -> (r: Display<FattyAcid>)
        ensures
            r.fatty_acid == self,
            r.options == options,
    {
        Display::new(self, options)
    }
}

impl<'a> DisplayWithOptions for &'a FattyAcid {
    fn display(self, options: Options) -> (r: Display<&'a FattyAcid>)
        ensures
            r.fatty_acid == self,
            r.options == options,
    {
        Display::new(self, options)
    }
}

} // verus!
