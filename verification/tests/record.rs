use lipid::fatty_acid::saturated_acids;
use lipid::fatty_acid::FattyAcid;
use lipid::fatty_acid::FattyAcidExt;
use lipid::fatty_acid::Isomerism;
use lipid::fatty_acid::StructuralError;
use lipid::fatty_acid::Unsaturated;
use lipid::fatty_acid::Unsaturation;

fn bond(index: u8, isomerism: Isomerism, unsaturation: Unsaturation) -> Unsaturated {
    Unsaturated {
        index: Some(index),
        isomerism: Some(isomerism),
        unsaturation: Some(unsaturation),
    }
}

#[test]
fn new_is_saturated() {
    let acid = FattyAcid::new(18);
    assert_eq!(acid.carbons(), 18);
    assert!(acid.unsaturated.is_empty());
    assert!(acid.saturated());
    assert_eq!(acid.unsaturation_count(), 0);
    assert_eq!(acid.bounds(), 17);
}

#[test]
fn hydrogens_of_stearic_acid() {
    let acid = FattyAcid::new(18);
    assert_eq!(acid.hydrogens(), 36);
    assert_eq!(acid.equivalent_carbon_number(), 18);
}

#[test]
fn mass_of_stearic_acid() {
    let (c, h, o) = (12.011_f64, 1.008_f64, 15.999_f64);
    let acid = FattyAcid::new(18);
    let mass = acid.carbons() as f64 * c + acid.hydrogens() as f64 * h + 2.0 * o;
    let expected = 18.0 * c + 36.0 * h + 2.0 * o;
    assert!((mass - expected).abs() < 1e-9);
    assert!((mass - 284.484).abs() < 1e-9);
}

#[test]
fn derived_quantities_of_linolenic_acid() {
    let acid = FattyAcid::from_locants(18, &vec![9, 12, 15], &vec![]).unwrap();
    assert_eq!(acid.unsaturation_count(), 3);
    assert_eq!(acid.hydrogens(), 30);
    assert_eq!(acid.equivalent_carbon_number(), 12);
    assert!(!acid.saturated());
    assert_eq!(acid.bounds(), 17);
}

#[test]
fn triple_bond_counts_twice() {
    let acid = FattyAcid::from_locants(18, &vec![9], &vec![12]).unwrap();
    assert_eq!(acid.unsaturated.len(), 2);
    assert_eq!(acid.unsaturation_count(), 3);
    assert_eq!(acid.hydrogens(), 30);
}

#[test]
fn unknown_kind_counts_as_double_bond() {
    let mut acid = FattyAcid::new(18);
    acid.push_bond(Unsaturated::default()).unwrap();
    assert_eq!(acid.unsaturation_count(), 1);
    assert_eq!(acid.hydrogens(), 34);
}

#[test]
fn short_names_agree() {
    let acid = FattyAcid::from_locants(18, &vec![9, -12], &vec![]).unwrap();
    assert_eq!(acid.c(), 18);
    assert_eq!(acid.b(), 17);
    assert_eq!(acid.u(), 2);
    assert_eq!(acid.h(), 32);
    assert_eq!(acid.ecn(), 14);
    assert!(!acid.s());
}

#[test]
fn push_rejects_index_zero() {
    let mut acid = FattyAcid::new(18);
    let bond = bond(0, Isomerism::Cis, Unsaturation::One);
    assert_eq!(acid.push_bond(bond), Err(StructuralError::ZeroIndex));
    assert!(acid.unsaturated.is_empty());
}

#[test]
fn push_rejects_index_at_last_carbon() {
    let mut acid = FattyAcid::new(18);
    let bond = bond(18, Isomerism::Cis, Unsaturation::One);
    assert_eq!(acid.push_bond(bond), Err(StructuralError::IndexBeyondChain));
    assert!(acid.unsaturated.is_empty());
}

#[test]
fn push_rejects_index_beyond_chain() {
    let mut acid = FattyAcid::new(18);
    let bond = bond(19, Isomerism::Cis, Unsaturation::One);
    assert_eq!(acid.push_bond(bond), Err(StructuralError::IndexBeyondChain));
    assert!(acid.unsaturated.is_empty());
}

#[test]
fn push_accepts_interior_index() {
    let mut acid = FattyAcid::new(18);
    let bond = bond(9, Isomerism::Cis, Unsaturation::One);
    assert_eq!(acid.push_bond(bond), Ok(()));
    assert_eq!(acid.unsaturated, vec![bond]);
}

#[test]
fn push_accepts_unknown_index() {
    let mut acid = FattyAcid::new(2);
    assert_eq!(acid.push_bond(Unsaturated::default()), Ok(()));
    assert_eq!(acid.unsaturated.len(), 1);
}

#[test]
fn insertion_order_does_not_matter() {
    let bonds = [
        bond(9, Isomerism::Cis, Unsaturation::One),
        bond(12, Isomerism::Trans, Unsaturation::One),
        bond(15, Isomerism::Cis, Unsaturation::Two),
        Unsaturated::default(),
    ];
    let orders: [[usize; 4]; 6] = [
        [0, 1, 2, 3],
        [3, 2, 1, 0],
        [1, 0, 3, 2],
        [2, 3, 0, 1],
        [1, 3, 0, 2],
        [3, 0, 2, 1],
    ];
    let mut first: Option<FattyAcid> = None;
    for order in orders {
        let mut acid = FattyAcid::new(18);
        for k in order {
            acid.push_bond(bonds[k]).unwrap();
        }
        match &first {
            None => first = Some(acid),
            Some(expected) => assert_eq!(&acid, expected),
        }
    }
}

#[test]
fn canonical_order_is_kind_then_geometry_then_index() {
    let mut acid = FattyAcid::new(18);
    let triple = bond(3, Isomerism::Trans, Unsaturation::Two);
    let cis_low = bond(6, Isomerism::Cis, Unsaturation::One);
    let trans_high = bond(15, Isomerism::Trans, Unsaturation::One);
    let trans_low = bond(12, Isomerism::Trans, Unsaturation::One);
    let unknown = Unsaturated::default();
    let no_geometry = Unsaturated {
        index: Some(17),
        isomerism: None,
        unsaturation: Some(Unsaturation::One),
    };
    for b in [triple, cis_low, trans_high, no_geometry, trans_low, unknown] {
        acid.push_bond(b).unwrap();
    }
    assert_eq!(
        acid.unsaturated,
        vec![unknown, no_geometry, trans_low, trans_high, cis_low, triple]
    );
}

#[test]
fn precedes_is_the_canonical_order() {
    let double = bond(9, Isomerism::Cis, Unsaturation::One);
    let triple = bond(3, Isomerism::Cis, Unsaturation::Two);
    assert!(double.precedes(&triple));
    assert!(!triple.precedes(&double));
    assert!(double.precedes(&double));
    assert!(Unsaturated::default().precedes(&double));
}

#[test]
fn sort_brings_bonds_into_canonical_order() {
    let low = bond(9, Isomerism::Cis, Unsaturation::One);
    let high = bond(12, Isomerism::Cis, Unsaturation::One);
    let mut acid = FattyAcid {
        carbons: 18,
        unsaturated: vec![high, low, high],
    };
    acid.sort();
    assert_eq!(acid.carbons, 18);
    assert_eq!(acid.unsaturated, vec![low, high, high]);
}

#[test]
fn from_bonds_validates_and_sorts() {
    let low = bond(9, Isomerism::Cis, Unsaturation::One);
    let high = bond(12, Isomerism::Cis, Unsaturation::One);
    let acid = FattyAcid::from_bonds(18, vec![high, low]).unwrap();
    assert_eq!(acid.unsaturated, vec![low, high]);
    assert_eq!(
        FattyAcid::from_bonds(0, vec![]).unwrap_err(),
        StructuralError::NoCarbons
    );
    let zero = bond(0, Isomerism::Cis, Unsaturation::One);
    let beyond = bond(18, Isomerism::Cis, Unsaturation::One);
    assert_eq!(
        FattyAcid::from_bonds(18, vec![low, beyond, zero]).unwrap_err(),
        StructuralError::IndexBeyondChain
    );
    assert_eq!(
        FattyAcid::from_bonds(18, vec![zero, beyond]).unwrap_err(),
        StructuralError::ZeroIndex
    );
}

#[test]
fn from_locants_reads_sign_as_geometry() {
    let acid = FattyAcid::from_locants(18, &vec![-9, 12], &vec![15]).unwrap();
    assert_eq!(
        acid.unsaturated,
        vec![
            bond(9, Isomerism::Trans, Unsaturation::One),
            bond(12, Isomerism::Cis, Unsaturation::One),
            bond(15, Isomerism::Cis, Unsaturation::Two),
        ]
    );
}

#[test]
fn from_locants_rejects_what_push_rejects() {
    assert_eq!(
        FattyAcid::from_locants(0, &vec![], &vec![]).unwrap_err(),
        StructuralError::NoCarbons
    );
    assert_eq!(
        FattyAcid::from_locants(18, &vec![0], &vec![]).unwrap_err(),
        StructuralError::ZeroIndex
    );
    assert_eq!(
        FattyAcid::from_locants(18, &vec![18], &vec![]).unwrap_err(),
        StructuralError::IndexBeyondChain
    );
    assert_eq!(
        FattyAcid::from_locants(18, &vec![9], &vec![-19]).unwrap_err(),
        StructuralError::IndexBeyondChain
    );
    assert_eq!(
        FattyAcid::from_locants(18, &vec![9, 19], &vec![0]).unwrap_err(),
        StructuralError::IndexBeyondChain
    );
}

#[test]
fn equality_needs_carbons_and_bonds() {
    let a = FattyAcid::from_locants(18, &vec![9, 12], &vec![]).unwrap();
    let b = FattyAcid::from_locants(18, &vec![12, 9], &vec![]).unwrap();
    let c = FattyAcid::from_locants(20, &vec![9, 12], &vec![]).unwrap();
    let d = FattyAcid::from_locants(18, &vec![9], &vec![]).unwrap();
    let e = FattyAcid::from_locants(18, &vec![9, -12], &vec![]).unwrap();
    assert!(a == b);
    assert!(a != c);
    assert!(a != d);
    assert!(a != e);
    assert!(a.clone() == a);
}

#[test]
fn isomerism_codes() {
    assert_eq!(Isomerism::try_from(1i8), Ok(Isomerism::Cis));
    assert_eq!(Isomerism::try_from(127i8), Ok(Isomerism::Cis));
    assert_eq!(Isomerism::try_from(-1i8), Ok(Isomerism::Trans));
    assert_eq!(Isomerism::try_from(-128i8), Ok(Isomerism::Trans));
    assert_eq!(Isomerism::try_from(0i8), Err(0));
    assert_eq!(i8::from(Isomerism::Cis), 1);
    assert_eq!(i8::from(Isomerism::Trans), -1);
}

#[test]
fn unsaturation_codes() {
    assert_eq!(Unsaturation::try_from(1u8), Ok(Unsaturation::One));
    assert_eq!(Unsaturation::try_from(2u8), Ok(Unsaturation::Two));
    assert_eq!(Unsaturation::try_from(0u8), Err(0));
    assert_eq!(Unsaturation::try_from(3u8), Err(3));
    assert_eq!(u8::from(Unsaturation::One), 1);
    assert_eq!(u8::from(Unsaturation::Two), 2);
    assert_eq!(Unsaturation::default(), Unsaturation::One);
}

#[test]
fn saturated_table_runs_from_two_to_thirty_two() {
    let table = saturated_acids();
    assert_eq!(table.len(), 16);
    for (k, acid) in table.iter().enumerate() {
        assert_eq!(acid.carbons as usize, 2 * (k + 1));
        assert!(acid.unsaturated.is_empty());
    }
    assert_eq!(table[8], FattyAcid::new(18));
}

#[test]
fn isomerism_orders_trans_before_cis() {
    assert!(Isomerism::Trans < Isomerism::Cis);
    assert!(None < Some(Isomerism::Trans));
    assert_eq!(Isomerism::Cis.max(Isomerism::Trans), Isomerism::Cis);
}

#[test]
fn unsaturation_orders_one_before_two() {
    assert!(Unsaturation::One < Unsaturation::Two);
    assert!(None < Some(Unsaturation::One));
}

#[test]
fn derived_order_agrees_with_the_canonical_order() {
    let bonds = [
        Unsaturated::default(),
        bond(12, Isomerism::Trans, Unsaturation::One),
        bond(9, Isomerism::Cis, Unsaturation::One),
        bond(3, Isomerism::Trans, Unsaturation::Two),
        Unsaturated {
            index: None,
            isomerism: Some(Isomerism::Cis),
            unsaturation: None,
        },
    ];
    for a in bonds {
        for b in bonds {
            let by_key =
                (a.unsaturation, a.isomerism, a.index) <= (b.unsaturation, b.isomerism, b.index);
            assert_eq!(a.precedes(&b), by_key);
        }
    }
}

#[test]
fn default_record_is_empty() {
    let acid = FattyAcid::default();
    assert_eq!(acid.carbons, 0);
    assert!(acid.unsaturated.is_empty());
    assert_eq!(acid.bounds(), 0);
}
