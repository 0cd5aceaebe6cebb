use lipid::expr::filter::Filter;
use lipid::expr::filter::Ratio;
use lipid::expr::find::Find;
use lipid::expr::find::FindByName;
use lipid::expr::short::FattyAcidExt;
use lipid::expr::sum_of;
use lipid::expr::sum_present;
use lipid::expr::Class;
use lipid::expr::ExprExt;
use lipid::expr::FattyAcidExpr;
use lipid::fatty_acid::FattyAcid;
use lipid::fatty_acid::Unsaturated;
use lipid::series::FattyAcidSeries;
use polars::prelude::IntoSeries;
use polars::prelude::NamedFrom;
use polars::prelude::Series;
use polars::prelude::StructChunked;

fn acid(carbons: u8, doubles: &[i16]) -> Option<FattyAcid> {
    Some(FattyAcid::from_locants(carbons, &doubles.to_vec(), &vec![]).unwrap())
}

fn value(ratio: Option<Ratio>) -> Option<f64> {
    ratio.map(|r| r.numerator as f64 / r.denominator as f64)
}

fn two_rows() -> (FattyAcidExpr, Vec<Option<u32>>) {
    let records = vec![acid(12, &[]), acid(18, &[9])];
    (FattyAcidExpr::new(records), vec![Some(10), Some(5)])
}

fn profile() -> (FattyAcidExpr, Vec<Option<u32>>) {
    let records = vec![
        acid(12, &[]),
        acid(14, &[]),
        acid(16, &[]),
        acid(18, &[]),
        acid(18, &[9]),
        acid(18, &[9, 12]),
        acid(18, &[9, 12, 15]),
        acid(20, &[5, 8, 11, 14]),
        acid(20, &[5, 8, 11, 14, 17]),
        acid(22, &[4, 7, 10, 13, 16, 19]),
        None,
        acid(16, &[9]),
    ];
    let amounts = vec![
        Some(1),
        Some(2),
        Some(30),
        Some(4),
        Some(25),
        Some(20),
        Some(3),
        Some(6),
        Some(7),
        Some(8),
        Some(100),
        None,
    ];
    (FattyAcidExpr::new(records), amounts)
}

#[test]
fn two_row_profile_sums() {
    let (acids, amounts) = two_rows();
    assert_eq!(sum_of(&acids.sfa(&amounts)), 10);
    assert_eq!(sum_of(&acids.ufa(&amounts)), 5);
    assert_eq!(sum_of(&acids.mufa(&amounts)), 5);
    assert_eq!(sum_of(&acids.pufa(&amounts)), 0);
    assert_eq!(acids.sfa(&amounts), vec![10]);
    assert_eq!(acids.ufa(&amounts), vec![5]);
    assert_eq!(acids.mufa(&amounts), vec![5]);
    assert_eq!(acids.pufa(&amounts), Vec::<u32>::new());
}

#[test]
fn two_row_profile_hpi() {
    let (acids, amounts) = two_rows();
    let hpi = acids.hpi(&amounts);
    assert_eq!(
        hpi,
        Some(Ratio {
            numerator: 5,
            denominator: 10
        })
    );
    assert_eq!(value(hpi), Some(0.5));
    assert_eq!(value(acids.ia(&amounts)), Some(2.0));
}

#[test]
fn no_unsaturated_acid_leaves_ia_and_it_undefined() {
    let records = vec![acid(12, &[]), acid(16, &[]), acid(18, &[])];
    let acids = FattyAcidExpr::new(records);
    let amounts = vec![Some(10), Some(20), Some(30)];
    assert_eq!(acids.ia(&amounts), None);
    assert_eq!(acids.it(&amounts), None);
    assert_eq!(
        acids.hpi(&amounts),
        Some(Ratio {
            numerator: 0,
            denominator: 30
        })
    );
    assert_eq!(
        acids.hh(&amounts),
        Some(Ratio {
            numerator: 0,
            denominator: 30
        })
    );
}

#[test]
fn empty_sums_leave_all_ratios_undefined() {
    let records = vec![acid(18, &[]), acid(20, &[])];
    let acids = FattyAcidExpr::new(records);
    let amounts = vec![Some(10), Some(20)];
    assert_eq!(acids.ia(&amounts), None);
    assert_eq!(acids.it(&amounts), None);
    assert_eq!(acids.hh(&amounts), None);
    assert_eq!(acids.hpi(&amounts), None);
    let empty = FattyAcidExpr::new(vec![]);
    assert_eq!(empty.ia(&vec![]), None);
    assert_eq!(empty.it(&vec![]), None);
    assert_eq!(empty.hh(&vec![]), None);
    assert_eq!(empty.hpi(&vec![]), None);
    assert_eq!(empty.flq(&vec![]), None);
    assert_eq!(empty.ui(&vec![]), 0);
}

#[test]
fn zero_amounts_leave_ratios_undefined() {
    let (acids, _) = profile();
    let amounts = vec![Some(0); 12];
    assert_eq!(acids.ia(&amounts), None);
    assert_eq!(acids.it(&amounts), None);
    assert_eq!(acids.hh(&amounts), None);
    assert_eq!(acids.hpi(&amounts), None);
    assert_eq!(acids.flq(&amounts), None);
}

#[test]
fn saturation_classes() {
    let (acids, amounts) = profile();
    assert_eq!(acids.sfa(&amounts), vec![1, 2, 30, 4]);
    assert_eq!(acids.ufa(&amounts), vec![25, 20, 3, 6, 7, 8]);
    assert_eq!(acids.mufa(&amounts), vec![25]);
    assert_eq!(acids.pufa(&amounts), vec![20, 3, 6, 7, 8]);
    assert_eq!(acids.monoenoics(&amounts), vec![25]);
    assert_eq!(acids.dienoics(&amounts), vec![20]);
    assert_eq!(acids.trienoics(&amounts), vec![3]);
    assert_eq!(acids.tetraenoics(&amounts), vec![6]);
    assert_eq!(acids.pentaenoics(&amounts), vec![7]);
    assert_eq!(acids.hexaenoics(&amounts), vec![8]);
    assert_eq!(acids.tfa(&amounts), vec![3]);
}

#[test]
fn triple_bond_counts_twice_in_a_class() {
    let triple = FattyAcid::from_locants(18, &vec![], &vec![9]).unwrap();
    let acids = FattyAcidExpr::new(vec![Some(triple)]);
    let amounts = vec![Some(4)];
    assert_eq!(acids.mufa(&amounts), Vec::<u32>::new());
    assert_eq!(acids.dienoics(&amounts), vec![4]);
    assert_eq!(acids.pufa(&amounts), vec![4]);
    assert_eq!(acids.ui(&amounts), 8);
}

#[test]
fn named_acids() {
    let (acids, amounts) = profile();
    assert_eq!(acids.c12u0(&amounts), vec![1]);
    assert_eq!(acids.c14u0(&amounts), vec![2]);
    assert_eq!(acids.c16u0(&amounts), vec![30]);
    assert_eq!(acids.c18u0(&amounts), vec![4]);
    assert_eq!(acids.c18u1(&amounts), vec![25]);
    assert_eq!(acids.c18u2z9z12(&amounts), vec![20]);
    assert_eq!(acids.c18u3z9z12z15(&amounts), vec![3]);
    assert_eq!(acids.c20u5z5z8z11z14z17(&amounts), vec![7]);
    assert_eq!(acids.c22u6z4z7z10z13z16z19(&amounts), vec![8]);
    assert_eq!(acids.linoleic(&amounts), vec![20]);
    assert_eq!(acids.alpha_linolenic(&amounts), vec![3]);
    assert_eq!(acids.eicosapentaenoic(&amounts), vec![7]);
    assert_eq!(acids.docosahexaenoic(&amounts), vec![8]);
}

#[test]
fn indices_of_a_profile() {
    let (acids, amounts) = profile();
    // C12:0 + 4 C14:0 + C16:0 = 1 + 8 + 30; UFA = 25 + 20 + 3 + 6 + 7 + 8.
    assert_eq!(
        acids.ia(&amounts),
        Some(Ratio {
            numerator: 39,
            denominator: 69
        })
    );
    assert_eq!(
        acids.hpi(&amounts),
        Some(Ratio {
            numerator: 69,
            denominator: 39
        })
    );
    // (C18:1 + PUFA) / (C12:0 + C14:0 + C16:0) = (25 + 44) / 33.
    assert_eq!(
        acids.hh(&amounts),
        Some(Ratio {
            numerator: 69,
            denominator: 33
        })
    );
    // n-6: C18:2 (20) and C20:4 (6); n-3: C18:3 (3), C20:5 (7), C22:6 (8).
    // (2 + 30 + 4) / (0.5 * 25 + 0.5 * (26 + 6 * 18)) = 72 / 159.
    assert_eq!(
        acids.it(&amounts),
        Some(Ratio {
            numerator: 72,
            denominator: 159
        })
    );
    // 25 + 2 * 20 + 3 * 3 + 4 * 6 + 5 * 7 + 6 * 8.
    assert_eq!(acids.ui(&amounts), 181);
    // (EPA + DHA) over all amounts: 15 / 206.
    assert_eq!(
        acids.flq(&amounts),
        Some(Ratio {
            numerator: 15,
            denominator: 206
        })
    );
}

#[test]
fn omega_families() {
    let (acids, amounts) = profile();
    assert_eq!(acids.select(&amounts, Class::Omega(6)), vec![20, 6]);
    assert_eq!(acids.select(&amounts, Class::Omega(3)), vec![3, 7, 8]);
    assert_eq!(acids.select(&amounts, Class::Omega(9)), Vec::<u32>::new());
    assert_eq!(acids.total(&amounts, Class::Omega(3)), 18);
    let oleic = acid(18, &[9]).unwrap();
    assert!(!FattyAcidExpr::belongs(Class::Omega(9), &oleic));
    let linoleic = acid(18, &[9, 12]).unwrap();
    assert!(FattyAcidExpr::belongs(Class::Omega(6), &linoleic));
    assert!(!FattyAcidExpr::belongs(Class::Omega(9), &linoleic));
    let mut unknown = acid(18, &[9, 12]).unwrap();
    unknown.push_bond(Unsaturated::default()).unwrap();
    assert!(!FattyAcidExpr::belongs(Class::Omega(6), &unknown));
    assert!(FattyAcidExpr::belongs(Class::Polyunsaturated, &unknown));
    assert!(FattyAcidExpr::belongs(Class::Degree(3), &unknown));
    assert!(FattyAcidExpr::belongs(
        Class::Acid {
            carbons: 18,
            unsaturation: 3
        },
        &unknown
    ));
}

#[test]
fn ui_leaves_out_more_than_six_degrees() {
    let seven = acid(24, &[3, 6, 9, 12, 15, 18, 21]);
    let acids = FattyAcidExpr::new(vec![seven, acid(18, &[9])]);
    let amounts = vec![Some(10), Some(1)];
    assert_eq!(acids.ui(&amounts), 1);
    assert_eq!(acids.ufa(&amounts), vec![10, 1]);
}

#[test]
fn rows_without_record_or_amount_are_left_out() {
    let records = vec![acid(18, &[]), None, acid(18, &[]), acid(18, &[])];
    let acids = FattyAcidExpr::new(records);
    let amounts = vec![Some(1), Some(2), None, Some(4), Some(8)];
    assert_eq!(acids.sfa(&amounts), vec![1, 4]);
    assert_eq!(acids.total(&amounts, Class::Degree(0)), 5);
    assert_eq!(sum_present(&amounts), 15);
    let short = vec![Some(1)];
    assert_eq!(acids.sfa(&short), vec![1]);
}

#[test]
fn sums() {
    assert_eq!(sum_of(&vec![]), 0);
    assert_eq!(sum_of(&vec![u32::MAX, u32::MAX, 2]), 2 * (u32::MAX as u128) + 2);
    assert_eq!(sum_present(&vec![None, Some(u32::MAX), Some(1), None]), u32::MAX as u128 + 1);
    assert_eq!(sum_present(&vec![]), 0);
}

#[test]
fn quantities_of_each_row() {
    let records = vec![acid(18, &[9, 12]), None, acid(16, &[])];
    let acids = FattyAcidExpr::new(records);
    assert_eq!(acids.len(), 3);
    assert_eq!(acids.carbons(), vec![Some(18), None, Some(16)]);
    assert_eq!(acids.unsaturated(), vec![Some(2), None, Some(0)]);
    assert_eq!(acids.unsaturation(), vec![Some(2), None, Some(0)]);
    assert_eq!(acids.bounds(), vec![Some(17), None, Some(15)]);
    assert_eq!(acids.ecn(), vec![Some(14), None, Some(16)]);
    assert_eq!(acids.hydrogens(), vec![Some(32), None, Some(32)]);
    assert_eq!(acids.saturated(), vec![Some(false), None, Some(true)]);
    assert_eq!(acids.b(), acids.bounds());
    assert_eq!(acids.c(), acids.carbons());
    assert_eq!(acids.h(), acids.hydrogens());
    assert_eq!(acids.s(), acids.saturated());
    assert_eq!(acids.u(), acids.unsaturation());
}

#[test]
fn bond_count_and_degrees_differ_for_a_triple_bond() {
    let triple = FattyAcid::from_locants(18, &vec![9], &vec![12]).unwrap();
    let acids = FattyAcidExpr::new(vec![Some(triple)]);
    assert_eq!(acids.unsaturated(), vec![Some(2)]);
    assert_eq!(acids.unsaturation(), vec![Some(3)]);
    assert_eq!(acids.hydrogens(), vec![Some(30)]);
}

#[test]
fn flags_of_the_last_bond() {
    let mut unknown = acid(18, &[9]).unwrap();
    unknown.push_bond(Unsaturated::default()).unwrap();
    let records = vec![acid(18, &[9, 12, 15]), None, acid(16, &[]), Some(unknown)];
    let acids = FattyAcidExpr::new(records);
    assert_eq!(
        acids.pufan(3),
        vec![
            Some(vec![Some(false), Some(false), Some(true)]),
            None,
            Some(vec![]),
            Some(vec![None, Some(false)]),
        ]
    );
    assert_eq!(
        acids.pufan(6),
        vec![
            Some(vec![Some(false), Some(true), Some(false)]),
            None,
            Some(vec![]),
            Some(vec![None, Some(false)]),
        ]
    );
    assert_eq!(
        acids.pufan(9)[3],
        Some(vec![None, Some(true)])
    );
}

fn record(fields: &[Series], rows: usize) -> Series {
    StructChunked::from_series("".into(), rows, fields.iter())
        .unwrap()
        .into_series()
}

fn bonds(index: &[Option<u8>]) -> Series {
    let cis: Vec<Option<i8>> = index.iter().map(|_| Some(1)).collect();
    let double: Vec<Option<u8>> = index.iter().map(|_| Some(1)).collect();
    record(
        &[
            Series::new("Index".into(), index),
            Series::new("Isomerism".into(), &cis),
            Series::new("Unsaturation".into(), &double),
        ],
        index.len(),
    )
}

#[test]
fn column_of_records_from_a_column() {
    let carbons = Series::new("Carbons".into(), &[Some(18u8), None, Some(18), Some(12)]);
    let lists = Series::new(
        "Unsaturated".into(),
        &[Some(bonds(&[Some(9)])), None, Some(bonds(&[Some(20)])), None],
    );
    let series = record(&[carbons, lists], 4);
    let column = FattyAcidSeries::new(&series).unwrap();
    let acids = (&column).fatty_acid();
    assert_eq!(acids.len(), 4);
    assert_eq!(acids.carbons(), vec![Some(18), None, None, Some(12)]);
    assert_eq!(acids.unsaturation(), vec![Some(1), None, None, Some(0)]);
    let amounts = vec![Some(5), Some(7), Some(9), Some(10)];
    assert_eq!(acids.sfa(&amounts), vec![10]);
    assert_eq!(acids.ufa(&amounts), vec![5]);
    assert_eq!(
        acids.hpi(&amounts),
        Some(Ratio {
            numerator: 5,
            denominator: 10
        })
    );
}

#[test]
fn column_of_records_can_be_cloned() {
    let (acids, amounts) = profile();
    let copy = acids.clone();
    assert_eq!(copy.len(), acids.len());
    assert_eq!(copy.carbons(), acids.carbons());
    assert_eq!(copy.ia(&amounts), acids.ia(&amounts));
}
