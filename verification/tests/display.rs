use lipid::fatty_acid::display::common;
use lipid::fatty_acid::display::id;
use lipid::fatty_acid::display::render;
use lipid::fatty_acid::display::Display;
use lipid::fatty_acid::display::DisplayWithOptions;
use lipid::fatty_acid::display::Elision;
use lipid::fatty_acid::display::Notation;
use lipid::fatty_acid::display::Options;
use lipid::fatty_acid::display::Separators;
use lipid::fatty_acid::FattyAcid;
use lipid::fatty_acid::Unsaturated;
use lipid::fatty_acid::Unsaturation;

#[test]
fn common_saturated() {
    let acid = FattyAcid::new(18).display(common());
    assert_eq!(acid.to_string(), "18:0");
    assert_eq!(acid.format(2, false), "18:00");
    assert_eq!(acid.format(0, true), "18:0");
    assert_eq!(acid.format(2, true), "18:00");
}

#[test]
fn common_one_cis_bond() {
    let acid = FattyAcid::from_locants(18, &vec![9], &vec![]).unwrap();
    let shown = (&acid).display(common());
    assert_eq!(shown.to_string(), "18:1");
    assert_eq!(shown.format(0, true), "18:1Δ9");
}

#[test]
fn id_one_cis_bond() {
    let acid = FattyAcid::from_locants(18, &vec![9], &vec![]).unwrap();
    let shown = acid.display(id());
    assert_eq!(shown.to_string(), "c18u1");
    assert_eq!(shown.format(0, true), "c18u1c9");
}

#[test]
fn id_saturated() {
    let acid = FattyAcid::new(18).display(id());
    assert_eq!(acid.to_string(), "c18u0");
    assert_eq!(acid.format(0, true), "c18u0");
}

#[test]
fn zero_padding_to_width_two() {
    let acid = FattyAcid::from_locants(18, &vec![9], &vec![]).unwrap();
    assert_eq!((&acid).display(common()).format(2, false), "18:01");
    assert_eq!((&acid).display(id()).format(2, false), "c18u01");
    assert_eq!((&acid).display(common()).format(2, true), "18:01Δ09");
    assert_eq!((&acid).display(id()).format(2, true), "c18u01c09");
}

#[test]
fn padding_never_cuts_a_number() {
    let acid = FattyAcid::from_locants(200, &vec![150], &vec![]).unwrap();
    assert_eq!((&acid).display(common()).format(2, true), "200:01Δ150");
    assert_eq!((&acid).display(common()).format(4, true), "0200:0001Δ0150");
    assert_eq!((&acid).display(common()).format(1, true), "200:1Δ150");
}

#[test]
fn several_bonds_use_the_second_separator() {
    let acid = FattyAcid::from_locants(18, &vec![9, 12, 15], &vec![]).unwrap();
    assert_eq!((&acid).display(common()).format(0, true), "18:3Δ9,12,15");
    assert_eq!((&acid).display(common()).format(2, true), "18:03Δ09,12,15");
    assert_eq!((&acid).display(id()).format(0, true), "c18u3c9c12c15");
}

#[test]
fn trans_is_always_written() {
    let acid = FattyAcid::from_locants(18, &vec![-9, -12, -15], &vec![]).unwrap();
    assert_eq!((&acid).display(common()).to_string(), "18:3");
    assert_eq!((&acid).display(common()).format(0, true), "18:3Δ9t,12t,15t");
    assert_eq!((&acid).display(id()).format(0, true), "c18u3t9t12t15");
    assert_eq!((&acid).display(id()).format(2, true), "c18u03t09t12t15");
}

#[test]
fn bonds_are_written_in_canonical_order() {
    let acid = FattyAcid::from_locants(18, &vec![15, -12, 9], &vec![]).unwrap();
    assert_eq!((&acid).display(common()).format(0, true), "18:3Δ12t,9,15");
    assert_eq!((&acid).display(id()).format(0, true), "c18u3t12c9c15");
}

#[test]
fn unknown_position_is_left_empty() {
    let mut acid = FattyAcid::new(18);
    acid.push_bond(Unsaturated::default()).unwrap();
    acid.push_bond(Unsaturated {
        index: Some(9),
        isomerism: None,
        unsaturation: Some(Unsaturation::One),
    })
    .unwrap();
    assert_eq!((&acid).display(common()).format(0, true), "18:2Δ,9");
    assert_eq!((&acid).display(id()).format(0, true), "c18u29");
    assert_eq!((&acid).display(common()).to_string(), "18:2");
}

#[test]
fn custom_notation() {
    let options = Options {
        separators: Separators {
            c: "C",
            u: "-",
            i: ["(", ";"],
        },
        notation: Notation::Suffix,
        elision: Elision::Explicit,
    };
    let acid = FattyAcid::from_locants(18, &vec![9, -12], &vec![]).unwrap();
    assert_eq!(render(&acid, &options, 0, true), "C18-2(12t;9c");
    assert_eq!(render(&acid, &options, 3, false), "C018-002");
    let shown = Display::new(acid, options);
    assert_eq!(shown.format(0, true), "C18-2(12t;9c");
}

#[test]
fn presets() {
    let common = common();
    assert_eq!(common.separators.c, "");
    assert_eq!(common.separators.u, ":");
    assert_eq!(common.separators.i, ["Δ", ","]);
    assert_eq!(common.notation, Notation::Suffix);
    assert_eq!(common.elision, Elision::Implicit);
    let id = id();
    assert_eq!(id.separators.c, "c");
    assert_eq!(id.separators.u, "u");
    assert_eq!(id.separators.i, ["", ""]);
    assert_eq!(id.notation, Notation::Prefix);
    assert_eq!(id.elision, Elision::Explicit);
    assert_eq!(Elision::default(), Elision::Implicit);
}

#[test]
fn options_compare_by_their_parts() {
    assert!(common() == common());
    assert!(common() != id());
    assert!(common().separators < id().separators);
    assert!(Notation::Prefix < Notation::Suffix);
    assert!(Elision::Explicit < Elision::Implicit);
}
