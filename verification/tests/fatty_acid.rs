use lipid::fatty_acid::display::common;
use lipid::fatty_acid::display::DisplayWithOptions;
use lipid::fatty_acid::FattyAcid;

#[test]
fn fatty_acid_test() {
    let fatty_acid = FattyAcid::from_locants(18, &vec![9], &vec![])
        .unwrap()
        .display(common());
    assert_eq!(fatty_acid.to_string(), "18:1");
    assert_eq!(fatty_acid.format(2, false), "18:01");
    assert_eq!(fatty_acid.format(0, true), "18:1Δ9");
    assert_eq!(fatty_acid.format(2, true), "18:01Δ09");
}
