use lipid::new_fatty_acid::saturated_classes;
use lipid::new_fatty_acid::FattyAcid;
use lipid::new_fatty_acid::FattyAcidExt;

#[test]
fn new_fatty_acid_test() {
    println!("X: {}", (2..=1).count());
    let fatty_acid = FattyAcid::saturated(18..=18);
    for carbons in fatty_acid.carbons.into_iter().flatten() {
        println!("WTF!!!!!!!!!!!!!!!!!!!!!!!!!!!!!! {carbons}");
    }
}

#[test]
fn saturated_class_has_no_unsaturation() {
    let class = FattyAcid::saturated(16..=18);
    assert_eq!(class.carbons, Some(16..=18));
    assert_eq!(class.unsaturated, Some(0..=0));
}

#[test]
fn class_quantities_are_taken_at_both_ends() {
    let class = FattyAcid::saturated(16..=18);
    assert_eq!(class.c(), Some(&(16..=18)));
    assert_eq!(class.u(), Some(&(0..=0)));
    assert_eq!(class.b(), Some(15..=17));
    assert_eq!(class.h(), Some(32..=36));
    let class = FattyAcid {
        carbons: Some(18..=22),
        unsaturated: Some(1..=6),
    };
    assert_eq!(class.h(), Some(34..=32));
    assert_eq!(class.b(), Some(17..=21));
}

#[test]
fn unknown_class_has_no_quantities() {
    let class = FattyAcid {
        carbons: None,
        unsaturated: Some(0..=0),
    };
    assert_eq!(class.c(), None);
    assert_eq!(class.b(), None);
    assert_eq!(class.h(), None);
    let class = FattyAcid {
        carbons: Some(18..=18),
        unsaturated: None,
    };
    assert_eq!(class.u(), None);
    assert_eq!(class.h(), None);
    assert_eq!(class.b(), Some(17..=17));
}

#[test]
fn saturated_classes_run_from_two_to_thirty_two() {
    let table = saturated_classes();
    assert_eq!(table.len(), 16);
    for (k, class) in table.iter().enumerate() {
        let carbons = 2 * (k as u8 + 1);
        assert_eq!(class.carbons, Some(carbons..=carbons));
        assert_eq!(class.unsaturated, Some(0..=0));
    }
    assert_eq!(table[8].h(), Some(36..=36));
}
