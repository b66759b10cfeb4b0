use zkmember::{CurveSelector, CurveType, get_global_curve, set_global_curve};

#[test]
fn curve_selection_starts_at_default() {
    let selector = CurveSelector::new();
    assert_eq!(get_global_curve(&selector), CurveType::BLS12_381);
    assert_eq!(CurveType::default(), CurveType::BLS12_381);
}

#[test]
fn curve_selection_follows_the_setter() {
    let mut selector = CurveSelector::new();
    set_global_curve(&mut selector, CurveType::BW6_761);
    assert_eq!(get_global_curve(&selector), CurveType::BW6_761);
    set_global_curve(&mut selector, CurveType::BLS12_381);
    assert_eq!(get_global_curve(&selector), CurveType::BLS12_381);
}

#[test]
fn window_capacities() {
    // the 381 family hashes up to 72 bytes per leaf and 32 bytes per child
    assert_eq!(zkmember::pedersen381::common::LeafWindow::capacity_bytes(), 72);
    assert_eq!(
        zkmember::pedersen381::common::TwoToOneWindow::side_capacity_bytes(),
        32
    );
    assert_eq!(zkmember::pedersen381::common::digest_len_bytes(), 32);
    assert_eq!(
        zkmember::ed_on_bls12_381::common::LeafWindow::capacity_bytes(),
        72
    );
    // the 761 family hashes up to 96 bytes per leaf and 48 bytes per child
    assert_eq!(
        zkmember::commitments::pedersen761::common::LeafWindow::capacity_bytes(),
        96
    );
    assert_eq!(
        zkmember::commitments::pedersen761::common::TwoToOneWindow::side_capacity_bytes(),
        48
    );
    assert_eq!(
        zkmember::commitments::pedersen761::common::digest_len_bytes(),
        48
    );
}
