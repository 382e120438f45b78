use std::cmp::Ordering;

use gamescope::ratio::Ratio;

#[test]
fn reduces_ratios() {
    assert_eq!(Ratio::new(3840, 2160), Ratio::new(16, 9));
    assert_eq!(Ratio::new(0, 4), Ratio::new(0, 1));
}

#[test]
fn parser_matches_permissive_cpp_behavior() {
    assert_eq!(Ratio::parse_gamescope("16:9"), Ratio::new(16, 9));
    assert_eq!(Ratio::parse_gamescope("bad:9"), Ratio::new(0, 1));
    assert!(Ratio::parse_gamescope("16:bad").is_undefined());
    assert!(Ratio::parse_gamescope("16/9").is_undefined());
}

#[test]
fn compares_without_float_rounding() {
    assert_eq!(
        Ratio::new(16, 9).compare(Ratio::new(4, 3)),
        Some(Ordering::Greater)
    );
    assert_eq!(
        Ratio::new(8, 6).compare(Ratio::new(4, 3)),
        Some(Ordering::Equal)
    );
    assert_eq!(Ratio::default().compare(Ratio::new(4, 3)), None);
}

#[test]
fn equal_ratios_are_the_same_value() {
    let left = Ratio::new(1_000_000, 1_500_000);
    let right = Ratio::new(2, 3);
    assert_eq!(left.compare(right), Some(Ordering::Equal));
    assert_eq!((left.numerator(), left.denominator()), (2, 3));
    assert_eq!(left, right);
}

#[test]
fn text_joins_the_reduced_terms() {
    assert_eq!(Ratio::new(3840, 2160).text(), "16:9");
    assert_eq!(Ratio::default().text(), "0:0");
}

#[test]
fn parser_limits_components_to_32_bits() {
    assert_eq!(Ratio::parse_gamescope("+4:2"), Ratio::new(2, 1));
    assert_eq!(Ratio::parse_gamescope("4294967295:1").numerator(), u32::MAX);
    assert_eq!(Ratio::parse_gamescope("4294967296:1"), Ratio::new(0, 1));
    assert_eq!(Ratio::parse_gamescope("1:2:3"), Ratio::new(1, 0));
    assert_eq!(Ratio::parse_gamescope(""), Ratio::default());
}
