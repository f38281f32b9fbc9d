use koenig_damico_planner::text::{parse_trimmed_unsigned, push_decimal};

#[test]
fn decimal_rendering_matches_std() {
    for n in [0u64, 7, 10, 99, 100, 123456789, u64::MAX] {
        let mut s = String::from("n=");
        push_decimal(&mut s, n);
        assert_eq!(s, format!("n={n}"));
    }
}

#[test]
fn rendered_decimal_reads_back() {
    for n in [0u64, 1, 42, 65535, u64::MAX] {
        let mut s = String::new();
        push_decimal(&mut s, n);
        assert_eq!(parse_trimmed_unsigned(&s, u64::MAX), Some(n));
    }
}

#[test]
fn parse_respects_the_bound() {
    assert_eq!(parse_trimmed_unsigned("255", 255), Some(255));
    assert_eq!(parse_trimmed_unsigned("256", 255), None);
    assert_eq!(parse_trimmed_unsigned(" +0 ", 255), Some(0));
    assert_eq!(parse_trimmed_unsigned("", 255), None);
}
