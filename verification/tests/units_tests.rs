use netbench::{auto_exponent, parse_u64_with_suffix, Base, BasePreference, NBError, SizePreference, Unit};

#[test]
fn test_parse_u64_from_suffix() {
    let result = parse_u64_with_suffix("123").unwrap();
    assert_eq!(result, 123);

    let result = parse_u64_with_suffix("1k").unwrap();
    assert_eq!(result, 1024);

    let result = parse_u64_with_suffix("1K").unwrap();
    assert_eq!(result, 1000);

    let result = parse_u64_with_suffix("15t").unwrap();
    assert_eq!(result, 16492674416640);

    let result = parse_u64_with_suffix("1Z");
    assert!(result.is_err());

    let result = parse_u64_with_suffix("17a6k");
    println!("{result:?}");
    assert!(result.is_err());
}

#[test]
fn test_parse_suffix_edges() {
    assert_eq!(parse_u64_with_suffix("").unwrap(), 0);
    assert_eq!(parse_u64_with_suffix("k").unwrap(), 0);
    assert_eq!(parse_u64_with_suffix("2m").unwrap(), 2 * 1024 * 1024);
    assert_eq!(parse_u64_with_suffix("3M").unwrap(), 3_000_000);
    assert_eq!(parse_u64_with_suffix("7g").unwrap(), 7 * 1024 * 1024 * 1024);
    assert_eq!(parse_u64_with_suffix("2G").unwrap(), 2_000_000_000);
    assert_eq!(parse_u64_with_suffix("4T").unwrap(), 4_000_000_000_000);
    assert_eq!(
        parse_u64_with_suffix("18446744073709551615").unwrap(),
        u64::MAX
    );
    // one past u64::MAX must be rejected, not wrapped
    assert!(matches!(
        parse_u64_with_suffix("18446744073709551616"),
        Err(NBError::ParseSuffixError(_))
    ));
    assert!(matches!(
        parse_u64_with_suffix("99999999999999999999k"),
        Err(NBError::ParseSuffixError(_))
    ));
    assert!(matches!(
        parse_u64_with_suffix("ü1"),
        Err(NBError::ParseSuffixError(_))
    ));
}

#[test]
fn test_unit_values() {
    assert_eq!(Unit::B.value(), 1);
    assert_eq!(Unit::KB.value(), 1000);
    assert_eq!(Unit::KiB.value(), 1024);
    assert_eq!(Unit::MiB.value(), 1024 * 1024);
    assert_eq!(Unit::TB.value(), 1_000_000_000_000);
    assert_eq!(Unit::Tib.value(), 1024u64 * 1024 * 1024 * 1024);
}

#[test]
fn test_unit_by_index() {
    assert_eq!(Unit::by_index_byte(BasePreference::Base2, 0), Some(Unit::B));
    assert_eq!(Unit::by_index_byte(BasePreference::Base2, 1), Some(Unit::KiB));
    assert_eq!(Unit::by_index_byte(BasePreference::Base10, 1), Some(Unit::KB));
    assert_eq!(Unit::by_index_byte(BasePreference::Base2, 3), Some(Unit::GiB));
    assert_eq!(Unit::by_index_byte(BasePreference::Base10, 9), Some(Unit::TB));
    assert_eq!(Unit::by_index_bit(BasePreference::Base2, 0), Some(Unit::b));
    assert_eq!(Unit::by_index_bit(BasePreference::Base2, 2), Some(Unit::Mib));
    assert_eq!(Unit::by_index_bit(BasePreference::Base10, 4), Some(Unit::Tb));
}

#[test]
fn test_auto_exponent() {
    assert_eq!(auto_exponent(0, BasePreference::Base2), 0);
    assert_eq!(auto_exponent(1023, BasePreference::Base2), 0);
    assert_eq!(auto_exponent(1024, BasePreference::Base2), 1);
    assert_eq!(auto_exponent(1024 * 1024, BasePreference::Base2), 2);
    assert_eq!(auto_exponent(999, BasePreference::Base10), 0);
    assert_eq!(auto_exponent(1000, BasePreference::Base10), 1);
    assert_eq!(auto_exponent(23_570_212_479_560, BasePreference::Base10), 4);
    assert_eq!(auto_exponent(u64::MAX, BasePreference::Base2), 6);
    assert_eq!(auto_exponent(u64::MAX, BasePreference::Base10), 6);
}

#[test]
fn test_preference_defaults() {
    assert_eq!(Base::default(), Base::Base2);
    assert_eq!(SizePreference::default(), SizePreference::Auto);
    assert_eq!(BasePreference::default(), BasePreference::Base2);
}
