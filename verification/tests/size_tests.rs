use log4rs::size::{
    parse_size, parse_size_str, SizeError, SizeTrigger, SizeTriggerConfig, SizeTriggerDeserializer,
    SizeValue, Trigger,
};

#[test]
fn plain_number_is_bytes() {
    assert_eq!(parse_size_str("10"), Ok(10));
}

#[test]
fn unit_b_is_bytes() {
    assert_eq!(parse_size_str("10b"), Ok(10));
}

#[test]
fn unit_kb_is_binary() {
    assert_eq!(parse_size_str("1kb"), Ok(1024));
}

#[test]
fn unit_kib_is_synonym_of_kb() {
    assert_eq!(parse_size_str("1kib"), Ok(1024));
}

#[test]
fn unit_mb() {
    assert_eq!(parse_size_str("1mb"), Ok(1048576));
}

#[test]
fn unit_gb_case_insensitive() {
    assert_eq!(parse_size_str("1GB"), Ok(1073741824));
}

#[test]
fn unit_tb() {
    assert_eq!(parse_size_str("2tb"), Ok(2 * 1024 * 1024 * 1024 * 1024));
}

#[test]
fn mixed_case_units() {
    assert_eq!(parse_size_str("1Kib"), Ok(1024));
    assert_eq!(parse_size_str("3MiB"), Ok(3 * 1048576));
    assert_eq!(parse_size_str("1gIb"), Ok(1073741824));
}

#[test]
fn space_before_unit() {
    assert_eq!(parse_size_str("10 mb"), Ok(10 * 1048576));
}

#[test]
fn whitespace_around_unit() {
    assert_eq!(parse_size_str("10 kb "), Ok(10240));
    assert_eq!(parse_size_str("7\tgb"), Ok(7 * 1073741824));
}

#[test]
fn negative_signed_value_is_rejected() {
    assert_eq!(parse_size(&SizeValue::Signed(-5)), Err(SizeError::Negative));
}

#[test]
fn non_negative_signed_value_is_accepted() {
    assert_eq!(parse_size(&SizeValue::Signed(5)), Ok(5));
    assert_eq!(parse_size(&SizeValue::Signed(0)), Ok(0));
}

#[test]
fn unsigned_value_is_accepted_directly() {
    assert_eq!(parse_size(&SizeValue::Unsigned(123)), Ok(123));
}

#[test]
fn text_value_goes_through_the_grammar() {
    assert_eq!(parse_size(&SizeValue::Text("1kb".to_string())), Ok(1024));
}

#[test]
fn non_numeric_text_is_malformed() {
    assert_eq!(parse_size_str("abc"), Err(SizeError::Malformed));
}

#[test]
fn empty_text_is_malformed() {
    assert_eq!(parse_size_str(""), Err(SizeError::Malformed));
}

#[test]
fn unknown_unit_is_rejected() {
    assert_eq!(
        parse_size_str("5xb"),
        Err(SizeError::InvalidUnit("xb".to_string()))
    );
}

#[test]
fn unknown_unit_is_carried_trimmed() {
    assert_eq!(
        parse_size_str("5 xyz "),
        Err(SizeError::InvalidUnit("xyz".to_string()))
    );
}

#[test]
fn blank_unit_is_rejected() {
    assert_eq!(
        parse_size_str("10 "),
        Err(SizeError::InvalidUnit("".to_string()))
    );
}

#[test]
fn huge_number_with_unit_overflows() {
    assert_eq!(
        parse_size_str("99999999999999999999999tb"),
        Err(SizeError::Overflow)
    );
}

#[test]
fn number_just_past_u64_overflows() {
    assert_eq!(parse_size_str("18446744073709551615"), Ok(u64::MAX));
    assert_eq!(
        parse_size_str("18446744073709551616"),
        Err(SizeError::Overflow)
    );
}

#[test]
fn multiplication_overflow_is_detected() {
    assert_eq!(parse_size_str("999999999999gb"), Err(SizeError::Overflow));
}

#[test]
fn unicode_whitespace_around_unit_is_trimmed() {
    assert_eq!(parse_size_str("10\u{a0}kb"), Ok(10240));
    assert_eq!(parse_size_str("10 kb\u{3000}"), Ok(10240));
}

#[test]
fn error_messages() {
    assert_eq!(SizeError::Malformed.message(), "invalid value");
    assert_eq!(SizeError::Negative.message(), "must be non-negative");
    assert_eq!(
        SizeError::InvalidUnit("xb".to_string()).message(),
        "invalid unit `xb`"
    );
    assert_eq!(SizeError::Overflow.message(), "value overflowed");
}

#[test]
fn trigger_rolls_strictly_past_the_limit() {
    let t = SizeTrigger::new(10);
    assert_eq!(t.trigger(0), Ok(false));
    assert_eq!(t.trigger(9), Ok(false));
    assert_eq!(t.trigger(10), Ok(false));
    assert_eq!(t.trigger(11), Ok(true));
    assert_eq!(t.trigger(u64::MAX), Ok(true));
}

#[test]
fn trigger_at_limit_never_rolls() {
    for limit in [0u64, 1, 1024, u64::MAX] {
        let t = SizeTrigger::new(limit);
        assert_eq!(t.trigger(limit), Ok(false));
    }
}

#[test]
fn deserializer_builds_trigger_from_text_limit() {
    let config = SizeTriggerConfig {
        limit: SizeValue::Text("10 mb".to_string()),
    };
    let t = SizeTriggerDeserializer.deserialize(config).unwrap();
    assert_eq!(t.trigger(10 * 1048576), Ok(false));
    assert_eq!(t.trigger(10 * 1048576 + 1), Ok(true));
}

#[test]
fn deserializer_propagates_parser_errors() {
    let config = SizeTriggerConfig {
        limit: SizeValue::Text("5xb".to_string()),
    };
    assert_eq!(
        SizeTriggerDeserializer.deserialize(config).unwrap_err(),
        SizeError::InvalidUnit("xb".to_string())
    );
    let config = SizeTriggerConfig {
        limit: SizeValue::Signed(-1),
    };
    assert_eq!(
        SizeTriggerDeserializer.deserialize(config).unwrap_err(),
        SizeError::Negative
    );
}
