use sonor::{parse_bool, seconds_from_str, seconds_to_str, DecodeError, ValueKind};

#[test]
fn duration_text_pads_each_field() {
    assert_eq!(seconds_to_str(0), "00:00:00");
    assert_eq!(seconds_to_str(3661), "01:01:01");
    assert_eq!(seconds_to_str(59), "00:00:59");
    assert_eq!(seconds_to_str(3599), "00:59:59");
}

#[test]
fn duration_text_has_unbounded_hours() {
    assert_eq!(seconds_to_str(360_000), "100:00:00");
    assert_eq!(seconds_to_str(i64::MAX), "2562047788015215:30:07");
}

#[test]
fn duration_text_signs_negative_offsets() {
    assert_eq!(seconds_to_str(-5), "-00:00:05");
    assert_eq!(seconds_to_str(-3725), "-01:02:05");
    assert_eq!(seconds_to_str(i64::MIN), "-2562047788015215:30:08");
}

#[test]
fn duration_decodes_three_fields() {
    assert_eq!(seconds_from_str("01:02:03").unwrap(), 3723);
    assert_eq!(seconds_from_str("0:0:0").unwrap(), 0);
    assert_eq!(seconds_from_str("100:00:00").unwrap(), 360_000);
    assert_eq!(seconds_from_str("+1:00:00").unwrap(), 3600);
}

#[test]
fn duration_rejects_malformed_text() {
    for s in ["", "1", "1:2", "a:b:c", "1:2:x", "1:2:3:4", "-1:00:00", " 1:00:00", "1::2"] {
        assert!(
            matches!(seconds_from_str(s), Err(DecodeError::InvalidValue(ValueKind::Duration))),
            "{}",
            s
        );
    }
}

#[test]
fn duration_rejects_totals_beyond_u32() {
    assert_eq!(seconds_from_str("0:0:4294967295").unwrap(), u32::MAX);
    assert!(seconds_from_str("1:0:4294967295").is_err());
    assert!(seconds_from_str("0:0:4294967296").is_err());
    assert!(seconds_from_str("1193047:0:0").is_err());
}

#[test]
fn duration_round_trips() {
    let samples = [0u32, 1, 59, 60, 61, 3599, 3600, 3661, 86_399, 86_400, 359_999, 360_000, 1_000_000, u32::MAX - 1, u32::MAX];
    for s in samples {
        assert_eq!(seconds_from_str(&seconds_to_str(s as i64)).unwrap(), s);
    }
    for s in (0..200_000u32).step_by(7) {
        assert_eq!(seconds_from_str(&seconds_to_str(s as i64)).unwrap(), s);
    }
}

#[test]
fn flags_are_zero_or_one() {
    assert!(!parse_bool("0".to_string()).unwrap());
    assert!(parse_bool("1".to_string()).unwrap());
    assert!(parse_bool(" 1\n".to_string()).unwrap());
    assert!(!parse_bool("\t0 ".to_string()).unwrap());
    for s in ["", "true", "false", "2", "01", "1 1", "yes"] {
        assert!(
            matches!(parse_bool(s.to_string()), Err(DecodeError::InvalidValue(ValueKind::Bool))),
            "{}",
            s
        );
    }
}
