use lumialive::amount::{parse_amount, Amount};
use lumialive::color::{hex_to_hue, rgb_to_hue_sat};
use lumialive::error::{AppError, DeviceError};
use lumialive::event::{decode, classify, same_text, DecodeError, EventKind, RawEvent, RawMessage};

fn raw(event_type: &str, event_for: Option<&str>, amount: Option<&str>) -> RawEvent {
    RawEvent {
        event_id: "evt-1".to_string(),
        event_type: event_type.to_string(),
        event_for: event_for.map(|s| s.to_string()),
        messages: vec![RawMessage { name: "viewer".to_string(), amount: amount.map(|s| s.to_string()) }],
    }
}

#[test]
fn amount_whole_number() {
    assert_eq!(parse_amount("150"), Some(Amount { milli: 150000 }));
    assert_eq!(parse_amount("0"), Some(Amount { milli: 0 }));
}

#[test]
fn amount_with_fraction() {
    assert_eq!(parse_amount("10.5"), Some(Amount { milli: 10500 }));
    assert_eq!(parse_amount("3.25"), Some(Amount { milli: 3250 }));
    assert_eq!(parse_amount("0.1239"), Some(Amount { milli: 123 }));
}

#[test]
fn amount_short_and_signed_forms() {
    assert_eq!(parse_amount(".5"), Some(Amount { milli: 500 }));
    assert_eq!(parse_amount("5."), Some(Amount { milli: 5000 }));
    assert_eq!(parse_amount("1."), Some(Amount { milli: 1000 }));
    assert_eq!(parse_amount("+5"), Some(Amount { milli: 5000 }));
    assert_eq!(parse_amount("+.25"), Some(Amount { milli: 250 }));
}

#[test]
fn amount_with_exponent() {
    assert_eq!(parse_amount("1e3"), Some(Amount { milli: 1000000 }));
    assert_eq!(parse_amount("1E3"), Some(Amount { milli: 1000000 }));
    assert_eq!(parse_amount("2.5e-1"), Some(Amount { milli: 250 }));
    assert_eq!(parse_amount("+.5e+1"), Some(Amount { milli: 5000 }));
    assert_eq!(parse_amount("1e-4"), Some(Amount { milli: 0 }));
    assert_eq!(parse_amount("123456e-5"), Some(Amount { milli: 1234 }));
    assert_eq!(parse_amount("0e999999999999999999999"), Some(Amount { milli: 0 }));
    assert_eq!(parse_amount("7e-999999999999999999999"), Some(Amount { milli: 0 }));
    assert_eq!(parse_amount("1e30"), None);
    assert_eq!(parse_amount("1e999999999999999999999"), None);
}

#[test]
fn amount_rejects_bad_text() {
    for t in ["", "abc", ".", "+", "++5", "-5", "-0", "1.2.3", "12a", " 5", "5e", "e5", "1e+", "1e3.5", "inf", "NaN", "infinity"] {
        assert_eq!(parse_amount(t), None, "{}", t);
    }
}

#[test]
fn amount_largest_and_overflow() {
    assert_eq!(parse_amount("18446744073709551.615"), Some(Amount { milli: u64::MAX }));
    assert_eq!(parse_amount("18446744073709551.616"), None);
    assert_eq!(parse_amount("18446744073709552"), None);
    assert_eq!(parse_amount("99999999999999999999999"), None);
}

#[test]
fn primary_colors_convert() {
    assert_eq!(hex_to_hue("#FF0000"), Ok((0, 254)));
    assert_eq!(hex_to_hue("#00ff00"), Ok((21845, 254)));
    assert_eq!(hex_to_hue("#0000FF"), Ok((43690, 254)));
}

#[test]
fn grays_and_magenta_convert() {
    assert_eq!(hex_to_hue("FFFFFF"), Ok((0, 0)));
    assert_eq!(hex_to_hue("#000000"), Ok((0, 0)));
    assert_eq!(hex_to_hue("#FF00FF"), Ok((54612, 254)));
    assert_eq!(hex_to_hue("##808000"), Ok((10922, 254)));
    assert_eq!(rgb_to_hue_sat(255, 128, 0), (5482, 254));
    assert_eq!(rgb_to_hue_sat(10, 20, 40), (40049, 190));
}

#[test]
fn invalid_colors_are_refused() {
    assert_eq!(hex_to_hue("#GG00FF"), Err(DeviceError::InvalidColor));
    assert_eq!(hex_to_hue("#abc"), Err(DeviceError::InvalidColor));
    assert_eq!(hex_to_hue("#FF00FF00"), Err(DeviceError::InvalidColor));
    assert_eq!(hex_to_hue(""), Err(DeviceError::InvalidColor));
}

#[test]
fn texts_compare() {
    assert!(same_text("bits", "bits"));
    assert!(!same_text("bits", "bit"));
    assert!(!same_text("bits", "bats"));
}

#[test]
fn kinds_classify() {
    assert_eq!(classify("donation", None), EventKind::Donation);
    assert_eq!(classify("donation", Some("twitch_account")), EventKind::Unknown);
    assert_eq!(classify("follow", Some("twitch_account")), EventKind::Follow);
    assert_eq!(classify("subscription", Some("twitch_account")), EventKind::Subscription);
    assert_eq!(classify("bits", Some("twitch_account")), EventKind::Bits);
    assert_eq!(classify("follow", Some("youtube_account")), EventKind::Unknown);
    assert_eq!(classify("bits", None), EventKind::Unknown);
    assert_eq!(classify("cheer", Some("twitch_account")), EventKind::Unknown);
}

#[test]
fn donation_decodes() {
    let e = decode(&raw("donation", None, Some("150"))).unwrap();
    assert_eq!(e.kind, EventKind::Donation);
    assert_eq!(e.amount, Some(Amount { milli: 150000 }));
    assert_eq!(e.source, "viewer");
    assert_eq!(e.raw_id, "evt-1");
}

#[test]
fn follow_decodes_without_amount() {
    let e = decode(&raw("follow", Some("twitch_account"), Some("5"))).unwrap();
    assert_eq!(e.kind, EventKind::Follow);
    assert_eq!(e.amount, None);
}

#[test]
fn unrecognized_type_decodes_as_unknown() {
    let e = decode(&raw("cheer", None, None)).unwrap();
    assert_eq!(e.kind, EventKind::Unknown);
}

#[test]
fn missing_type_is_malformed() {
    assert!(matches!(decode(&raw("", None, Some("5"))), Err(DecodeError::Malformed)));
}

#[test]
fn donation_without_amount_is_malformed() {
    assert!(matches!(decode(&raw("donation", None, None)), Err(DecodeError::Malformed)));
    let mut r = raw("bits", Some("twitch_account"), Some("5"));
    r.messages.clear();
    assert!(matches!(decode(&r), Err(DecodeError::Malformed)));
}

#[test]
fn unparsable_amount_is_reported() {
    match decode(&raw("bits", Some("twitch_account"), Some("lots"))) {
        Err(DecodeError::InvalidAmount(t)) => assert_eq!(t, "lots"),
        other => panic!("unexpected {:?}", other),
    }
}

#[test]
fn errors_map_to_app_errors() {
    assert!(matches!(AppError::from_decode(DecodeError::Malformed), AppError::Json(_)));
    match AppError::from_decode(DecodeError::InvalidAmount("x1".to_string())) {
        AppError::InvalidAmount(t) => assert_eq!(t, "x1"),
        other => panic!("unexpected {:?}", other),
    }
    assert!(matches!(AppError::from_device(DeviceError::Unreachable), AppError::Bridge(_)));
    assert_eq!(AppError::Bridge("b".to_string()).message(), "b");
}
