use graph_server::mojang::{
    check_profile_by_username, check_profile_by_uuid, profile_url, profile_url_for_uuid,
    MojangProfile, MojangProfileResolverError,
};
use graph_server::text::{
    format_decimal, format_signed, format_zero_padded, join_text, parse_u64, split_text,
    split_whitespace,
};

#[test]
fn decimal_texts() {
    assert_eq!(format_decimal(0), "0");
    assert_eq!(format_decimal(10), "10");
    assert_eq!(format_decimal(u64::MAX), "18446744073709551615");
    assert_eq!(format_zero_padded(7, 4), "0007");
    assert_eq!(format_zero_padded(12345, 4), "12345");
    assert_eq!(format_signed(-12), "-12");
    assert_eq!(format_signed(i64::MAX), "9223372036854775807");
    for n in [0u64, 1, 9, 10, 99, 100, 4096, u64::MAX] {
        assert_eq!(parse_u64(&format_decimal(n)), Some(n));
        assert_eq!(format_decimal(n), n.to_string());
    }
    for text in ["", "+", "-1", " 1", "1a", "18446744073709551616", "99999999999999999999"] {
        assert_eq!(parse_u64(text), text.parse::<u64>().ok(), "{text:?}");
    }
}

#[test]
fn splitting_and_joining_texts() {
    assert_eq!(split_text("", ','), vec![""]);
    assert_eq!(split_text("a,,b,", ','), vec!["a", "", "b", ""]);
    let parts = vec!["x".to_string(), "".to_string(), "y".to_string()];
    assert_eq!(join_text(&parts, ","), "x,,y");
    assert_eq!(split_text(&join_text(&parts, ","), ','), parts);
    assert_eq!(join_text(&[], ","), "");
    assert_eq!(split_whitespace(" a\t b\n"), vec!["a", "b"]);
}

#[test]
fn profiles_must_be_the_ones_asked_for() {
    assert_eq!(profile_url("Steve"), "https://playerdb.co/api/player/minecraft/Steve");
    assert_eq!(
        profile_url_for_uuid(1),
        "https://playerdb.co/api/player/minecraft/00000000-0000-0000-0000-000000000001"
    );
    let profile = |id: u128, name: &str| MojangProfile { id, username: name.to_string() };
    assert!(matches!(check_profile_by_uuid(1, Some(profile(1, "a"))), Ok(Some(_))));
    assert!(matches!(check_profile_by_uuid(1, None), Ok(None)));
    assert!(matches!(
        check_profile_by_uuid(1, Some(profile(2, "a"))),
        Err(MojangProfileResolverError::UnexpectedResponse)
    ));
    assert!(matches!(check_profile_by_username("steve", Some(profile(1, "Steve"))), Ok(Some(_))));
    assert!(matches!(
        check_profile_by_username("alex", Some(profile(1, "Steve"))),
        Err(MojangProfileResolverError::UnexpectedResponse)
    ));
    assert_eq!(
        MojangProfileResolverError::UnexpectedResponse.message(),
        "Mojang profile resolver returned an unexpected response"
    );
    assert_eq!(
        MojangProfileResolverError::Request("timeout".to_string()).message(),
        "Mojang profile request failed: timeout"
    );
}
