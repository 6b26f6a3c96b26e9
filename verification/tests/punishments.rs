use graph_server::models::{ApiKey, ApiKeyScope, Refusal};
use graph_server::punishments::{
    apply_punishment_update, end_millis, is_ip_based, is_seen, is_temporary, normalize_target,
    plan_create_proof, plan_create_punishment, plan_list_punishments, plan_read_proof,
    plan_revoke_punishment, plan_update_punishment, punishable_ip, punishment_page_cursor,
    punishment_type_database_value, timestamp_millis, with_seen, write_actor,
    CreatePunishmentRequest, IpAddress, IpTarget, ListPunishmentsQuery, PunishmentType,
    UpdatePunishmentRequest,
};

fn now() -> i128 {
    chrono::Utc::now().timestamp_nanos_opt().unwrap() as i128
}

fn ip(address: IpAddress, text: &str) -> Option<IpTarget> {
    Some(IpTarget { address, text: text.to_string() })
}

fn api_key(player_id: Option<u128>, scopes: &[ApiKeyScope]) -> ApiKey {
    ApiKey::new(
        "punishment key".to_string(),
        "public".to_string(),
        player_id,
        scopes.iter().map(|scope| scope.to_text()).collect(),
        0,
        None,
    )
}

#[test]
fn all_api_types_map_to_database_values() {
    for (api, database) in [
        ("ban", "BAN"),
        ("tempBan", "TEMP_BAN"),
        ("ipBan", "IP_BAN"),
        ("tempIpBan", "TEMP_IP_BAN"),
        ("mute", "MUTE"),
        ("tempMute", "TEMP_MUTE"),
        ("ipMute", "IP_MUTE"),
        ("tempIpMute", "TEMP_IP_MUTE"),
        ("warning", "WARNING"),
        ("caution", "CAUTION"),
        ("kick", "KICK"),
        ("note", "NOTE"),
    ] {
        let kind = api.parse::<PunishmentType>().unwrap();
        assert_eq!(punishment_type_database_value(kind), database);
        assert_eq!(kind.to_text(), api);
    }
}

#[test]
fn target_validation_matches_legacy_rules_and_normalizes_values() {
    assert_eq!(
        normalize_target(PunishmentType::Ban, "550E8400E29B41D4A716446655440000", None),
        Some("550e8400-e29b-41d4-a716-446655440000".to_string())
    );
    assert_eq!(
        normalize_target(
            PunishmentType::Ban,
            "1.1.1.1",
            ip(IpAddress::V4(1, 1, 1, 1), "1.1.1.1")
        ),
        None
    );
    assert_eq!(
        normalize_target(
            PunishmentType::IpBan,
            "1.1.1.1",
            ip(IpAddress::V4(1, 1, 1, 1), "1.1.1.1")
        ),
        Some("1.1.1.1".to_string())
    );
    assert_eq!(
        normalize_target(
            PunishmentType::IpBan,
            "2001:4860:4860:0:0:0:0:8888",
            ip(
                IpAddress::V6(0x2001_4860_4860_0000_0000_0000_0000_8888),
                "2001:4860:4860::8888"
            )
        ),
        Some("2001:4860:4860::8888".to_string())
    );
    for address in [
        IpAddress::V4(127, 0, 0, 1),
        IpAddress::V4(10, 0, 0, 1),
        IpAddress::V4(100, 64, 0, 1),
        IpAddress::V4(169, 254, 1, 1),
        IpAddress::V4(192, 168, 1, 1),
        IpAddress::V4(203, 0, 133, 1),
        IpAddress::V4(255, 255, 255, 255),
    ] {
        assert!(!punishable_ip(Some(address)), "{address:?}");
    }
    assert!(punishable_ip(Some(IpAddress::V6(
        0x2001_4860_4860_0000_0000_0000_0000_8888
    ))));
    assert!(!punishable_ip(None));
}

#[test]
fn expiry_rules_and_seen_flag_are_strict() {
    let now = now();
    assert_eq!(end_millis(PunishmentType::Ban, None, now), Some(-1));
    assert!(end_millis(PunishmentType::TempBan, Some(now + 1_000_000_000), now).is_some());
    assert!(end_millis(PunishmentType::TempBan, None, now).is_none());
    assert!(end_millis(PunishmentType::Ban, Some(now + 1_000_000_000), now).is_none());
    assert_eq!(with_seen("OTHER", true), "OTHER,SEEN");
    assert_eq!(with_seen("OTHER,SEEN", false), "OTHER");
}

#[test]
fn expiry_must_lie_after_now_and_is_stored_in_milliseconds() {
    assert_eq!(end_millis(PunishmentType::TempMute, Some(1_500_000_000), 0), Some(1_500));
    assert_eq!(end_millis(PunishmentType::TempMute, Some(5), 5), None);
    assert_eq!(end_millis(PunishmentType::TempMute, Some(4), 5), None);
    assert_eq!(timestamp_millis(-1), -1);
    assert_eq!(timestamp_millis(-1_000_000), -1);
    assert_eq!(timestamp_millis(-1_000_001), -2);
    assert_eq!(timestamp_millis(1_999_999), 1);
}

#[test]
fn the_seen_flag_is_set_once_and_last() {
    assert_eq!(with_seen("", true), "SEEN");
    assert_eq!(with_seen("", false), "");
    assert_eq!(with_seen("SEEN,A,,SEEN,B", true), "A,B,SEEN");
    assert_eq!(with_seen("SEEN,SEEN", true).matches("SEEN").count(), 1);
    assert_eq!(with_seen("SEEN,A,,SEEN,B", false), "A,B");
    assert!(is_seen(&with_seen("A,B", true)));
    assert!(!is_seen(&with_seen("A,SEEN", false)));
    assert!(is_seen("SEEN"));
    assert!(!is_seen("SEENX"));
}

#[test]
fn kinds_are_temporary_or_ip_based() {
    let temporary = [
        PunishmentType::TempBan,
        PunishmentType::TempIpBan,
        PunishmentType::TempMute,
        PunishmentType::TempIpMute,
    ];
    let ip_based = [
        PunishmentType::IpBan,
        PunishmentType::TempIpBan,
        PunishmentType::IpMute,
        PunishmentType::TempIpMute,
    ];
    for kind in [
        PunishmentType::Ban,
        PunishmentType::TempBan,
        PunishmentType::IpBan,
        PunishmentType::TempIpBan,
        PunishmentType::Mute,
        PunishmentType::TempMute,
        PunishmentType::IpMute,
        PunishmentType::TempIpMute,
        PunishmentType::Warning,
        PunishmentType::Caution,
        PunishmentType::Kick,
        PunishmentType::Note,
    ] {
        assert_eq!(is_temporary(kind), temporary.contains(&kind));
        assert_eq!(is_ip_based(kind), ip_based.contains(&kind));
    }
    assert!("Ban".parse::<PunishmentType>().is_err());
}

#[test]
fn only_keys_acting_for_a_player_write_punishments() {
    let writer = api_key(Some(9), &[ApiKeyScope::PunishmentsColonWrite]);
    assert_eq!(write_actor(&writer), Some(9));
    assert_eq!(write_actor(&api_key(None, &[ApiKeyScope::Star])), None);
    assert_eq!(write_actor(&api_key(Some(9), &[ApiKeyScope::PunishmentsColonRead])), None);
}

fn request(kind: &str, target: &str, expires_at: Option<i128>) -> CreatePunishmentRequest {
    CreatePunishmentRequest {
        r_type: kind.to_string(),
        target: target.to_string(),
        target_name: "IntegrationTarget".to_string(),
        reason: "integration reason".to_string(),
        server: "TeStServer".to_string(),
        expires_at,
    }
}

#[test]
fn creating_a_punishment_checks_in_order() {
    let writer = api_key(Some(77), &[ApiKeyScope::PunishmentsColonWrite]);
    let reader = api_key(Some(77), &[ApiKeyScope::PunishmentsColonRead]);
    let target = "550e8400-e29b-41d4-a716-446655440000";
    let now = 2_000_000_000i128;

    let err = |key: &ApiKey, body: CreatePunishmentRequest| {
        plan_create_punishment(key, &body, now, None).err()
    };
    assert_eq!(err(&reader, request("ban", target, None)), Some(Refusal::Forbidden));
    assert_eq!(err(&writer, request("unknown", target, None)), Some(Refusal::Invalid));
    assert_eq!(err(&writer, request("tempBan", target, None)), Some(Refusal::Invalid));
    assert_eq!(err(&writer, request("ban", "not-a-uuid", None)), Some(Refusal::Invalid));
    let mut blank = request("ban", target, None);
    blank.reason = " \t".to_string();
    assert_eq!(err(&writer, blank), Some(Refusal::Invalid));

    let planned = plan_create_punishment(&writer, &request("tempBan", target, Some(5_000_000_000)), now, None)
        .ok()
        .unwrap();
    assert_eq!(planned.actor_id, 77);
    assert_eq!(planned.kind, PunishmentType::TempBan);
    assert_eq!(planned.target, target);
    assert_eq!(planned.server, "testserver");
    assert_eq!(planned.start, 2_000);
    assert_eq!(planned.end, 5_000);
}

#[test]
fn proofs_and_revocations_check_keys_texts_and_identifiers() {
    let writer = api_key(Some(1), &[ApiKeyScope::PunishmentsColonWrite]);
    let reader = api_key(None, &[ApiKeyScope::PunishmentsColonRead]);
    assert_eq!(plan_create_proof(&reader, "proof", 1), Err(Refusal::Forbidden));
    assert_eq!(plan_create_proof(&writer, " ", 1), Err(Refusal::Invalid));
    assert_eq!(plan_create_proof(&writer, "proof", u64::MAX), Err(Refusal::NotFound));
    assert_eq!(plan_create_proof(&writer, "proof", 5), Ok(5));
    assert_eq!(plan_revoke_punishment(&writer, "reason", 5), Ok((1, 5)));
    assert_eq!(plan_revoke_punishment(&writer, "", 5), Err(Refusal::Invalid));
    assert_eq!(plan_read_proof(&reader, 1, 2), Ok((1, 2)));
    assert_eq!(plan_read_proof(&reader, 1, 1 << 63), Err(Refusal::NotFound));
    assert_eq!(plan_read_proof(&writer, 1, 2), Err(Refusal::Forbidden));
}

#[test]
fn updates_need_a_change_and_merge_with_the_stored_values() {
    let writer = api_key(Some(1), &[ApiKeyScope::PunishmentsColonWrite]);
    let nothing = UpdatePunishmentRequest { reason: None, seen: None };
    assert_eq!(plan_update_punishment(&writer, &nothing, 3), Err(Refusal::Invalid));
    let blank = UpdatePunishmentRequest { reason: Some("  ".to_string()), seen: None };
    assert_eq!(plan_update_punishment(&writer, &blank, 3), Err(Refusal::Invalid));
    let seen = UpdatePunishmentRequest { reason: None, seen: Some(true) };
    assert_eq!(plan_update_punishment(&writer, &seen, 3), Ok(3));
    assert_eq!(
        apply_punishment_update(&seen, "old reason", "OTHER"),
        ("old reason".to_string(), "OTHER,SEEN".to_string())
    );
    let reason = UpdatePunishmentRequest { reason: Some("new".to_string()), seen: None };
    assert_eq!(
        apply_punishment_update(&reason, "old reason", "OTHER"),
        ("new".to_string(), "OTHER".to_string())
    );
}

fn query() -> ListPunishmentsQuery {
    ListPunishmentsQuery {
        limit: None,
        r_type: None,
        target: None,
        server: None,
        active: None,
        created_from: None,
        created_to: None,
        expires_from: None,
        expires_to: None,
        revoked_from: None,
        revoked_to: None,
        cursor: None,
    }
}

#[test]
fn listings_validate_their_query() {
    let reader = api_key(None, &[ApiKeyScope::PunishmentsColonRead]);
    let plan = plan_list_punishments(&reader, &query()).ok().unwrap();
    assert_eq!(plan.limit, 20);
    let mut q = query();
    q.limit = Some(0);
    assert_eq!(plan_list_punishments(&reader, &q).err(), Some(Refusal::Invalid));
    let mut q = query();
    q.created_from = Some(5);
    q.created_to = Some(5);
    assert_eq!(plan_list_punishments(&reader, &q).err(), Some(Refusal::Invalid));
    let mut q = query();
    q.r_type = Some("bogus".to_string());
    assert_eq!(plan_list_punishments(&reader, &q).err(), Some(Refusal::Invalid));
    let mut q = query();
    q.server = Some("TESTSERVER".to_string());
    q.r_type = Some("ban".to_string());
    q.created_from = Some(3_000_000);
    let plan = plan_list_punishments(&reader, &q).ok().unwrap();
    assert_eq!(plan.server, Some("testserver".to_string()));
    assert_eq!(plan.kind, Some(PunishmentType::Ban));
    assert_eq!(plan.created_from, Some(3));
    let writer = api_key(Some(1), &[ApiKeyScope::PunishmentsColonWrite]);
    assert_eq!(plan_list_punishments(&writer, &query()).err(), Some(Refusal::Forbidden));
}

#[test]
fn the_next_page_continues_after_the_last_row_kept() {
    let mut keys = vec![(30, 3), (20, 2), (10, 1)];
    let cursor = punishment_page_cursor(&mut keys, 2).unwrap();
    assert_eq!(keys, vec![(30, 3), (20, 2)]);
    assert_eq!((cursor.value, cursor.tie_breaker), (20, 2));
    let mut short = vec![(30, 3)];
    assert!(punishment_page_cursor(&mut short, 2).is_none());
    assert_eq!(short, vec![(30, 3)]);
}
