use graph_server::models::Proof;
use graph_server::punishments::{punishment_type_from_database, PunishmentType};
use graph_server::records::{
    attach_proofs, datetime_from_millis, proofs_from_records, unsigned_row_id, ProofRecord,
    PunishmentProofRecord, PunishmentRecord,
};

#[test]
fn database_punishment_types_map_to_generated_models() {
    for (database, api) in [
        ("BAN", "ban"),
        ("TEMP_BAN", "tempBan"),
        ("IP_BAN", "ipBan"),
        ("TEMP_IP_BAN", "tempIpBan"),
        ("MUTE", "mute"),
        ("TEMP_MUTE", "tempMute"),
        ("IP_MUTE", "ipMute"),
        ("TEMP_IP_MUTE", "tempIpMute"),
        ("WARNING", "warning"),
        ("CAUTION", "caution"),
        ("KICK", "kick"),
        ("NOTE", "note"),
    ] {
        assert_eq!(
            punishment_type_from_database(database),
            Some(api.parse::<PunishmentType>().unwrap())
        );
    }
    assert_eq!(punishment_type_from_database("ban"), None);
}

#[test]
fn proof_conversion_rejects_negative_database_ids() {
    let record = ProofRecord {
        id: -1,
        text: "proof".to_string(),
        public: true,
    };

    assert!(Proof::from_record(record).is_err());
}

#[test]
fn row_identifiers_and_instants_are_checked() {
    assert_eq!(unsigned_row_id(5), Ok(5));
    assert_eq!(
        unsigned_row_id(-5),
        Err("negative identifier in punishments database".to_string())
    );
    assert_eq!(datetime_from_millis(1_500), Ok(1_500_000_000));
    assert_eq!(datetime_from_millis(-1), Ok(-1_000_000));
    assert_eq!(
        datetime_from_millis(i64::MAX),
        Err("invalid epoch milliseconds in punishments database".to_string())
    );
}

fn record() -> PunishmentRecord {
    PunishmentRecord {
        id: 12,
        name: "Target".to_string(),
        target: "550e8400-e29b-41d4-a716-446655440000".to_string(),
        reason: "reason".to_string(),
        operator: "00000000-0000-0000-0000-000000000007".to_string(),
        r_type: "TEMP_BAN".to_string(),
        start: 1_000,
        end: 2_000,
        server: "lobby".to_string(),
        extra: "OTHER,SEEN".to_string(),
        active: true,
        revocation_id: None,
        revocation_reason: None,
        revocation_timestamp: None,
        revocation_operator: None,
    }
}

#[test]
fn punishment_rows_become_punishments() {
    let proofs = vec![Proof { id: 1, text: "p".to_string(), public: false }];
    let punishment = match record().into_punishment(proofs) {
        Ok(p) => p,
        Err(e) => panic!("{e}"),
    };
    assert_eq!(punishment.id, 12);
    assert_eq!(punishment.r_type, "tempBan");
    assert_eq!(punishment.actor_id, 7);
    assert_eq!(punishment.created_at, 1_000_000_000);
    assert_eq!(punishment.expires_at, Some(2_000_000_000));
    assert!(punishment.seen);
    assert_eq!(punishment.proofs.len(), 1);
    assert!(punishment.revocation.is_none());

    let mut permanent = record();
    permanent.end = -1;
    permanent.extra = "OTHER".to_string();
    permanent.revocation_id = Some(3);
    permanent.revocation_reason = Some("appeal".to_string());
    permanent.revocation_timestamp = Some(3_000);
    permanent.revocation_operator = Some("00000000-0000-0000-0000-000000000008".to_string());
    let punishment = match permanent.into_punishment(Vec::new()) {
        Ok(p) => p,
        Err(e) => panic!("{e}"),
    };
    assert_eq!(punishment.expires_at, None);
    assert!(!punishment.seen);
    let revocation = punishment.revocation.unwrap();
    assert_eq!((revocation.id, revocation.actor_id, revocation.revoked_at), (3, 8, 3_000_000_000));
}

fn error_of(record: PunishmentRecord) -> String {
    match record.into_punishment(Vec::new()) {
        Ok(_) => panic!("the row must be refused"),
        Err(e) => e,
    }
}

#[test]
fn punishment_rows_are_refused_in_order() {
    let mut r = record();
    r.r_type = "SHADOW".to_string();
    r.operator = "bad".to_string();
    assert_eq!(error_of(r), "unknown punishment type in database: SHADOW");
    let mut r = record();
    r.operator = "bad".to_string();
    r.id = -1;
    assert_eq!(error_of(r), "invalid punishment operator UUID in database");
    let mut r = record();
    r.end = i64::MAX;
    r.id = -1;
    assert_eq!(error_of(r), "invalid epoch milliseconds in punishments database");
    let mut r = record();
    r.revocation_id = Some(4);
    r.revocation_reason = Some("x".to_string());
    r.revocation_timestamp = Some(1);
    r.revocation_operator = Some("bad".to_string());
    assert_eq!(error_of(r), "invalid revocation operator UUID in database");
    let mut r = record();
    r.revocation_id = Some(4);
    r.revocation_reason = Some("x".to_string());
    r.revocation_timestamp = None;
    r.revocation_operator = Some("bad".to_string());
    r.id = -3;
    assert_eq!(error_of(r), "negative identifier in punishments database");
}

#[test]
fn proofs_are_grouped_by_punishment_in_order() {
    let rows = vec![
        PunishmentProofRecord { punish_id: 2, id: 10, text: "a".to_string(), public: true },
        PunishmentProofRecord { punish_id: 1, id: 11, text: "b".to_string(), public: false },
        PunishmentProofRecord { punish_id: 2, id: 12, text: "c".to_string(), public: false },
    ];
    let grouped = attach_proofs(&[1, 2, 3], &rows).unwrap();
    assert_eq!(grouped.len(), 3);
    assert_eq!(grouped[0].iter().map(|p| p.id).collect::<Vec<_>>(), vec![11]);
    assert_eq!(grouped[1].iter().map(|p| p.id).collect::<Vec<_>>(), vec![10, 12]);
    assert!(grouped[2].is_empty());
    let bad = vec![PunishmentProofRecord { punish_id: 1, id: -1, text: "x".to_string(), public: true }];
    assert!(attach_proofs(&[1], &bad).is_err());

    let proofs = proofs_from_records(vec![
        ProofRecord { id: 1, text: "a".to_string(), public: true },
        ProofRecord { id: 2, text: "b".to_string(), public: false },
    ])
    .unwrap();
    assert_eq!(proofs.iter().map(|p| p.text.as_str()).collect::<Vec<_>>(), vec!["a", "b"]);
}

#[test]
fn database_millis_are_read_within_chrono_range() {
    let first: i64 = -8_334_601_228_800_000;
    let last: i64 = 8_210_266_876_799_999;
    assert_eq!(datetime_from_millis(first), Ok(i128::from(first) * 1_000_000));
    assert_eq!(datetime_from_millis(last), Ok(i128::from(last) * 1_000_000));
    assert!(datetime_from_millis(first - 1).is_err());
    assert!(datetime_from_millis(last + 1).is_err());
}
