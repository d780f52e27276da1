use edgereplica::shared::auth::keyring::Keyring;
use edgereplica::shared::domain::enums::{Direction, Role};
use edgereplica::shared::domain::ids::{DatabaseId, OrgId, UserId};
use edgereplica::worker::auth::claims::TokenClaims;
use edgereplica::worker::auth::tokens::{
    mint_session, mint_sync, verify_session, verify_sync, MintSessionInput, MintSyncInput,
    TokenError,
};
use libmacaroon::{Format, Macaroon, MacaroonKey};

fn keyring() -> Keyring {
    Keyring::dev_default()
}

fn sample_session(kr: &Keyring, now_unix: i64, ttl_seconds: i64) -> String {
    mint_session(
        kr,
        MintSessionInput {
            user_id: &UserId::from("u_1"),
            email: "ada@example.com",
            org: &OrgId::from("o_1"),
            role: Role::Member,
            now_unix,
            ttl_seconds,
        },
    )
    .unwrap()
}

fn sample_sync(kr: &Keyring, direction: Direction, now_unix: i64, ttl_seconds: i64) -> String {
    mint_sync(
        kr,
        MintSyncInput {
            user_id: &UserId::from("u_1"),
            org: &OrgId::from("o_1"),
            database: &DatabaseId::from("db_1"),
            direction,
            now_unix,
            ttl_seconds,
        },
    )
    .unwrap()
}

/// Appends first-party caveats to a serialized token, which any holder can do
/// without the root key.
fn holder_append(token: &str, extra: &[&str]) -> String {
    let mut mac = Macaroon::deserialize(token).unwrap();
    for c in extra {
        mac.add_first_party_caveat(*c).unwrap();
    }
    mac.serialize(Format::V2).unwrap()
}

#[test]
fn tokens_session_roundtrip() {
    let kr = keyring();
    let user = UserId::from("u_1");
    let org = OrgId::from("o_1");
    let token = mint_session(
        &kr,
        MintSessionInput {
            user_id: &user,
            email: "ada@example.com",
            org: &org,
            role: Role::Admin,
            now_unix: 1_000,
            ttl_seconds: 60,
        },
    )
    .unwrap();
    let session = verify_session(&kr, 1_001, &token).unwrap();
    assert_eq!(session.user, user);
    assert_eq!(session.email, "ada@example.com");
    assert_eq!(session.org, org);
    assert_eq!(session.role, Role::Admin);
    assert_eq!(session.exp_unix, 1_060);
}

#[test]
fn tokens_session_rejects_after_expiry() {
    let kr = keyring();
    let token = sample_session(&kr, 0, 10);
    assert!(matches!(
        verify_session(&kr, 100, &token),
        Err(TokenError::Expired)
    ));
}

#[test]
fn tokens_session_rejects_wrong_key() {
    let kr = keyring();
    let key = MacaroonKey::generate(b"different");
    let bytes: &[u8] = key.as_ref();
    let mut root = [0u8; 32];
    root.copy_from_slice(bytes);
    let other = Keyring::from_key(root);
    let token = sample_session(&kr, 0, 60);
    assert!(verify_session(&other, 1, &token).is_err());
}

#[test]
fn session_rejects_tampered_identifier() {
    let kr = keyring();
    let token = sample_session(&kr, 0, 60);
    // Flip a byte deep in the body: the signature check must fail.
    let mut bytes = token.into_bytes();
    let mid = bytes.len() / 2;
    bytes[mid] ^= 0x01;
    let tampered = String::from_utf8_lossy(&bytes).to_string();
    assert!(verify_session(&kr, 1, &tampered).is_err());
}

#[test]
fn tokens_sync_roundtrip() {
    let kr = keyring();
    let user = UserId::from("u_5");
    let org = OrgId::from("o_5");
    let db = DatabaseId::from("db_5");
    let token = mint_sync(
        &kr,
        MintSyncInput {
            user_id: &user,
            org: &org,
            database: &db,
            direction: Direction::Push,
            now_unix: 500,
            ttl_seconds: 3600,
        },
    )
    .unwrap();
    let ctx = verify_sync(&kr, 600, &token).unwrap();
    assert_eq!(ctx.user, user);
    assert_eq!(ctx.org, org);
    assert_eq!(ctx.database, db);
    assert_eq!(ctx.direction, Direction::Push);
}

#[test]
fn tokens_cross_purpose_rejected() {
    let kr = keyring();
    let session = sample_session(&kr, 0, 60);
    assert!(matches!(
        verify_sync(&kr, 1, &session),
        Err(TokenError::WrongPurpose { .. })
    ));

    let sync = sample_sync(&kr, Direction::Pull, 0, 60);
    assert!(matches!(
        verify_session(&kr, 1, &sync),
        Err(TokenError::WrongPurpose { .. })
    ));
}

#[test]
fn session_rejects_appended_authority_caveats() {
    let kr = keyring();
    let token = sample_session(&kr, 1_000, 3_600);
    let forged = holder_append(&token, &["role=admin", "user=u_victim", "org=o_victim"]);
    assert!(matches!(
        verify_session(&kr, 1_001, &forged),
        Err(TokenError::UnexpectedCaveat(_))
    ));
}

#[test]
fn session_rejects_any_single_appended_caveat() {
    let kr = keyring();
    let token = sample_session(&kr, 1_000, 3_600);
    let forged = holder_append(&token, &["role=admin"]);
    assert!(matches!(
        verify_session(&kr, 1_001, &forged),
        Err(TokenError::UnexpectedCaveat(_))
    ));
}

#[test]
fn sync_rejects_appended_direction_override() {
    let kr = keyring();
    let token = sample_sync(&kr, Direction::Pull, 1_000, 3_600);
    let forged = holder_append(&token, &["direction=push", "database=db_victim"]);
    assert!(matches!(
        verify_sync(&kr, 1_001, &forged),
        Err(TokenError::UnexpectedCaveat(_))
    ));
    let ok = verify_sync(&kr, 1_001, &token).unwrap();
    assert_eq!(ok.direction, Direction::Pull);
    assert_eq!(ok.database, DatabaseId::from("db_1"));
}

#[test]
fn exp_caveat_cannot_be_extended() {
    let kr = keyring();
    let token = sample_session(&kr, 0, 10);
    let forged = holder_append(&token, &["exp=9999999999"]);
    assert!(matches!(
        verify_session(&kr, 100, &forged),
        Err(TokenError::Expired)
    ));
}

#[test]
fn exp_caveat_can_be_attenuated_shorter() {
    let kr = keyring();
    let token = sample_session(&kr, 0, 10_000);
    let narrowed = holder_append(&token, &["exp=500"]);
    let s = verify_session(&kr, 100, &narrowed).unwrap();
    assert_eq!(s.exp_unix, 500);
    assert!(matches!(
        verify_session(&kr, 600, &narrowed),
        Err(TokenError::Expired)
    ));
}

#[test]
fn claims_read_back() {
    let claims = TokenClaims {
        purpose: "sync".to_string(),
        user_id: "u_1".to_string(),
        org_id: "o_1".to_string(),
        email: String::new(),
        role: String::new(),
        database_id: "d\u{e9}j\u{e0}".to_string(),
        direction: "pull".to_string(),
    };
    let bytes = claims.encode_to_vec();
    assert_eq!(&bytes[..6], &[0x0a, 4, b's', b'y', b'n', b'c']);
    let back = TokenClaims::decode_from_slice(&bytes).unwrap();
    assert_eq!(back, claims);
}

#[test]
fn unknown_claim_fields_are_skipped() {
    // Field 15 as a varint, then the purpose.
    let bytes = [0x78, 5, 0x0a, 1, b'p'];
    let claims = TokenClaims::decode_from_slice(&bytes).unwrap();
    assert_eq!(claims.purpose, "p");
    assert_eq!(claims.user_id, "");
}

#[test]
fn torn_claims_are_refused() {
    assert!(TokenClaims::decode_from_slice(&[0x0a, 5, b'p']).is_err());
}

#[test]
fn oversized_claims_are_malformed() {
    let kr = keyring();
    let email = "x".repeat(70_000);
    let err = mint_session(
        &kr,
        MintSessionInput {
            user_id: &UserId::from("u"),
            email: &email,
            org: &OrgId::from("o"),
            role: Role::Member,
            now_unix: 0,
            ttl_seconds: 1,
        },
    )
    .unwrap_err();
    assert!(matches!(err, TokenError::Malformed(_)), "got {err:?}");
}

#[test]
fn empty_claims_read_as_missing() {
    let kr = keyring();
    let token = mint_session(
        &kr,
        MintSessionInput {
            user_id: &UserId::from("u"),
            email: "",
            org: &OrgId::from("o"),
            role: Role::Member,
            now_unix: 0,
            ttl_seconds: 60,
        },
    )
    .unwrap();
    let err = verify_session(&kr, 1, &token).unwrap_err();
    assert!(matches!(err, TokenError::MissingClaim("email")));
    assert_eq!(err.to_string(), "missing claim: email");
}

#[test]
fn wrong_purpose_names_both() {
    let kr = keyring();
    let sync = sample_sync(&kr, Direction::Push, 0, 60);
    assert_eq!(
        verify_session(&kr, 1, &sync).unwrap_err().to_string(),
        "wrong token purpose: expected session, got sync"
    );
}

#[test]
fn the_earliest_of_many_appended_expiries_counts() {
    let kr = keyring();
    let token = sample_session(&kr, 0, 10_000);
    let narrowed = holder_append(&token, &["exp=900", "exp=500", "exp=99999"]);
    assert_eq!(verify_session(&kr, 100, &narrowed).unwrap().exp_unix, 500);
    assert!(matches!(
        verify_session(&kr, 500, &narrowed),
        Err(TokenError::Expired)
    ));
    let forged = holder_append(&narrowed, &["exp=400", "role=admin", "exp=300"]);
    assert!(matches!(
        verify_session(&kr, 100, &forged),
        Err(TokenError::UnexpectedCaveat(_))
    ));
}
