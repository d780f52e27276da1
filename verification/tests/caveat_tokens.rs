use edgereplica::shared::auth::keyring::{Keyring, KeyringError};
use edgereplica::shared::auth::tokens::{
    mint_session, mint_sync, verify_session, verify_sync, MintSessionInput, MintSyncInput,
    TokenError,
};
use edgereplica::shared::domain::enums::{Direction, Role, TokenPurpose};
use edgereplica::shared::domain::ids::{DatabaseId, OrgId, UserId};
use libmacaroon::{Format, Macaroon, MacaroonKey};

fn keyring() -> Keyring {
    Keyring::dev_default()
}

fn other_keyring() -> Keyring {
    let key = MacaroonKey::generate(b"different");
    let bytes: &[u8] = key.as_ref();
    let mut root = [0u8; 32];
    root.copy_from_slice(bytes);
    Keyring::from_key(root)
}

#[test]
fn session_roundtrip() {
    let kr = keyring();
    let user = UserId::from("u_1");
    let org = OrgId::from("o_1");
    let token = mint_session(
        &kr,
        MintSessionInput {
            user_id: &user,
            email: "ada@example.com",
            org: &org,
            role: Role::Admin,
            now_unix: 1_000,
            ttl_seconds: 60,
        },
    )
    .unwrap();
    let session = verify_session(&kr, 1_001, &token).unwrap();
    assert_eq!(session.user, user);
    assert_eq!(session.email, "ada@example.com");
    assert_eq!(session.org, org);
    assert_eq!(session.role, Role::Admin);
}

#[test]
fn session_rejects_after_expiry() {
    let kr = keyring();
    let token = mint_session(
        &kr,
        MintSessionInput {
            user_id: &UserId::from("u_2"),
            email: "x@y",
            org: &OrgId::from("o_2"),
            role: Role::Member,
            now_unix: 0,
            ttl_seconds: 10,
        },
    )
    .unwrap();
    assert!(verify_session(&kr, 100, &token).is_err());
}

#[test]
fn session_rejects_wrong_key() {
    let kr = keyring();
    let other = other_keyring();
    let token = mint_session(
        &kr,
        MintSessionInput {
            user_id: &UserId::from("u_3"),
            email: "x@y",
            org: &OrgId::from("o_3"),
            role: Role::Admin,
            now_unix: 0,
            ttl_seconds: 60,
        },
    )
    .unwrap();
    assert!(verify_session(&other, 1, &token).is_err());
}

#[test]
fn session_rejects_tampered_caveat() {
    let kr = keyring();
    let token = mint_session(
        &kr,
        MintSessionInput {
            user_id: &UserId::from("u_4"),
            email: "x@y",
            org: &OrgId::from("o_4"),
            role: Role::Member,
            now_unix: 0,
            ttl_seconds: 60,
        },
    )
    .unwrap();
    // Flip a byte deep in the body: the signature check must fail.
    let mut bytes = token.into_bytes();
    let mid = bytes.len() / 2;
    bytes[mid] ^= 0x01;
    let tampered = String::from_utf8_lossy(&bytes).to_string();
    assert!(verify_session(&kr, 1, &tampered).is_err());
}

#[test]
fn sync_roundtrip() {
    let kr = keyring();
    let user = UserId::from("u_5");
    let org = OrgId::from("o_5");
    let db = DatabaseId::from("db_5");
    let token = mint_sync(
        &kr,
        MintSyncInput {
            user_id: &user,
            org: &org,
            database: &db,
            direction: Direction::Push,
            now_unix: 500,
            ttl_seconds: 3600,
        },
    )
    .unwrap();
    let ctx = verify_sync(&kr, 600, &token).unwrap();
    assert_eq!(ctx.user, user);
    assert_eq!(ctx.org, org);
    assert_eq!(ctx.database, db);
    assert_eq!(ctx.direction, Direction::Push);
}

#[test]
fn cross_purpose_rejected() {
    let kr = keyring();
    let session = mint_session(
        &kr,
        MintSessionInput {
            user_id: &UserId::from("u_6"),
            email: "x@y",
            org: &OrgId::from("o_6"),
            role: Role::Member,
            now_unix: 0,
            ttl_seconds: 60,
        },
    )
    .unwrap();
    assert!(verify_sync(&kr, 1, &session).is_err());

    let sync = mint_sync(
        &kr,
        MintSyncInput {
            user_id: &UserId::from("u_6"),
            org: &OrgId::from("o_6"),
            database: &DatabaseId::from("db_6"),
            direction: Direction::Pull,
            now_unix: 0,
            ttl_seconds: 60,
        },
    )
    .unwrap();
    assert!(verify_session(&kr, 1, &sync).is_err());
}

#[test]
fn wrong_purpose_specific_error_when_only_purpose_differs() {
    // A session-shaped macaroon with `purpose=sync` reaches the explicit
    // purpose check that runs after the caveats were verified.
    let kr = keyring();
    let key = MacaroonKey::from(*kr.root());
    let mut mac = Macaroon::create(Some("edgereplica"), &key, "manual").unwrap();
    let purpose = format!("purpose={}", TokenPurpose::Sync.as_str());
    for caveat in [
        purpose.as_str(),
        "user=u_7",
        "email=x@y",
        "org=o_7",
        "role=admin",
        "exp=9999999999",
    ] {
        mac.add_first_party_caveat(caveat).unwrap();
    }
    let token = mac.serialize(Format::V2).unwrap();
    let err = verify_session(&kr, 0, &token).unwrap_err();
    assert!(matches!(err, TokenError::WrongPurpose { .. }));
}

#[test]
fn missing_caveat_is_named() {
    let kr = keyring();
    let key = MacaroonKey::from(*kr.root());
    let mut mac = Macaroon::create(Some("edgereplica"), &key, "manual").unwrap();
    for caveat in ["purpose=session", "email=x@y", "exp=9999999999"] {
        mac.add_first_party_caveat(caveat).unwrap();
    }
    let token = mac.serialize(Format::V2).unwrap();
    let err = verify_session(&kr, 0, &token).unwrap_err();
    assert!(err.to_string().contains("user"), "got {}", err.to_string());
}

#[test]
fn garbage_is_malformed() {
    let err = verify_session(&keyring(), 0, "not a token").unwrap_err();
    assert!(matches!(err, TokenError::Malformed(_)), "got {err:?}");
}

#[test]
fn keyring_reads_base64_in_every_alphabet() {
    let root = [0xFBu8; 32];
    let want = Keyring::from_key(root);
    let standard = "+/v7+/v7+/v7+/v7+/v7+/v7+/v7+/v7+/v7+/v7+/s=";
    assert_eq!(Keyring::from_base64(standard).unwrap().root(), want.root());
    assert_eq!(
        Keyring::from_base64(&format!("  {standard}\n")).unwrap().root(),
        want.root()
    );
    let unpadded = standard.trim_end_matches('=');
    assert_eq!(Keyring::from_base64(unpadded).unwrap().root(), want.root());
    let url_safe = standard.replace('+', "-").replace('/', "_");
    assert_eq!(Keyring::from_base64(&url_safe).unwrap().root(), want.root());
}

#[test]
fn keyring_refuses_other_keys() {
    assert!(matches!(
        Keyring::from_base64("AAAA"),
        Err(KeyringError::InvalidLength(3))
    ));
    assert!(matches!(
        Keyring::from_base64("!!!"),
        Err(KeyringError::InvalidBase64(_))
    ));
    assert_eq!(
        KeyringError::InvalidLength(3).to_string(),
        "invalid key length: 3 (need 32)"
    );
}

#[test]
fn dev_key_is_deterministic() {
    let key = MacaroonKey::generate(b"edgereplica.dev-key.do-not-deploy");
    let bytes: &[u8] = key.as_ref();
    assert_eq!(keyring().root().as_slice(), bytes);
}
