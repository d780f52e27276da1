use edgereplica::shared::clock::{clock_reading, to_unix_seconds, Clock, FixedClock, SystemClock};
use edgereplica::shared::domain::entities::personal_org_name;
use edgereplica::shared::domain::enums::{Direction, IdentityProvider, Role};
use edgereplica::shared::domain::ids::{hex_of, random_hex, DatabaseId, UserId};
use edgereplica::shared::error::StoreError;
use edgereplica::shared::repo_mem::drawn_id;

#[test]
fn role_roundtrips() {
    assert_eq!(Role::Admin.as_str().parse::<Role>().unwrap(), Role::Admin);
    assert_eq!(Role::Member.as_str().parse::<Role>().unwrap(), Role::Member);
    assert!("owner".parse::<Role>().is_err());
}

#[test]
fn direction_roundtrips() {
    assert_eq!("push".parse::<Direction>().unwrap(), Direction::Push);
    assert_eq!("pull".parse::<Direction>().unwrap(), Direction::Pull);
    assert!("sideways".parse::<Direction>().is_err());
}

#[test]
fn identity_provider_roundtrips() {
    assert_eq!(
        "github".parse::<IdentityProvider>().unwrap(),
        IdentityProvider::GitHub
    );
    assert_eq!(
        "google".parse::<IdentityProvider>().unwrap(),
        IdentityProvider::Google
    );
    assert_eq!(
        "password".parse::<IdentityProvider>().unwrap(),
        IdentityProvider::Password
    );
}

#[test]
fn unknown_names_are_named_in_the_error() {
    assert_eq!(
        IdentityProvider::from_str("gitlab").unwrap_err(),
        "unknown identity provider: gitlab"
    );
    assert!(Role::from_str("owner").unwrap_err().contains("owner"));
    assert!(Direction::from_str("sideways").unwrap_err().contains("sideways"));
}

#[test]
fn ids_compare_by_text() {
    assert_eq!(UserId::from("u_1"), UserId::from("u_1"));
    assert_ne!(UserId::from("u_1"), UserId::from("u_2"));
    assert_eq!(DatabaseId::from("db").clone().as_str(), "db");
}

#[test]
fn random_ids_are_hexadecimal_and_fresh() {
    let a = random_hex().unwrap();
    let b = random_hex().unwrap();
    assert_eq!(a.len(), 32);
    assert!(a.chars().all(|c| c.is_ascii_digit() || ('a'..='f').contains(&c)));
    assert_ne!(a, b);
}

#[test]
fn personal_org_is_named_after_the_email() {
    assert_eq!(personal_org_name("ada@example.com"), "ada@example.com (personal)");
}

#[test]
fn store_errors_read() {
    assert_eq!(StoreError::not_found("x").to_string(), "not found: x");
    assert_eq!(StoreError::already_exists("x").to_string(), "already exists: x");
    assert_eq!(StoreError::conflict("x").to_string(), "conflict: x");
    assert_eq!(StoreError::backend("x").to_string(), "backend: x");
}

#[test]
fn clocks_tell_time() {
    let mut clock = FixedClock::new(1_999);
    assert_eq!(clock.now_ms(), 1_999);
    assert_eq!(clock.now_unix_seconds(), 1);
    clock.advance(1);
    assert_eq!(clock.now_unix_seconds(), 2);
    assert_eq!(to_unix_seconds(-1_999), -1);
    assert_eq!(to_unix_seconds(i64::MIN), i64::MIN / 1000);
    assert!(SystemClock::new().now_ms() > 1_600_000_000_000);
}

#[test]
fn clocks_read_milliseconds() {
    assert_eq!(clock_reading(None), 0);
    assert_eq!(clock_reading(Some(1_700_000_000_123)), 1_700_000_000_123);
}

#[test]
fn drawn_bytes_become_ids() {
    let mut bytes = [0u8; 16];
    bytes[0] = 0xab;
    bytes[15] = 0x07;
    let id = hex_of(Ok(bytes)).unwrap();
    assert_eq!(id, "ab000000000000000000000000000007");
    assert_eq!(drawn_id(Ok(id)).unwrap(), "ab000000000000000000000000000007");
    assert_eq!(hex_of(Err("no entropy".to_string())), Err("no entropy".to_string()));
    let refused = drawn_id(Err("no entropy".to_string())).unwrap_err();
    assert!(matches!(refused, StoreError::Backend(_)));
    assert!(refused.to_string().ends_with("no entropy"));
}
