use edgereplica::shared::auth::keyring::Keyring;
use edgereplica::shared::auth::tokens as caveat_tokens;
use edgereplica::shared::clock::FixedClock;
use edgereplica::shared::domain::enums::{Direction, Role};
use edgereplica::shared::domain::ids::{DatabaseId, OrgId, UserId};
use edgereplica::shared::error::StoreError;
use edgereplica::shared::sync_protocol::SyncMessage;
use edgereplica::worker::auth::password::{
    check_lanes, hash_new_password, hash_password_with_draw, hash_password_with_salt,
    verify_password, PasswordError,
};
use edgereplica::worker::auth::tokens as claim_tokens;
use edgereplica::worker::config::{auto_migrate, load_config, load_keyring, Config, EnvVars};
use edgereplica::worker::do_edge_replica::{dispatch, Dispatch};
use edgereplica::worker::do_migrations::{
    ensure_schema, migrations, plan, step_error, Migration, MigrationStep,
};
use edgereplica::worker::do_sync_ws::{
    inspect_message, next_action, on_close, on_message, verify_issued_token, verify_token,
    SocketAction, SocketSink,
};
use edgereplica::worker::middleware::do_sync_auth::DoSyncAuthLayer;
use edgereplica::worker::middleware::extract_bearer;
use edgereplica::worker::middleware::request_id::RequestIdLayer;
use edgereplica::worker::middleware::session_auth::SessionAuthLayer;
use edgereplica::worker::routes::{html_escape, try_handle, url_decode};
use edgereplica::worker::services::common::{
    is_unique_violation, map_store_error, split_sql_statements, validate_database_name,
    validate_email,
};
use edgereplica::worker::services::oauth::urlencode;
use edgereplica::worker::services::rpc::RpcCode;
use edgereplica::worker::services::sync_fsm::{Outbox, SyncFsm};
use edgereplica::worker::services::sync_storage::InMemorySyncStorage;
use edgereplica::worker::sync_forward::{object_name, verify_request};

#[test]
fn extracts_bearer_case_insensitively() {
    assert_eq!(extract_bearer("Bearer abc").as_deref(), Some("abc"));
    assert_eq!(extract_bearer("bearer abc").as_deref(), Some("abc"));
    assert_eq!(extract_bearer("BEARER  abc ").as_deref(), Some("abc"));
    assert!(extract_bearer("Basic abc").is_none());
    assert!(extract_bearer("").is_none());
}

#[test]
fn hash_then_verify_roundtrips() {
    let hash = hash_new_password("correct horse battery").unwrap();
    verify_password(&hash, "correct horse battery").unwrap();
    assert!(verify_password(&hash, "wrong-password").is_err());
}

#[test]
fn rejects_short_password() {
    let err = hash_new_password("short").unwrap_err();
    assert!(matches!(err, PasswordError::TooShort(5)));
}

#[test]
fn hashes_are_argon2id_phc_strings() {
    let salt = "c29tZXNhbHQ";
    let hash = hash_password_with_salt("correct horse battery", salt).unwrap();
    assert!(hash.starts_with("$argon2id$v=19$m=4096,t=2,p=1$c29tZXNhbHQ$"), "got {hash}");
    assert_eq!(
        hash,
        hash_password_with_salt("correct horse battery", salt).unwrap()
    );
    assert!(matches!(
        hash_password_with_salt("correct horse battery", "!"),
        Err(PasswordError::HashFailed(_))
    ));
    assert_ne!(
        hash_new_password("correct horse battery").unwrap(),
        hash_new_password("correct horse battery").unwrap()
    );
}

#[test]
fn verifying_against_garbage_is_an_invalid_hash() {
    let err = verify_password("not a phc string", "whatever").unwrap_err();
    assert!(matches!(err, PasswordError::InvalidHash(_)));
    let hash = hash_new_password("correct horse battery").unwrap();
    assert_eq!(
        verify_password(&hash, "other").unwrap_err(),
        PasswordError::Mismatch
    );
}

#[test]
fn healthz_ok() {
    let reply = try_handle("GET", "/healthz", None).unwrap();
    assert_eq!(reply.status, 200);
    assert_eq!(reply.body, "ok");
}

#[test]
fn rpc_paths_defer() {
    assert!(try_handle("POST", "/edgereplica.admin.v1.AdminService/Login", None).is_none());
}

#[test]
fn oauth_callback_renders_copy_command_on_state_and_code() {
    let reply = try_handle("GET", "/oauth/github/callback", Some("state=abc&code=xyz")).unwrap();
    assert_eq!(reply.status, 200);
    assert!(reply.body.contains("edgereplica oauth complete"));
    assert!(reply.body.contains("--state abc"));
    assert!(reply.body.contains("--code xyz"));
}

#[test]
fn oauth_callback_400s_without_state_and_code() {
    let reply = try_handle("GET", "/oauth/github/callback", None).unwrap();
    assert_eq!(reply.status, 400);
}

#[test]
fn oauth_callback_surfaces_provider_error() {
    let reply = try_handle("GET", "/oauth/github/callback", Some("error=access_denied")).unwrap();
    assert_eq!(reply.status, 400);
    assert!(reply.body.contains("access_denied"));
}

#[test]
fn oauth_callback_decodes_and_escapes() {
    let reply = try_handle(
        "GET",
        "/oauth/github/callback",
        Some("state=a%2Fb+c&code=%3Cscript%3E&other=1"),
    )
    .unwrap();
    assert!(reply.body.contains("--state a/b c"), "got {}", reply.body);
    assert!(!reply.body.contains("<script>"));
    assert!(reply.body.contains("&lt;script&gt;"));
    assert_eq!(try_handle("POST", "/oauth/github/callback", None).unwrap().status, 404);
    assert_eq!(try_handle("GET", "/oauth/other", None).unwrap().status, 404);
}

fn caveat_session(kr: &Keyring) -> String {
    caveat_tokens::mint_session(
        kr,
        caveat_tokens::MintSessionInput {
            user_id: &UserId::from("u"),
            email: "e",
            org: &OrgId::from("o"),
            role: Role::Admin,
            now_unix: 0,
            ttl_seconds: 100,
        },
    )
    .unwrap()
}

fn claim_session(kr: &Keyring) -> String {
    claim_tokens::mint_session(
        kr,
        claim_tokens::MintSessionInput {
            user_id: &UserId::from("u"),
            email: "e",
            org: &OrgId::from("o"),
            role: Role::Admin,
            now_unix: 0,
            ttl_seconds: 100,
        },
    )
    .unwrap()
}

fn caveat_sync(kr: &Keyring) -> String {
    caveat_tokens::mint_sync(
        kr,
        caveat_tokens::MintSyncInput {
            user_id: &UserId::from("u"),
            org: &OrgId::from("o"),
            database: &DatabaseId::from("d"),
            direction: Direction::Pull,
            now_unix: 0,
            ttl_seconds: 100,
        },
    )
    .unwrap()
}

fn claim_sync(kr: &Keyring) -> String {
    claim_tokens::mint_sync(
        kr,
        claim_tokens::MintSyncInput {
            user_id: &UserId::from("u"),
            org: &OrgId::from("o"),
            database: &DatabaseId::from("d"),
            direction: Direction::Pull,
            now_unix: 0,
            ttl_seconds: 100,
        },
    )
    .unwrap()
}

#[test]
fn session_layer_decodes_but_does_not_gate() {
    let kr = Keyring::dev_default();
    let layer = SessionAuthLayer::new(kr.clone(), FixedClock::new(50_000));
    let header = format!("Bearer {}", caveat_session(&kr));
    assert_eq!(layer.decode(Some(&header)).unwrap().user, UserId::from("u"));
    assert!(layer.decode(None).is_none());
    assert!(layer.decode(Some("Bearer junk")).is_none());
    let late = SessionAuthLayer::new(kr, FixedClock::new(100_000));
    assert!(late.decode(Some(&header)).is_none());
}

#[test]
fn session_layer_decodes_issued_sessions() {
    let kr = Keyring::dev_default();
    let layer = SessionAuthLayer::new(kr.clone(), FixedClock::new(50_000));
    let header = format!("Bearer {}", claim_session(&kr));
    let session = layer.decode_issued(Some(&header)).unwrap();
    assert_eq!(session.user, UserId::from("u"));
    assert_eq!(session.exp_unix, 100);
    assert!(layer.decode_issued(None).is_none());
    assert!(layer.decode_issued(Some(&format!("Bearer {}", claim_sync(&kr)))).is_none());
}

#[test]
fn sync_layer_decodes_grants() {
    let kr = Keyring::dev_default();
    let layer = DoSyncAuthLayer::new(kr.clone(), FixedClock::new(50_000));
    let header = format!("Bearer {}", caveat_sync(&kr));
    assert_eq!(layer.decode(Some(&header)).unwrap().database, DatabaseId::from("d"));
    assert!(layer.decode(Some("Basic x")).is_none());
    let issued = format!("bearer {}", claim_sync(&kr));
    assert_eq!(
        layer.decode_issued(Some(&issued)).unwrap().direction,
        Direction::Pull
    );
    assert!(layer.decode_issued(Some(&header)).is_none());
}

#[test]
fn request_ids_count_up_or_are_kept() {
    let mut layer = RequestIdLayer::new();
    assert_eq!(layer.assign(None).0, b"req-0");
    assert_eq!(layer.assign(Some(b"given")).0, b"given");
    assert_eq!(layer.assign(None).0, b"req-1");
}

#[test]
fn edge_and_object_agree_on_issued_tokens() {
    let kr = Keyring::dev_default();
    let header = format!("Bearer {}", claim_sync(&kr));
    let ctx = verify_request(&kr, 50, Some(&header)).unwrap();
    assert_eq!(object_name(&ctx), "d");
    assert_eq!(verify_issued_token(&kr, 50, Ok(Some(&header))).unwrap(), ctx);
    let reply = verify_request(&kr, 100, Some(&header)).unwrap_err();
    assert_eq!(reply.status, 401);
    assert_eq!(reply.body, "invalid sync token: token expired");
    assert_eq!(verify_issued_token(&kr, 100, Ok(Some(&header))), Err(401));
    assert_eq!(verify_request(&kr, 50, None).unwrap_err().body, "missing bearer token");
    assert_eq!(verify_issued_token(&kr, 50, Err(())), Err(400));
}

#[test]
fn upgrades_are_verified_by_caveats() {
    let kr = Keyring::dev_default();
    let header = format!("Bearer {}", caveat_sync(&kr));
    assert_eq!(
        verify_token(&kr, 50, Ok(Some(&header))).unwrap().direction,
        Direction::Pull
    );
    assert_eq!(verify_token(&kr, 50, Ok(None)), Err(401));
    assert_eq!(verify_token(&kr, 50, Err(())), Err(400));
    assert_eq!(verify_token(&kr, 50, Ok(Some("Bearer junk"))), Err(401));
}

#[test]
fn the_object_takes_upgrades_only() {
    assert_eq!(dispatch(Some("WebSocket")), Dispatch::Upgrade);
    assert_eq!(
        dispatch(None),
        Dispatch::Refuse {
            status: 400,
            body: "EdgeReplica DO accepts only WebSocket upgrades".to_string()
        }
    );
}

#[test]
fn sockets_run_a_sync() {
    let mut fsm = SyncFsm::new(
        InMemorySyncStorage::new(),
        FixedClock::new(0),
        Direction::Push,
    );
    let mut sink = SocketSink {
        inner: Outbox::new(),
        failed: false,
    };
    let hello = SyncMessage::Hello {
        protocol_version: 1,
        page_size: 4096,
        max_page: 0,
    };
    assert_eq!(on_message(&mut fsm, Ok(hello), &mut sink), SocketAction::Continue);
    assert_eq!(
        on_message(&mut fsm, Ok(SyncMessage::Complete), &mut sink),
        SocketAction::Close {
            code: 1000,
            reason: "sync complete"
        }
    );
    assert_eq!(sink.inner.messages.len(), 2);
    assert_eq!(on_close(&mut fsm), SocketAction::Stop);
}

#[test]
fn sockets_report_what_went_wrong() {
    let mut fsm = SyncFsm::new(
        InMemorySyncStorage::new(),
        FixedClock::new(0),
        Direction::Push,
    );
    let mut sink = SocketSink {
        inner: Outbox::new(),
        failed: false,
    };
    assert_eq!(
        on_message(&mut fsm, Ok(SyncMessage::Complete), &mut sink),
        SocketAction::Fail {
            message: "first message must be Hello".to_string(),
            code: 1011,
            reason: "server error"
        }
    );
    assert_eq!(
        on_message(&mut fsm, Err("bad".to_string()), &mut sink),
        SocketAction::Fail {
            message: "decode: msgpack decode: bad".to_string(),
            code: 1002,
            reason: "protocol error"
        }
    );
    assert_eq!(inspect_message(Some(&[1, 7])), Ok(vec![7]));
    assert!(matches!(
        inspect_message(Some(&[])),
        Err(SocketAction::Fail { code: 1002, .. })
    ));
    assert!(matches!(
        inspect_message(None),
        Err(SocketAction::Fail { code: 1003, .. })
    ));
    assert_eq!(next_action(true, Ok(()), true), SocketAction::Stop);
}

#[test]
fn emails_are_checked() {
    assert!(validate_email(" ada@example.com ").is_ok());
    assert_eq!(validate_email("  ").unwrap_err().message, "email is required");
    assert_eq!(validate_email("ada").unwrap_err().message, "email must contain '@'");
    for bad in ["@x", "x@", "a@b@c"] {
        let err = validate_email(bad).unwrap_err();
        assert_eq!(err.code, RpcCode::InvalidArgument);
        assert_eq!(err.message, "malformed email");
    }
}

#[test]
fn database_names_are_checked() {
    assert!(validate_database_name(" main_db-1 ").is_ok());
    assert_eq!(
        validate_database_name("").unwrap_err().message,
        "database name is required"
    );
    assert!(validate_database_name(&"x".repeat(64)).is_ok());
    assert_eq!(
        validate_database_name(&"x".repeat(65)).unwrap_err().message,
        "database name too long (max 64 chars)"
    );
    assert_eq!(
        validate_database_name("caf\u{e9}").unwrap_err().message,
        "database name may only contain ASCII alphanumerics, '-', '_'"
    );
}

#[test]
fn store_errors_map_to_codes() {
    for (e, code) in [
        (StoreError::not_found("m"), RpcCode::NotFound),
        (StoreError::already_exists("m"), RpcCode::AlreadyExists),
        (StoreError::conflict("m"), RpcCode::FailedPrecondition),
        (StoreError::backend("m"), RpcCode::Internal),
    ] {
        let mapped = map_store_error(e);
        assert_eq!(mapped.code, code);
        assert_eq!(mapped.message, "m");
    }
    assert!(is_unique_violation("D1_ERROR: UNIQUE constraint failed: users.email"));
    assert!(!is_unique_violation("UNIQUE"));
}

#[test]
fn sql_is_split_into_statements() {
    let sql = "-- head\nCREATE TABLE a (\n  x INT -- kept\n);\n\n;  \r\nDROP TABLE b ;";
    assert_eq!(
        split_sql_statements(sql),
        vec!["CREATE TABLE a ( x INT -- kept )", "DROP TABLE b"]
    );
    assert!(split_sql_statements("-- only a comment").is_empty());
    assert_eq!(
        split_sql_statements("CREATE  TABLE\n   a (x);\n-- note\n;SELECT   1"),
        vec!["CREATE TABLE a (x)", "SELECT 1"]
    );
    assert_eq!(split_sql_statements("-- first; second\nSELECT 1;"), vec!["SELECT 1"]);
    assert_eq!(
        split_sql_statements("SELECT\t1; -- note\nSELECT 2"),
        vec!["SELECT 1", "SELECT 2"]
    );
    let statements = split_sql_statements(sql);
    assert_eq!(split_sql_statements(&statements.join(";")), statements);
}

#[test]
fn migrations_run_in_order_and_once() {
    assert_eq!(migrations().len(), 1);
    let steps = ensure_schema(None);
    assert_eq!(steps.len(), 3);
    assert_eq!(
        steps[0],
        MigrationStep::Run {
            version: 1,
            statement: "CREATE TABLE IF NOT EXISTS schema_version ( version INTEGER PRIMARY KEY, applied_at_ms INTEGER NOT NULL )".to_string()
        }
    );
    assert_eq!(steps[2], MigrationStep::Stamp { version: 1 });
    assert!(ensure_schema(Some(1)).is_empty());
    let two = vec![
        Migration {
            version: 1,
            sql: "A",
        },
        Migration {
            version: 2,
            sql: "B; C",
        },
    ];
    assert_eq!(plan(&two, Some(1)).len(), 3);
    assert_eq!(
        step_error(&steps[2], "boom").to_string(),
        "v1 stamp: boom"
    );
    assert_eq!(
        step_error(
            &MigrationStep::Run {
                version: 2,
                statement: "B".to_string()
            },
            "boom"
        )
        .to_string(),
        "v2: boom [B]"
    );
}

fn no_env() -> EnvVars {
    EnvVars {
        session_ttl_seconds: None,
        sync_token_ttl_seconds: None,
        max_sync_token_ttl_seconds: None,
        oauth_state_ttl_seconds: None,
        oauth_redirect_base: None,
        github_client_id: None,
        github_client_secret: None,
        google_client_id: None,
        google_client_secret: None,
    }
}

#[test]
fn config_comes_from_the_environment() {
    assert_eq!(load_config(&no_env()), Config::default());
    let mut env = no_env();
    env.session_ttl_seconds = Some("60".to_string());
    env.sync_token_ttl_seconds = Some("soon".to_string());
    env.oauth_redirect_base = Some("  ".to_string());
    env.github_client_id = Some("id".to_string());
    let config = load_config(&env);
    assert_eq!(config.session_ttl_seconds, 60);
    assert_eq!(config.sync_token_ttl_seconds, 3600);
    assert_eq!(config.oauth_redirect_base, "");
    assert_eq!(config.github_client_id.as_deref(), Some("id"));
    assert!(config.ttls_fit());
    let mut wild = Config::default();
    wild.session_ttl_seconds = i64::MAX;
    assert!(!wild.ttls_fit());
}

#[test]
fn keys_fall_back_with_a_warning() {
    let dev = Keyring::dev_default();
    let (key, warning) = load_keyring(None);
    assert_eq!(key.root(), dev.root());
    assert_eq!(
        warning.as_deref(),
        Some("SESSION_KEY unset; using deterministic dev key")
    );
    let (key, warning) = load_keyring(Some("AAAA"));
    assert_eq!(key.root(), dev.root());
    assert_eq!(
        warning.as_deref(),
        Some("invalid SESSION_KEY (invalid key length: 3 (need 32)); using dev fallback")
    );
    let (key, warning) = load_keyring(Some("AAAAAAAAAAAAAAAAAAAAAAAAAAAAAAAAAAAAAAAAAAA="));
    assert_eq!(key.root(), &[0u8; 32]);
    assert!(warning.is_none());
    assert!(auto_migrate(Some("yes")));
    assert!(!auto_migrate(Some("no")));
    assert!(!auto_migrate(None));
}

#[test]
fn drawn_bytes_salt_a_password() {
    let hash = hash_password_with_draw("correct horse battery", Ok([0u8; 16])).unwrap();
    assert!(
        hash.starts_with("$argon2id$v=19$m=4096,t=2,p=1$AAAAAAAAAAAAAAAAAAAAAA$"),
        "got {hash}"
    );
    verify_password(&hash, "correct horse battery").unwrap();
    assert_eq!(
        hash_password_with_draw("correct horse battery", Err("no entropy".to_string())),
        Err(PasswordError::HashFailed("no entropy".to_string()))
    );
    assert_eq!(
        hash_password_with_draw("short", Err("no entropy".to_string())),
        Err(PasswordError::TooShort(5))
    );
}

#[test]
fn stored_hashes_may_not_ask_for_too_many_lanes() {
    let hash = hash_password_with_salt("correct horse battery", "c29tZXNhbHQ").unwrap();
    for lanes in ["536870912", "16777216", "1,p=536870912"] {
        let stored = hash.replace("p=1", &format!("p={lanes}"));
        assert_eq!(
            verify_password(&stored, "correct horse battery"),
            Err(PasswordError::Mismatch)
        );
    }
    assert!(check_lanes(&vec![("p".to_string(), Some(0xff_ffff)), ("m".to_string(), None)]));
    assert!(!check_lanes(&vec![("p".to_string(), Some(1)), ("p".to_string(), Some(0x100_0000))]));
}

#[test]
fn decoding_undoes_encoding() {
    for s in ["a b", "50%+1&x=\u{7f}\n", "", "plain-._~"] {
        assert_eq!(url_decode(&urlencode(s)), s);
    }
    assert_eq!(url_decode("%+1%zz%4"), "% 1%zz%4");
}

#[test]
fn escaping_distributes() {
    assert_eq!(html_escape("<a&b>\"'"), "&lt;a&amp;b&gt;&quot;&#39;");
    assert_eq!(
        html_escape(&format!("{}{}", "<x", "&y>")),
        format!("{}{}", html_escape("<x"), html_escape("&y>"))
    );
}
