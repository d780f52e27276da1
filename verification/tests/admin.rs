use edgereplica::shared::auth::keyring::Keyring;
use edgereplica::shared::auth::session::SessionContext;
use edgereplica::shared::clock::{Clock, FixedClock, SystemClock};
use edgereplica::shared::domain::enums::{Direction, IdentityProvider, Role};
use edgereplica::shared::domain::ids::{OrgId, UserId};
use edgereplica::shared::repo_mem::InMemoryRepo;
use edgereplica::worker::auth::tokens::{verify_session, verify_sync};
use edgereplica::worker::config::Config;
use edgereplica::worker::services::admin::AdminServer;
use edgereplica::worker::services::oauth::OAuthIdentity;
use edgereplica::worker::services::rpc::RpcCode;
use edgereplica::worker::state::AppState;

fn server() -> AdminServer<InMemoryRepo, SystemClock> {
    AdminServer::new(AppState {
        repo: InMemoryRepo::new(),
        keyring: Keyring::dev_default(),
        clock: SystemClock::new(),
        config: Config::default(),
    })
}

fn fixed(config: Config) -> AdminServer<InMemoryRepo, FixedClock> {
    AdminServer::new(AppState {
        repo: InMemoryRepo::new(),
        keyring: Keyring::dev_default(),
        clock: FixedClock::new(1_000_000),
        config,
    })
}

fn signup<C: Clock>(server: &mut AdminServer<InMemoryRepo, C>, email: &str, pw: &str) -> String {
    server.signup(email, pw).unwrap().session_token
}

fn parse_session<C: Clock>(server: &AdminServer<InMemoryRepo, C>, token: &str) -> SessionContext {
    verify_session(
        &server.state.keyring,
        server.state.clock.now_unix_seconds(),
        token,
    )
    .unwrap()
}

#[test]
fn signup_then_login_round_trip() {
    let mut server = server();
    let token = signup(&mut server, "ada@example.com", "correct horse staple");

    let resp = server.login("ada@example.com", "correct horse staple").unwrap();
    assert!(!resp.session_token.is_empty());

    let session = parse_session(&server, &token);
    assert_eq!(session.email, "ada@example.com");
    assert_eq!(session.role, Role::Admin);
}

#[test]
fn login_rejects_wrong_password() {
    let mut server = server();
    signup(&mut server, "x@y", "right-password");
    let err = server.login("x@y", "wrong-password").unwrap_err();
    assert_eq!(err.code, RpcCode::Unauthenticated);
}

#[test]
fn whoami_returns_session_org_and_role() {
    let mut server = server();
    let token = signup(&mut server, "ada@example.com", "verylong-password");
    let session = parse_session(&server, &token);

    let info = server.whoami(Some(session.clone())).unwrap();
    assert_eq!(info.email, "ada@example.com");
    assert_eq!(info.org_id, session.org.as_str());
    assert_eq!(info.role, "admin");
}

#[test]
fn whoami_requires_session() {
    let server = server();
    let err = server.whoami(None).unwrap_err();
    assert_eq!(err.code, RpcCode::Unauthenticated);
}

#[test]
fn create_database_and_list_and_delete() {
    let mut server = server();
    let token = signup(&mut server, "x@y", "verylong-password");
    let session = parse_session(&server, &token);

    let created = server.create_database(Some(session.clone()), "main").unwrap();
    assert_eq!(created.name, "main");

    let list = server.list_databases(Some(session.clone())).unwrap();
    assert_eq!(list.len(), 1);
    assert_eq!(list[0].id, created.id);

    server.delete_database(Some(session.clone()), &created.id).unwrap();

    let list_after = server.list_databases(Some(session)).unwrap();
    assert_eq!(list_after.len(), 0);
}

#[test]
fn create_database_validates_name() {
    let mut server = server();
    let token = signup(&mut server, "x@y", "verylong-password");
    let session = parse_session(&server, &token);
    let err = server
        .create_database(Some(session), "bad name with spaces")
        .unwrap_err();
    assert_eq!(err.code, RpcCode::InvalidArgument);
}

#[test]
fn issue_sync_token_returns_verifiable_token() {
    let mut server = server();
    let token = signup(&mut server, "x@y", "verylong-password");
    let session = parse_session(&server, &token);
    let db = server.create_database(Some(session.clone()), "main").unwrap();

    let resp = server
        .issue_sync_token(Some(session.clone()), &db.id, Some(Direction::Push), 60)
        .unwrap();
    assert!(!resp.token.is_empty());

    let verified = verify_sync(
        &server.state.keyring,
        server.state.clock.now_unix_seconds(),
        &resp.token,
    )
    .unwrap();
    assert_eq!(verified.user, session.user);
    assert_eq!(verified.org, session.org);
    assert_eq!(verified.database.as_str(), db.id);
    assert_eq!(verified.direction, Direction::Push);
}

#[test]
fn issue_sync_token_caps_ttl_at_max() {
    let mut server = server();
    let token = signup(&mut server, "x@y", "verylong-password");
    let session = parse_session(&server, &token);
    let db = server.create_database(Some(session.clone()), "main").unwrap();

    // Request a wildly excessive ttl; expect the cap.
    let resp = server
        .issue_sync_token(Some(session), &db.id, Some(Direction::Pull), 365 * 24 * 3600)
        .unwrap();
    let now = server.state.clock.now_unix_seconds();
    assert!(resp.exp_unix - now <= server.state.config.max_sync_token_ttl_seconds);
}

#[test]
fn ttl_is_requested_default_or_cap() {
    let server = fixed(Config::default());
    assert_eq!(server.sync_ttl(60), 60);
    assert_eq!(server.sync_ttl(0), 3600);
    assert_eq!(server.sync_ttl(-5), 3600);
    assert_eq!(server.sync_ttl(1_000_000), 86_400);
    let mut config = Config::default();
    config.sync_token_ttl_seconds = 90_000;
    assert_eq!(fixed(config).sync_ttl(0), 86_400);
}

#[test]
fn sessions_expire_after_the_configured_time() {
    let mut server = fixed(Config::default());
    let token = signup(&mut server, "x@y", "verylong-password");
    let session = verify_session(&server.state.keyring, 1_000, &token).unwrap();
    assert_eq!(session.exp_unix, 1_000 + 86_400);
    assert!(verify_session(&server.state.keyring, 1_000 + 86_400, &token).is_err());
}

#[test]
fn signup_refuses_bad_input() {
    let mut server = server();
    assert_eq!(
        server.signup("no-at-sign", "verylong-password").unwrap_err().code,
        RpcCode::InvalidArgument
    );
    let err = server.signup("x@y", "short").unwrap_err();
    assert_eq!(err.code, RpcCode::InvalidArgument);
    assert_eq!(err.message, "password too short (5 chars, need 8)");
    signup(&mut server, "x@y", "verylong-password");
    let err = server.signup("X@Y", "verylong-password").unwrap_err();
    assert_eq!(err.code, RpcCode::AlreadyExists);
    assert_eq!(err.message, "user with email X@Y");
}

#[test]
fn login_does_not_tell_users_apart() {
    let server = server();
    let err = server.login("nobody@x", "whatever-password").unwrap_err();
    assert_eq!(err.code, RpcCode::Unauthenticated);
    assert_eq!(err.message, "invalid credentials");
}

#[test]
fn whoami_of_the_departed() {
    let mut server = server();
    let token = signup(&mut server, "x@y", "verylong-password");
    let session = parse_session(&server, &token);
    let mut stranger = session.clone();
    stranger.user = UserId::from("nobody");
    let err = server.whoami(Some(stranger)).unwrap_err();
    assert_eq!(err.code, RpcCode::Unauthenticated);
    assert_eq!(err.message, "session user no longer exists");
    let mut elsewhere = session;
    elsewhere.org = OrgId::from("gone");
    let err = server.whoami(Some(elsewhere)).unwrap_err();
    assert_eq!(err.code, RpcCode::FailedPrecondition);
    assert_eq!(err.message, "session org no longer exists");
}

#[test]
fn databases_are_kept_from_members_and_strangers() {
    let mut server = server();
    let token = signup(&mut server, "a@x", "verylong-password");
    let owner = parse_session(&server, &token);
    let db = server.create_database(Some(owner.clone()), " main ").unwrap();
    assert_eq!(db.name, "main");
    assert_eq!(
        server.create_database(Some(owner.clone()), "main").unwrap_err().code,
        RpcCode::AlreadyExists
    );

    let mut member = owner.clone();
    member.role = Role::Member;
    let err = server.create_database(Some(member.clone()), "other").unwrap_err();
    assert_eq!(err.code, RpcCode::PermissionDenied);
    assert_eq!(err.message, "admin role required to create a database");
    let err = server.delete_database(Some(member), &db.id).unwrap_err();
    assert_eq!(err.message, "admin role required to delete a database");

    let token = signup(&mut server, "b@x", "verylong-password");
    let stranger = parse_session(&server, &token);
    let err = server.delete_database(Some(stranger.clone()), &db.id).unwrap_err();
    assert_eq!(err.code, RpcCode::PermissionDenied);
    assert_eq!(err.message, "database belongs to another organization");
    let err = server
        .issue_sync_token(Some(stranger), &db.id, Some(Direction::Pull), 0)
        .unwrap_err();
    assert_eq!(err.code, RpcCode::PermissionDenied);

    let err = server.delete_database(Some(owner.clone()), "gone").unwrap_err();
    assert_eq!(err.code, RpcCode::NotFound);
    let err = server
        .issue_sync_token(Some(owner.clone()), "gone", Some(Direction::Pull), 0)
        .unwrap_err();
    assert_eq!(err.code, RpcCode::NotFound);
    let err = server.issue_sync_token(Some(owner), &db.id, None, 0).unwrap_err();
    assert_eq!(err.code, RpcCode::InvalidArgument);
    assert_eq!(
        err.message,
        "direction must be DIRECTION_PUSH or DIRECTION_PULL"
    );
}

#[test]
fn handlers_require_a_session() {
    let mut server = server();
    assert_eq!(
        server.create_database(None, "x").unwrap_err().message,
        "session token required"
    );
    assert_eq!(
        server.list_databases(None).unwrap_err().code,
        RpcCode::Unauthenticated
    );
    assert_eq!(
        server.delete_database(None, "x").unwrap_err().code,
        RpcCode::Unauthenticated
    );
    assert_eq!(
        server.issue_sync_token(None, "x", None, 0).unwrap_err().code,
        RpcCode::Unauthenticated
    );
}

fn github() -> Config {
    let mut config = Config::default();
    config.github_client_id = Some("id&1".to_string());
    config.github_client_secret = Some("sec".to_string());
    config.oauth_redirect_base = "https://w.example/".to_string();
    config
}

#[test]
fn oauth_is_unimplemented_until_configured() {
    let mut server = fixed(Config::default());
    let err = server.start_o_auth("github").unwrap_err();
    assert_eq!(err.code, RpcCode::Unimplemented);
    assert_eq!(err.message, "github oauth not configured on this deployment");
    let err = server.start_o_auth("google").unwrap_err();
    assert_eq!(err.message, "oauth provider `google` not supported");
    let err = server.start_o_auth("gitlab").unwrap_err();
    assert_eq!(err.code, RpcCode::InvalidArgument);
    assert_eq!(err.message, "unknown oauth provider `gitlab`");
    let mut config = github();
    config.oauth_redirect_base = "  ".to_string();
    let err = fixed(config).start_o_auth("github").unwrap_err();
    assert_eq!(err.code, RpcCode::Unimplemented);
    assert_eq!(err.message, "OAUTH_REDIRECT_BASE not set on this deployment");
}

#[test]
fn oauth_round_trip() {
    let mut server = fixed(github());
    let started = server.start_o_auth("github").unwrap();
    assert_eq!(
        started.redirect_url,
        format!(
            "https://github.com/login/oauth/authorize?client_id=id%261&redirect_uri=https%3A%2F%2Fw.example%2Foauth%2Fgithub%2Fcallback&state={}&scope=read%3Auser+user%3Aemail",
            started.state
        )
    );
    let uri = server.redeem_o_auth_state(&started.state, 1_000_001).unwrap();
    assert_eq!(uri, "https://w.example/oauth/github/callback");
    let err = server.redeem_o_auth_state(&started.state, 1_000_001).unwrap_err();
    assert_eq!(err.code, RpcCode::PermissionDenied);
    assert_eq!(err.message, "invalid or expired oauth state");

    let identity = || OAuthIdentity {
        provider: IdentityProvider::GitHub,
        provider_user_id: "42".to_string(),
        email: "ada@gh".to_string(),
    };
    let first = server.complete_o_auth(identity(), 1_000_001, 1_000).unwrap();
    assert!(first.whoami.is_none());
    let a = parse_session(&server, &first.session_token);
    let second = server.complete_o_auth(identity(), 1_000_002, 1_000).unwrap();
    let b = parse_session(&server, &second.session_token);
    assert_eq!(a.user, b.user);
    assert_eq!(a.email, "ada@gh");
}

#[test]
fn oauth_states_expire() {
    let mut server = fixed(github());
    let started = server
        .start_o_auth_with("github", "s".to_string(), 1_000)
        .unwrap();
    assert_eq!(started.state, "s");
    let err = server.redeem_o_auth_state("s", 1_000 + 600_001).unwrap_err();
    assert_eq!(err.code, RpcCode::PermissionDenied);
    server.start_o_auth_with("github", "t".to_string(), 1_000).unwrap();
    assert!(server.redeem_o_auth_state("t", 1_000 + 600_000).is_ok());
}

#[test]
fn completing_oauth_needs_credentials() {
    let mut server = fixed(github());
    for state in ["s", "t"] {
        server.start_o_auth_with("github", state.to_string(), 1_000).unwrap();
    }
    server.state.config.github_client_secret = None;
    let err = server.redeem_o_auth_state("s", 1_001).unwrap_err();
    assert_eq!(err.code, RpcCode::Unimplemented);
    assert_eq!(err.message, "github oauth not configured on this deployment");
    // The state is consumed all the same.
    let err = server.redeem_o_auth_state("s", 1_001).unwrap_err();
    assert_eq!(err.code, RpcCode::PermissionDenied);
    server.state.config = github();
    server.state.config.oauth_redirect_base = String::new();
    let err = server.redeem_o_auth_state("t", 1_001).unwrap_err();
    assert_eq!(err.message, "OAUTH_REDIRECT_BASE not set on this deployment");
}

#[test]
fn oauth_does_not_take_over_an_email() {
    let mut server = fixed(github());
    signup(&mut server, "ada@gh", "verylong-password");
    let err = server
        .complete_o_auth(
            OAuthIdentity {
                provider: IdentityProvider::GitHub,
                provider_user_id: "42".to_string(),
                email: "ADA@gh".to_string(),
            },
            1_000_000,
            1_000,
        )
        .unwrap_err();
    assert_eq!(err.code, RpcCode::AlreadyExists);
}

#[test]
fn database_times_are_whole_seconds() {
    let mut server = fixed(Config::default());
    let token = signup(&mut server, "a@x", "verylong-password");
    let session = parse_session(&server, &token);
    let db = server.create_database_at(Some(session), "main", 12_999).unwrap();
    assert_eq!(db.created_at_unix, 12);
}
