use edgereplica::shared::domain::enums::IdentityProvider;
use edgereplica::worker::config::Config;
use edgereplica::worker::routes::try_handle;
use edgereplica::worker::services::oauth::{
    access_token_of, check_status, email_of, exchange_body, fetch_error, github_authorization,
    github_authorize_url, github_credentials, identity_of, urlencode, user_step, EmailEntry,
    FetchStage, TokenResponse, UserResponse, UserStep,
};
use edgereplica::worker::services::rpc::RpcCode;

#[test]
fn urlencode_handles_reserved_chars() {
    assert_eq!(urlencode("hello world"), "hello+world");
    assert_eq!(urlencode("a/b?c=d&e"), "a%2Fb%3Fc%3Dd%26e");
    assert_eq!(urlencode("plain.text-1_2~3"), "plain.text-1_2~3");
}

#[test]
fn urlencode_goes_by_bytes() {
    assert_eq!(urlencode("\u{e9}\u{0}"), "%C3%A9%00");
}

#[test]
fn the_callback_page_decodes_what_was_encoded() {
    let state = "a b/c+d%e";
    let query = format!("state={}&code=x", urlencode(state));
    let reply = try_handle("GET", "/oauth/github/callback", Some(&query)).unwrap();
    assert!(reply.body.contains(&format!("--state {state}")));
}

fn configured() -> Config {
    let mut config = Config::default();
    config.github_client_id = Some("id".to_string());
    config.github_client_secret = Some("s&t".to_string());
    config
}

#[test]
fn urls_and_bodies() {
    assert_eq!(
        github_authorize_url("id", "https://x/cb", "st"),
        "https://github.com/login/oauth/authorize?client_id=id&redirect_uri=https%3A%2F%2Fx%2Fcb&state=st&scope=read%3Auser+user%3Aemail"
    );
    assert_eq!(
        exchange_body(&configured(), "c d", "https://x").unwrap(),
        "client_id=id&client_secret=s%26t&code=c+d&redirect_uri=https%3A%2F%2Fx"
    );
    assert_eq!(github_authorization("tok"), "Bearer tok");
}

#[test]
fn both_credentials_are_needed() {
    assert_eq!(github_credentials(&configured()), Some(("id", "s&t")));
    let mut half = configured();
    half.github_client_secret = None;
    assert_eq!(github_credentials(&half), None);
    let err = exchange_body(&half, "c", "u").unwrap_err();
    assert_eq!(err.code, RpcCode::FailedPrecondition);
    assert_eq!(err.message, "github oauth not configured");
}

#[test]
fn token_replies() {
    let reply = |token: Option<&str>, error: Option<&str>, detail: Option<&str>| TokenResponse {
        access_token: token.map(str::to_string),
        error: error.map(str::to_string),
        error_description: detail.map(str::to_string),
    };
    assert_eq!(access_token_of(reply(Some("t"), None, None)).unwrap(), "t");
    let err = access_token_of(reply(Some("t"), Some("bad"), Some("why"))).unwrap_err();
    assert_eq!(err.code, RpcCode::PermissionDenied);
    assert_eq!(err.message, "github oauth: bad why");
    let err = access_token_of(reply(None, Some("bad"), None)).unwrap_err();
    assert_eq!(err.message, "github oauth: bad ");
    let err = access_token_of(reply(None, None, None)).unwrap_err();
    assert_eq!(err.code, RpcCode::Internal);
}

fn entry(email: &str, primary: bool, verified: bool) -> EmailEntry {
    EmailEntry {
        email: email.to_string(),
        primary,
        verified,
    }
}

#[test]
fn emails_are_verified_ones() {
    let all = vec![
        entry("a", true, false),
        entry("b", false, true),
        entry("c", true, true),
        entry("d", true, true),
    ];
    assert_eq!(email_of(&all).unwrap(), "c");
    let no_primary = vec![
        entry("a", true, false),
        entry("b", false, true),
        entry("c", false, true),
    ];
    assert_eq!(email_of(&no_primary).unwrap(), "b");
    let err = email_of(&vec![entry("a", true, false)]).unwrap_err();
    assert_eq!(err.code, RpcCode::FailedPrecondition);
    assert_eq!(err.message, "github account has no verified email");
}

#[test]
fn identities_are_assembled() {
    match user_step(UserResponse {
        id: 42,
        email: Some("a@b".to_string()),
    }) {
        UserStep::Done(i) => {
            assert_eq!(i.provider, IdentityProvider::GitHub);
            assert_eq!(i.provider_user_id, "42");
            assert_eq!(i.email, "a@b");
        }
        other => panic!("got {other:?}"),
    }
    match user_step(UserResponse { id: 7, email: None }) {
        UserStep::AskEmails(id) => {
            let i = identity_of(id, &vec![entry("x@y", true, true)]).unwrap();
            assert_eq!(i.provider_user_id, "7");
            assert_eq!(i.email, "x@y");
        }
        other => panic!("got {other:?}"),
    }
}

#[test]
fn failures_are_told_apart() {
    assert!(check_status("u", 204).is_ok());
    let err = check_status("u", 404).unwrap_err();
    assert_eq!(err.code, RpcCode::Internal);
    assert_eq!(err.message, "github GET u: status 404");
    let err = fetch_error(FetchStage::SendGet("u"), "down");
    assert_eq!(err.code, RpcCode::Unavailable);
    assert_eq!(err.message, "github GET u: down");
    let err = fetch_error(FetchStage::SendTokenRequest, "down");
    assert_eq!(err.code, RpcCode::Unavailable);
    assert_eq!(err.message, "github token endpoint: down");
    for (stage, message) in [
        (FetchStage::BuildTokenRequest, "oauth token req: x"),
        (FetchStage::ReadTokenReply, "read token resp: x"),
        (FetchStage::DecodeTokenReply, "decode token resp: x"),
        (FetchStage::DecodeUser, "decode /user: x"),
        (FetchStage::DecodeEmails, "decode /user/emails: x"),
        (FetchStage::BuildGet("u"), "oauth req u: x"),
        (FetchStage::ReadGet("u"), "read body u: x"),
    ] {
        let err = fetch_error(stage, "x");
        assert_eq!(err.code, RpcCode::Internal);
        assert_eq!(err.message, message);
    }
}
