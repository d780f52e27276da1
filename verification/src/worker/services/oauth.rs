//! GitHub OAuth flow (CLI-friendly): the worker generates an authorize
//! URL with a CSRF state, the user opens it in a browser, GitHub
//! redirects to `/oauth/github/callback?state=...&code=...`, the
//! callback page surfaces the values, and the user pastes them into
//! `edgereplica oauth complete --state ... --code ...`.
//!
//! Scopes used: `read:user user:email` (a verified primary email is needed
//! to look up / create the local user, and nothing else).
//!
//! The module says what to send and what a reply means; whoever drives it
//! sends the requests and decodes the replies.

use vstd::prelude::*;
use vstd::utf8::{encode_utf8, is_ascii_chars, is_ascii_chars_encode_utf8};

use super::rpc::{fails_as, rpc_error, RpcCode, RpcError, RpcErrorView};
use crate::shared::domain::enums::IdentityProvider;
use crate::text::{decimal, decimal_int, format_i64, format_u64, join2, join3};
use crate::worker::config::{Config, ConfigView};
use crate::worker::routes::{hex_value, url_decoded};

verus! {

pub const GITHUB_AUTHORIZE_URL: &'static str = "https://github.com/login/oauth/authorize";

pub const GITHUB_TOKEN_URL: &'static str = "https://github.com/login/oauth/access_token";

pub const GITHUB_USER_URL: &'static str = "https://api.github.com/user";

pub const GITHUB_EMAILS_URL: &'static str = "https://api.github.com/user/emails";

pub const GITHUB_SCOPES: &'static str = "read:user user:email";

/// Identity returned by the IdP, normalised onto our internal shape.
#[derive(Debug, PartialEq, Eq)]
pub struct OAuthIdentity {
    pub provider: IdentityProvider,
    pub provider_user_id: String,
    pub email: String,
}

/// [`OAuthIdentity`] over characters.
#[verifier::ext_equal]
pub struct OAuthIdentityView {
    pub provider: IdentityProvider,
    pub provider_user_id: Seq<char>,
    pub email: Seq<char>,
}

impl View for OAuthIdentity {
    type V = OAuthIdentityView;

    open spec fn view(&self) -> OAuthIdentityView {
        OAuthIdentityView {
            provider: self.provider,
            provider_user_id: self.provider_user_id@,
            email: self.email@,
        }
    }
}

// ---------- urlencoding ----------

/// The bytes that stand for themselves in an encoded text.
pub open spec fn is_unreserved(b: u8) -> bool {
    'A' as u8 <= b <= 'Z' as u8 || 'a' as u8 <= b <= 'z' as u8 || '0' as u8 <= b <= '9' as u8 || b
        == '-' as u8 || b == '_' as u8 || b == '.' as u8 || b == '~' as u8
}

/// The uppercase hexadecimal digit of a value below sixteen.
pub open spec fn upper_hex(d: int) -> char {
    if d < 10 {
        (('0' as int) + d) as char
    } else {
        (('A' as int) + d - 10) as char
    }
}

/// What a byte is encoded as: itself, `+` for a blank, or `%XX`.
pub open spec fn encoded_byte(b: u8) -> Seq<char> {
    if is_unreserved(b) {
        seq![b as char]
    } else if b == ' ' as u8 {
        seq!['+']
    } else {
        seq!['%', upper_hex(b as int / 16), upper_hex(b as int % 16)]
    }
}

/// Bytes encoded one after another.
pub open spec fn url_encoded(bytes: Seq<u8>) -> Seq<char>
    decreases bytes.len(),
{
    if bytes.len() == 0 {
        Seq::empty()
    } else {
        url_encoded(bytes.drop_last()) + encoded_byte(bytes.last())
    }
}

fn upper_hex_digit(d: u8) -> (r: char)
    requires
        d < 16,
    ensures
        r == upper_hex(d as int),
{
    if d < 10 {
        (48 + d) as char
    } else {
        (65 + (d - 10)) as char
    }
}

/// Minimal RFC3986 percent-encoder for `application/x-www-form-urlencoded`
/// payloads.
pub fn urlencode(s: &str) -> (r: String)
    ensures
        r@ == url_encoded(encode_utf8(s@)),
{
    let bytes: &[u8] = s.as_bytes();
    let ghost all = encode_utf8(s@);
    let mut out: String = String::new();
    let mut i: usize = 0;
    assert(all.take(0) =~= Seq::<u8>::empty());
    while i < bytes.len()
        invariant
            bytes@ == all,
            i <= bytes.len(),
            out@ == url_encoded(all.take(i as int)),
        decreases bytes.len() - i,
    {
        let ghost before = out@;
        let b: u8 = bytes[i];
        if (65 <= b && b <= 90) || (97 <= b && b <= 122) || (48 <= b && b <= 57) || b == 45 || b
            == 95 || b == 46 || b == 126 {
            out.push(b as char);
            assert(out@ =~= before + encoded_byte(b));
        } else if b == 32 {
            out.push('+');
            assert(out@ =~= before + encoded_byte(b));
        } else {
            out.push('%');
            out.push(upper_hex_digit(b / 16));
            out.push(upper_hex_digit(b % 16));
            assert(out@ =~= before + encoded_byte(b));
        }
        proof {
            assert(all.take(i + 1).drop_last() =~= all.take(i as int));
        }
        i = i + 1;
    }
    assert(all.take(i as int) =~= all);
    out
}

/// The characters that an encoded text may hold.
pub open spec fn is_encoded_char(c: char) -> bool {
    'A' <= c <= 'Z' || 'a' <= c <= 'z' || '0' <= c <= '9' || c == '-' || c == '_' || c == '.' || c
        == '~' || c == '+' || c == '%'
}

/// An encoded text holds no character that separates the parts of a query.
pub proof fn law_encoded_is_inert(bytes: Seq<u8>)
    ensures
        forall|i: int|
            0 <= i < url_encoded(bytes).len() ==> is_encoded_char(
                #[trigger] url_encoded(bytes)[i],
            ),
    decreases bytes.len(),
{
    if bytes.len() > 0 {
        law_encoded_is_inert(bytes.drop_last());
        let head = url_encoded(bytes.drop_last());
        let e = url_encoded(bytes);
        assert forall|i: int| 0 <= i < e.len() implies is_encoded_char(#[trigger] e[i]) by {
            if i < head.len() {
                assert(e[i] == head[i]);
            } else {
                assert(e[i] == encoded_byte(bytes.last())[i - head.len()]);
            }
        }
    }
}

/// The characters with the numbers of the bytes.
pub open spec fn byte_chars(bytes: Seq<u8>) -> Seq<char> {
    bytes.map_values(|b: u8| b as char)
}

/// The bytes with the numbers of the characters.
spec fn char_bytes(s: Seq<char>) -> Seq<u8> {
    s.map_values(|c: char| c as u8)
}

proof fn lemma_decode_byte(b: u8, rest: Seq<u8>)
    ensures
        url_decoded(char_bytes(encoded_byte(b)) + rest) == seq![b as char] + url_decoded(rest),
{
    let e = char_bytes(encoded_byte(b));
    let s = e + rest;
    if is_unreserved(b) || b == ' ' as u8 {
        assert(s.skip(1) =~= rest);
    } else {
        assert(s[0] == '%' as u8);
        assert(s[1] == upper_hex(b as int / 16) as u8);
        assert(s[2] == upper_hex(b as int % 16) as u8);
        assert(hex_value(s[1]) == Some((b as int / 16) as u8));
        assert(hex_value(s[2]) == Some((b as int % 16) as u8));
        assert(s.skip(3) =~= rest);
    }
}

proof fn lemma_decode_encoded(bytes: Seq<u8>, rest: Seq<u8>)
    ensures
        url_decoded(char_bytes(url_encoded(bytes)) + rest) == byte_chars(bytes) + url_decoded(rest),
    decreases bytes.len(),
{
    if bytes.len() == 0 {
        assert(char_bytes(url_encoded(bytes)) + rest =~= rest);
        assert(byte_chars(bytes) + url_decoded(rest) =~= url_decoded(rest));
    } else {
        let b = bytes.last();
        let more = char_bytes(encoded_byte(b)) + rest;
        lemma_decode_encoded(bytes.drop_last(), more);
        lemma_decode_byte(b, rest);
        assert(char_bytes(url_encoded(bytes)) + rest =~= char_bytes(url_encoded(bytes.drop_last()))
            + more);
        assert(byte_chars(bytes) + url_decoded(rest) =~= byte_chars(bytes.drop_last()) + (seq![
            b as char,
        ] + url_decoded(rest)));
    }
}

/// What the callback page decodes out of an encoded text are the bytes of the
/// text, each as the character of its number: of an ASCII text, the text.
pub proof fn law_decoding_undoes_encoding(s: Seq<char>)
    ensures
        url_decoded(encode_utf8(url_encoded(encode_utf8(s)))) == byte_chars(encode_utf8(s)),
        is_ascii_chars(s) ==> url_decoded(encode_utf8(url_encoded(encode_utf8(s)))) == s,
{
    let e = url_encoded(encode_utf8(s));
    law_encoded_is_inert(encode_utf8(s));
    assert(is_ascii_chars(e)) by {
        assert forall|i| 0 <= i < e.len() implies '\0' <= #[trigger] e[i] <= '\u{7f}' by {
            assert(is_encoded_char(e[i]));
        }
    }
    is_ascii_chars_encode_utf8(e);
    assert(encode_utf8(e) =~= char_bytes(e));
    lemma_decode_encoded(encode_utf8(s), Seq::empty());
    assert(char_bytes(e) + Seq::<u8>::empty() =~= char_bytes(e));
    assert(byte_chars(encode_utf8(s)) + url_decoded(Seq::empty()) =~= byte_chars(encode_utf8(s)));
    if is_ascii_chars(s) {
        is_ascii_chars_encode_utf8(s);
        assert(byte_chars(encode_utf8(s)) =~= s) by {
            assert forall|i: int| 0 <= i < s.len() implies byte_chars(encode_utf8(s))[i] == s[i] by {
                assert(s[i] as u8 == encode_utf8(s)[i]);
            }
        }
    }
}

// ---------- what to send ----------

/// A text encoded.
pub open spec fn encoded_text(s: Seq<char>) -> Seq<char> {
    url_encoded(encode_utf8(s))
}

/// The URL that the user opens in their browser.
pub open spec fn authorize_url(
    client_id: Seq<char>,
    redirect_uri: Seq<char>,
    state: Seq<char>,
) -> Seq<char> {
    GITHUB_AUTHORIZE_URL@ + "?client_id="@ + encoded_text(client_id) + "&redirect_uri="@
        + encoded_text(redirect_uri) + "&state="@ + encoded_text(state) + "&scope="@ + encoded_text(
        GITHUB_SCOPES@,
    )
}

/// Build the URL the user should open in their browser. The caller stores the
/// state before it hands the URL out.
pub fn github_authorize_url(client_id: &str, redirect_uri: &str, state: &str) -> (r: String)
    ensures
        r@ == authorize_url(client_id@, redirect_uri@, state@),
{
    let a: String = join3(GITHUB_AUTHORIZE_URL, "?client_id=", urlencode(client_id).as_str());
    let b: String = join3(a.as_str(), "&redirect_uri=", urlencode(redirect_uri).as_str());
    let c: String = join3(b.as_str(), "&state=", urlencode(state).as_str());
    join3(c.as_str(), "&scope=", urlencode(GITHUB_SCOPES).as_str())
}

/// The client id and secret of a deployment that has both.
pub open spec fn credentials(config: ConfigView) -> Option<(Seq<char>, Seq<char>)> {
    match (config.github_client_id, config.github_client_secret) {
        (Some(id), Some(secret)) => Some((id, secret)),
        _ => None,
    }
}

/// Per-provider config knob: the configured client id/secret or `None` if the
/// deployment hasn't enabled this provider.
pub fn github_credentials(config: &Config) -> (r: Option<(&str, &str)>)
    ensures
        match (r, credentials(config@)) {
            (Some((id, secret)), Some(want)) => id@ == want.0 && secret@ == want.1,
            (None, None) => true,
            _ => false,
        },
{
    match (&config.github_client_id, &config.github_client_secret) {
        (Some(id), Some(secret)) => Some((id.as_str(), secret.as_str())),
        _ => None,
    }
}

/// The form that exchanges a code for an access token.
pub open spec fn exchange_form(
    id: Seq<char>,
    secret: Seq<char>,
    code: Seq<char>,
    redirect_uri: Seq<char>,
) -> Seq<char> {
    "client_id="@ + encoded_text(id) + "&client_secret="@ + encoded_text(secret) + "&code="@
        + encoded_text(code) + "&redirect_uri="@ + encoded_text(redirect_uri)
}

/// The body to post to [`GITHUB_TOKEN_URL`] for a callback's code.
pub fn exchange_body(config: &Config, code: &str, redirect_uri: &str) -> (r: Result<
    String,
    RpcError,
>)
    ensures
        match credentials(config@) {
            Some((id, secret)) => r matches Ok(body) && body@ == exchange_form(
                id,
                secret,
                code@,
                redirect_uri@,
            ),
            None => r matches Err(e) && e@ == rpc_error(
                RpcCode::FailedPrecondition,
                "github oauth not configured"@,
            ),
        },
{
    match github_credentials(config) {
        None => Err(RpcError::new(RpcCode::FailedPrecondition, "github oauth not configured")),
        Some((id, secret)) => {
            let a: String = join2("client_id=", urlencode(id).as_str());
            let b: String = join3(a.as_str(), "&client_secret=", urlencode(secret).as_str());
            let c: String = join3(b.as_str(), "&code=", urlencode(code).as_str());
            Ok(join3(c.as_str(), "&redirect_uri=", urlencode(redirect_uri).as_str()))
        },
    }
}

/// The `Authorization` header of a request for an access token's holder.
pub fn github_authorization(access_token: &str) -> (r: String)
    ensures
        r@ == "Bearer "@ + access_token@,
{
    join2("Bearer ", access_token)
}

// ---------- what a reply means ----------

/// The token endpoint's reply.
#[derive(Debug, PartialEq, Eq)]
pub struct TokenResponse {
    pub access_token: Option<String>,
    pub error: Option<String>,
    pub error_description: Option<String>,
}

/// The error that a token reply amounts to: the provider's own comes first.
pub open spec fn token_reply_fault(reply: TokenResponse) -> Option<RpcErrorView> {
    match reply.error {
        Some(err) => Some(
            rpc_error(
                RpcCode::PermissionDenied,
                "github oauth: "@ + err@ + " "@ + match reply.error_description {
                    Some(d) => d@,
                    None => Seq::empty(),
                },
            ),
        ),
        None => match reply.access_token {
            Some(_) => None,
            None => Some(
                rpc_error(RpcCode::Internal, "github oauth: missing access_token"@),
            ),
        },
    }
}

/// The access token of a token reply.
pub fn access_token_of(reply: TokenResponse) -> (r: Result<String, RpcError>)
    ensures
        fails_as(r, token_reply_fault(reply)),
        r matches Ok(t) ==> reply.access_token == Some(t),
{
    match reply.error {
        Some(err) => {
            let detail: String = match reply.error_description {
                Some(d) => d,
                None => String::new(),
            };
            let head: String = join3("github oauth: ", err.as_str(), " ");
            Err(
                RpcError {
                    code: RpcCode::PermissionDenied,
                    message: join2(head.as_str(), detail.as_str()),
                },
            )
        },
        None => match reply.access_token {
            Some(t) => Ok(t),
            None => Err(RpcError::new(RpcCode::Internal, "github oauth: missing access_token")),
        },
    }
}

/// The `/user` reply.
#[derive(Debug, PartialEq, Eq)]
pub struct UserResponse {
    pub id: u64,
    pub email: Option<String>,
}

/// One entry of the `/user/emails` reply.
#[derive(Debug, PartialEq, Eq)]
pub struct EmailEntry {
    pub email: String,
    pub primary: bool,
    pub verified: bool,
}

/// What the `/user` reply leads to.
#[derive(Debug, PartialEq, Eq)]
pub enum UserStep {
    /// The reply has an email: the identity is complete.
    Done(OAuthIdentity),
    /// The email is hidden: ask [`GITHUB_EMAILS_URL`] for the user with this
    /// id.
    AskEmails(String),
}

/// What the `/user` reply leads to.
pub fn user_step(reply: UserResponse) -> (r: UserStep)
    ensures
        match (reply.email, r) {
            (Some(email), UserStep::Done(i)) => i@ == (OAuthIdentityView {
                provider: IdentityProvider::GitHub,
                provider_user_id: decimal(reply.id as nat),
                email: email@,
            }),
            (None, UserStep::AskEmails(id)) => id@ == decimal(reply.id as nat),
            _ => false,
        },
{
    let id: String = format_u64(reply.id);
    match reply.email {
        Some(email) => UserStep::Done(
            OAuthIdentity { provider: IdentityProvider::GitHub, provider_user_id: id, email },
        ),
        None => UserStep::AskEmails(id),
    }
}

/// Whether the address at `i` is the one to use: the first verified primary
/// one, or without any the first verified one.
pub open spec fn is_chosen_email(entries: Seq<EmailEntry>, i: int) -> bool {
    &&& 0 <= i < entries.len()
    &&& entries[i].verified
    &&& if entries[i].primary {
        forall|j: int|
            #![trigger entries[j]]
            0 <= j < i ==> !(entries[j].primary && entries[j].verified)
    } else {
        &&& forall|j: int|
            #![trigger entries[j]]
            0 <= j < entries.len() ==> !(entries[j].primary && entries[j].verified)
        &&& forall|j: int| #![trigger entries[j]] 0 <= j < i ==> !entries[j].verified
    }
}

/// Some users hide their primary email on `/user`; then `/user/emails` is
/// asked. Returns the first verified primary, falling back to any verified
/// address, never an unverified one.
pub fn email_of(entries: &Vec<EmailEntry>) -> (r: Result<String, RpcError>)
    ensures
        match r {
            Ok(email) => exists|i: int| #[trigger]
                is_chosen_email(entries@, i) && email@ == entries@[i].email@,
            Err(e) => e@ == rpc_error(
                RpcCode::FailedPrecondition,
                "github account has no verified email"@,
            ) && forall|i: int|
                #![trigger entries@[i]]
                0 <= i < entries@.len() ==> !entries@[i].verified,
        },
{
    let mut i: usize = 0;
    while i < entries.len()
        invariant
            i <= entries.len(),
            forall|j: int|
                #![trigger entries@[j]]
                0 <= j < i ==> !(entries@[j].primary && entries@[j].verified),
        decreases entries.len() - i,
    {
        if entries[i].primary && entries[i].verified {
            assert(is_chosen_email(entries@, i as int));
            return Ok(entries[i].email.clone());
        }
        i = i + 1;
    }
    let mut k: usize = 0;
    while k < entries.len()
        invariant
            k <= entries.len(),
            forall|j: int|
                #![trigger entries@[j]]
                0 <= j < entries.len() ==> !(entries@[j].primary && entries@[j].verified),
            forall|j: int| #![trigger entries@[j]] 0 <= j < k ==> !entries@[j].verified,
        decreases entries.len() - k,
    {
        if entries[k].verified {
            assert(is_chosen_email(entries@, k as int));
            return Ok(entries[k].email.clone());
        }
        k = k + 1;
    }
    Err(RpcError::new(RpcCode::FailedPrecondition, "github account has no verified email"))
}

/// The identity of a user whose email was asked for.
pub fn identity_of(provider_user_id: String, entries: &Vec<EmailEntry>) -> (r: Result<
    OAuthIdentity,
    RpcError,
>)
    ensures
        match r {
            Ok(identity) => identity@.provider == IdentityProvider::GitHub
                && identity@.provider_user_id == provider_user_id@ && exists|i: int| #[trigger]
                is_chosen_email(entries@, i) && identity@.email == entries@[i].email@,
            Err(e) => e@ == rpc_error(
                RpcCode::FailedPrecondition,
                "github account has no verified email"@,
            ) && forall|i: int|
                #![trigger entries@[i]]
                0 <= i < entries@.len() ==> !entries@[i].verified,
        },
{
    match email_of(entries) {
        Ok(email) => Ok(
            OAuthIdentity { provider: IdentityProvider::GitHub, provider_user_id, email },
        ),
        Err(e) => Err(e),
    }
}

/// Whether the status of a GET is a success; any other is an internal error.
pub fn check_status(url: &str, status: u16) -> (r: Result<(), RpcError>)
    ensures
        fails_as(
            r,
            if 200 <= status < 300 {
                None
            } else {
                Some(
                    rpc_error(
                        RpcCode::Internal,
                        "github GET "@ + url@ + ": status "@ + decimal_int(status as int),
                    ),
                )
            },
        ),
{
    if status < 200 || status >= 300 {
        let head: String = join3("github GET ", url, ": status ");
        return Err(
            RpcError {
                code: RpcCode::Internal,
                message: join2(head.as_str(), format_i64(status as i64).as_str()),
            },
        );
    }
    Ok(())
}

/// Where talking to GitHub failed.
#[derive(Debug, PartialEq, Eq)]
pub enum FetchStage<'a> {
    BuildTokenRequest,
    SendTokenRequest,
    ReadTokenReply,
    DecodeTokenReply,
    DecodeUser,
    DecodeEmails,
    BuildGet(&'a str),
    SendGet(&'a str),
    ReadGet(&'a str),
}

/// The error of a request that failed at a stage: an endpoint that cannot be
/// reached is unavailable, anything else is internal.
pub open spec fn fetch_fault(stage: FetchStage<'_>, detail: Seq<char>) -> RpcErrorView {
    match stage {
        FetchStage::BuildTokenRequest => rpc_error(
            RpcCode::Internal,
            "oauth token req: "@ + detail,
        ),
        FetchStage::SendTokenRequest => rpc_error(
            RpcCode::Unavailable,
            "github token endpoint: "@ + detail,
        ),
        FetchStage::ReadTokenReply => rpc_error(RpcCode::Internal, "read token resp: "@ + detail),
        FetchStage::DecodeTokenReply => rpc_error(
            RpcCode::Internal,
            "decode token resp: "@ + detail,
        ),
        FetchStage::DecodeUser => rpc_error(RpcCode::Internal, "decode /user: "@ + detail),
        FetchStage::DecodeEmails => rpc_error(
            RpcCode::Internal,
            "decode /user/emails: "@ + detail,
        ),
        FetchStage::BuildGet(url) => rpc_error(
            RpcCode::Internal,
            "oauth req "@ + url@ + ": "@ + detail,
        ),
        FetchStage::SendGet(url) => rpc_error(
            RpcCode::Unavailable,
            "github GET "@ + url@ + ": "@ + detail,
        ),
        FetchStage::ReadGet(url) => rpc_error(
            RpcCode::Internal,
            "read body "@ + url@ + ": "@ + detail,
        ),
    }
}

/// The error of a request that failed at a stage.
pub fn fetch_error(stage: FetchStage<'_>, detail: &str) -> (r: RpcError)
    ensures
        r@ == fetch_fault(stage, detail@),
{
    let (code, head): (RpcCode, String) = match stage {
        FetchStage::BuildTokenRequest => (RpcCode::Internal, "oauth token req: ".to_owned()),
        FetchStage::SendTokenRequest => (
            RpcCode::Unavailable,
            "github token endpoint: ".to_owned(),
        ),
        FetchStage::ReadTokenReply => (RpcCode::Internal, "read token resp: ".to_owned()),
        FetchStage::DecodeTokenReply => (RpcCode::Internal, "decode token resp: ".to_owned()),
        FetchStage::DecodeUser => (RpcCode::Internal, "decode /user: ".to_owned()),
        FetchStage::DecodeEmails => (RpcCode::Internal, "decode /user/emails: ".to_owned()),
        FetchStage::BuildGet(url) => (RpcCode::Internal, join3("oauth req ", url, ": ")),
        FetchStage::SendGet(url) => (RpcCode::Unavailable, join3("github GET ", url, ": ")),
        FetchStage::ReadGet(url) => (RpcCode::Internal, join3("read body ", url, ": ")),
    };
    RpcError { code, message: join2(head.as_str(), detail) }
}

} // verus!
