//! What the worker's edge does with its configuration, its inputs and its
//! requests.

use vstd::prelude::*;
use vstd::utf8::encode_utf8;

use super::auth::password::PasswordError;
use super::auth::tokens::TokenError;
use super::config::{config_of, EnvVars};
use super::do_migrations::{pending_steps, Migration, StepView};
use super::do_sync_ws::{after_message, ActionView};
use super::middleware::bearer_of;
use super::repo_d1::{signup_batch, ParamView};
use super::routes::{
    callback_page, callback_params, escaped, route, url_decoded, with_pair, CallbackView,
};
use super::services::common::{
    database_name_fault, email_fault, password_rpc_error, sql_statements, store_rpc_error,
    token_rpc_error,
};
use super::services::rpc::RpcCode;
use super::state::ttl_fits;
use crate::shared::domain::enums::Role;
use crate::shared::error::StoreErrorView;
use crate::shared::repo::{signed_up, RepoView, SignupIds};
use crate::text::{
    is_first_index, is_white, lemma_split_first, lower_ascii, parsed_i64, split_text, trimmed,
};
use crate::text_laws::{law_split_first, law_trimmed_is_stable};

verus! {

// ---------- configuration ----------

/// Whether a text variable that is set counts: blank ones do not.
pub open spec fn counts(v: Option<String>, got: Option<Seq<char>>) -> bool {
    match v {
        None => got is None,
        Some(t) => if trimmed(t@).len() == 0 {
            got is None
        } else {
            got == Some(t@)
        },
    }
}

/// Whether a number of seconds is that of its variable, or the default where
/// the variable is not set or holds no number.
pub open spec fn seconds_of(v: Option<String>, default: i64, got: i64) -> bool {
    match v {
        None => got == default,
        Some(t) => match parsed_i64(t@) {
            Some(n) => got == n,
            None => got == default,
        },
    }
}

/// Each setting is read from its own variable. Sessions last a day, sync
/// tokens an hour and at most a day, and OAuth states ten minutes where
/// nothing else is set.
pub proof fn law_config(env: EnvVars)
    ensures
        ({
            let c = config_of(env);
            &&& seconds_of(env.session_ttl_seconds, 86400, c.session_ttl_seconds)
            &&& seconds_of(env.sync_token_ttl_seconds, 3600, c.sync_token_ttl_seconds)
            &&& seconds_of(env.max_sync_token_ttl_seconds, 86400, c.max_sync_token_ttl_seconds)
            &&& seconds_of(env.oauth_state_ttl_seconds, 600, c.oauth_state_ttl_seconds)
            &&& counts(env.github_client_id, c.github_client_id)
            &&& counts(env.github_client_secret, c.github_client_secret)
            &&& counts(env.google_client_id, c.google_client_id)
            &&& counts(env.google_client_secret, c.google_client_secret)
            &&& counts(
                env.oauth_redirect_base,
                if c.oauth_redirect_base.len() == 0 {
                    None
                } else {
                    Some(c.oauth_redirect_base)
                },
            )
        }),
{
    if let Some(t) = env.oauth_redirect_base {
        if t@.len() == 0 {
            law_trimmed_is_stable(t@);
        }
    }
}

// ---------- what is let in ----------

/// Whether the one `@` of a text stands at `i`, with something on either side.
pub open spec fn splits_at(t: Seq<char>, i: int) -> bool {
    &&& 0 < i < t.len() - 1
    &&& t[i] == '@'
    &&& forall|j: int| 0 <= j < t.len() && j != i ==> #[trigger] t[j] != '@'
}

/// An email passes exactly where, trimmed, it holds one `@` with something on
/// either side.
pub proof fn law_email(email: Seq<char>)
    ensures
        email_fault(email) is None <==> exists|i: int| #[trigger] splits_at(trimmed(email), i),
        email_fault(email) matches Some(e) ==> e.code == RpcCode::InvalidArgument,
        trimmed(email).len() == 0 ==> email_fault(email)->0.message == "email is required"@,
        trimmed(email).len() > 0 && !trimmed(email).contains('@') ==> email_fault(email)->0.message
            == "email must contain '@'"@,
{
    let t = trimmed(email);
    law_split_first(t, '@');
    if t.contains('@') {
        let (head, tail) = crate::text::split_first(t, '@')->0;
        let k = head.len() as int;
        assert(t[k] == '@');
        if email_fault(email) is None {
            assert forall|j: int| 0 <= j < t.len() && j != k implies #[trigger] t[j] != '@' by {
                if j < k {
                    assert(head[j] == t[j]);
                    assert(!head.contains('@'));
                } else {
                    assert(tail[j - k - 1] == t[j]);
                    assert(!tail.contains('@'));
                }
            }
            assert(splits_at(t, k));
        }
        if exists|i: int| #[trigger] splits_at(t, i) {
            let i = choose|i: int| #[trigger] splits_at(t, i);
            assert(i == k);
            assert(!tail.contains('@')) by {
                if tail.contains('@') {
                    let m = choose|m: int| 0 <= m < tail.len() && tail[m] == '@';
                    assert(t[k + 1 + m] == '@');
                }
            }
        }
    } else {
        if exists|i: int| #[trigger] splits_at(t, i) {
            let i = choose|i: int| #[trigger] splits_at(t, i);
            assert(t[i] == '@');
        }
    }
}

/// A database name passes exactly where, trimmed, it is not empty, has at most
/// 64 bytes, and holds only ASCII letters, digits, `-` and `_`.
pub proof fn law_database_name(name: Seq<char>)
    ensures
        ({
            let t = trimmed(name);
            &&& database_name_fault(name) is None <==> {
                &&& t.len() > 0
                &&& encode_utf8(t).len() <= 64
                &&& forall|i: int|
                    0 <= i < t.len() ==> {
                        let c = #[trigger] t[i];
                        ||| 'a' <= c <= 'z'
                        ||| 'A' <= c <= 'Z'
                        ||| '0' <= c <= '9'
                        ||| c == '-'
                        ||| c == '_'
                    }
            }
            &&& database_name_fault(name) matches Some(e) ==> e.code == RpcCode::InvalidArgument
        }),
{
}

/// A store error keeps its words, and its code says which it is: something is
/// missing, is there already, is in the way, or failed.
pub proof fn law_store_errors(text: Seq<char>)
    ensures
        ({
            let e = store_rpc_error(StoreErrorView::NotFound(text));
            e.code == RpcCode::NotFound && e.message == text
        }),
        ({
            let e = store_rpc_error(StoreErrorView::AlreadyExists(text));
            e.code == RpcCode::AlreadyExists && e.message == text
        }),
        ({
            let e = store_rpc_error(StoreErrorView::Conflict(text));
            e.code == RpcCode::FailedPrecondition && e.message == text
        }),
        ({
            let e = store_rpc_error(StoreErrorView::Backend(text));
            e.code == RpcCode::Internal && e.message == text
        }),
{
}

/// A token that does not hold leaves its bearer unknown, but for one that was
/// minted for something else, which is not allowed. No error but a bad
/// signature changes its words.
pub proof fn law_token_errors(e: TokenError)
    ensures
        token_rpc_error(e).code == RpcCode::PermissionDenied <==> e is WrongPurpose,
        e !is WrongPurpose ==> token_rpc_error(e).code == RpcCode::Unauthenticated,
        e !is InvalidSignature ==> token_rpc_error(e).message == e.text(),
        e is InvalidSignature ==> token_rpc_error(e).message == "invalid token signature"@,
{
}

/// A password that a caller may better is the caller's mistake, one that does
/// not match leaves the caller unknown, and a hash that cannot be made or read
/// is the server's.
pub proof fn law_password_errors(e: PasswordError)
    ensures
        password_rpc_error(e).code == RpcCode::InvalidArgument <==> e is TooShort || e is Pwned
            || e is PolicyError,
        password_rpc_error(e).code == RpcCode::Unauthenticated <==> e is Mismatch,
        password_rpc_error(e).code == RpcCode::Internal <==> e is HashFailed || e is InvalidHash,
        e !is Pwned && e !is Mismatch ==> password_rpc_error(e).message == e.text(),
        e is Pwned ==> password_rpc_error(e).message
            == "password appears in known-breached corpus; pick another"@,
        e is Mismatch ==> password_rpc_error(e).message == "password mismatch"@,
{
}

// ---------- bearer tokens ----------

/// A bearer authorization, in whatever case, yields its token.
pub proof fn law_bearer(token: Seq<char>)
    requires
        token.len() > 0,
        !is_white(token[0]),
        !is_white(token.last()),
    ensures
        bearer_of("Bearer "@ + token) == Some(token),
        bearer_of("bearer "@ + token) == Some(token),
        bearer_of("BEARER "@ + token) == Some(token),
        bearer_of(token) matches Some(t) ==> token.len() > 7,
        bearer_of("Basic "@ + token) is None,
{
    reveal_strlit("Bearer ");
    reveal_strlit("bearer ");
    reveal_strlit("BEARER ");
    reveal_strlit("Basic ");
    let a = "Bearer "@ + token;
    let b = "bearer "@ + token;
    let c = "BEARER "@ + token;
    let d = "Basic "@ + token;
    law_trimmed_is_stable(token);
    assert(a.last() == token.last() && a[0] == 'B');
    assert(b.last() == token.last() && b[0] == 'b');
    assert(c.last() == token.last() && c[0] == 'B');
    assert(d.last() == token.last() && d[0] == 'B');
    law_trimmed_is_stable(a);
    law_trimmed_is_stable(b);
    law_trimmed_is_stable(c);
    law_trimmed_is_stable(d);
    assert(a.take(7) =~= "Bearer "@ && a.skip(7) =~= token);
    assert(b.take(7) =~= "bearer "@ && b.skip(7) =~= token);
    assert(c.take(7) =~= "BEARER "@ && c.skip(7) =~= token);
    assert(bearer_of(d) is None) by {
        if d.len() > 7 {
            assert(d.take(7)[1] == 'a');
            assert(lower_ascii('a') != lower_ascii('e'));
            assert("Bearer "@[1] == 'e');
        }
    }
}

// ---------- routes ----------

/// The health check answers `ok`; another path under `/oauth/` than a callback
/// is not found; anything outside these is left to the services.
pub proof fn law_routes(method: Seq<char>, path: Seq<char>, query: Option<Seq<char>>)
    ensures
        method == "GET"@ && path == "/healthz"@ ==> (route(method, path, query) matches Some(r)
            && r.status == 200 && r.body == "ok"@),
        method != "GET"@ && crate::text::has_prefix(path, "/oauth/"@) ==> (route(
            method,
            path,
            query,
        ) matches Some(r) && r.status == 404),
        !crate::text::has_prefix(path, "/oauth/"@) && path != "/healthz"@ ==> route(
            method,
            path,
            query,
        ) is None,
        method != "GET"@ && !crate::text::has_prefix(path, "/oauth/"@) ==> route(
            method,
            path,
            query,
        ) is None,
{
}

proof fn lemma_pair(key: Seq<char>, value: Seq<char>)
    requires
        !key.contains('='),
    ensures
        crate::text::split_first(key + seq!['='] + value, '=') == Some((key, value)),
{
    let pair = key + seq!['='] + value;
    let i = key.len() as int;
    assert forall|j: int| 0 <= j < i implies pair[j] != '=' by {
        assert(pair[j] == key[j]);
        assert(key.contains(key[j]));
    }
    assert(is_first_index(pair, '=', i));
    lemma_split_first(pair, '=', i);
    assert(pair.take(i) =~= key);
    assert(pair.skip(i + 1) =~= value);
}

/// A callback's pairs are read one after the other. Each of `state`, `code`
/// and `error` sets its own value, decoded, and nothing else.
pub proof fn law_callback_pairs(c: CallbackView, pairs: Seq<Seq<char>>, value: Seq<char>)
    ensures
        callback_params(Seq::empty()) == (CallbackView { state: None, code: None, error: None }),
        forall|pair: Seq<char>| #[trigger]
            callback_params(pairs.push(pair)) == with_pair(callback_params(pairs), pair),
        with_pair(c, "state"@ + seq!['='] + value) == (CallbackView {
            state: Some(url_decoded(encode_utf8(value))),
            ..c
        }),
        with_pair(c, "code"@ + seq!['='] + value) == (CallbackView {
            code: Some(url_decoded(encode_utf8(value))),
            ..c
        }),
        with_pair(c, "error"@ + seq!['='] + value) == (CallbackView {
            error: Some(url_decoded(encode_utf8(value))),
            ..c
        }),
        with_pair(c, "scope"@ + seq!['='] + value) == c,
{
    assert forall|pair: Seq<char>| #[trigger] callback_params(pairs.push(pair)) == with_pair(
        callback_params(pairs),
        pair,
    ) by {
        assert(pairs.push(pair).drop_last() =~= pairs);
    }
    reveal_strlit("state");
    reveal_strlit("code");
    reveal_strlit("error");
    reveal_strlit("scope");
    reveal_strlit("error_description");
    lemma_pair("state"@, value);
    lemma_pair("code"@, value);
    lemma_pair("error"@, value);
    lemma_pair("scope"@, value);
    assert("scope"@[1] == 'c' && "state"@[1] == 't');
    assert("error"@[0] == 'e' && "scope"@[0] == 's');
    assert("state"@.len() == 5 && "code"@.len() == 4 && "error"@.len() == 5);
}

/// Whether a text stands in another.
pub open spec fn stands_in(part: Seq<char>, all: Seq<char>) -> bool {
    exists|i: int| 0 <= i && i + part.len() <= all.len() && #[trigger] all.subrange(
        i,
        i + part.len(),
    ) == part
}

/// The page of a callback shows the state and the code, escaped, where both
/// came and no error did; an error comes first, and is shown escaped; without
/// one of them the request is bad.
pub proof fn law_callback_page(query: Seq<char>)
    ensures
        ({
            let c = callback_params(split_text(query, '&'));
            let page = callback_page(query);
            &&& c.error is Some ==> page.status == 400 && stands_in(escaped(c.error->0), page.body)
            &&& c.error is None && c.state is Some && c.code is Some ==> page.status == 200
                && stands_in(
                " --state "@ + escaped(c.state->0) + " --code "@ + escaped(c.code->0),
                page.body,
            )
            &&& c.error is None && (c.state is None || c.code is None) ==> page.status == 400
            &&& page.content_type == "text/html; charset=utf-8"@
        }),
{
    let c = callback_params(split_text(query, '&'));
    let page = callback_page(query);
    if c.error is Some {
        let head = super::routes::ERROR_HEAD@;
        let part = escaped(c.error->0);
        let i = head.len() as int;
        assert(page.body.subrange(i, i + part.len()) =~= part);
    } else if c.state is Some && c.code is Some {
        let head = super::routes::SUCCESS_HEAD@;
        reveal_strlit(
            "<!doctype html><meta charset=utf-8><title>EdgeReplica OAuth</title><style>body{font-family:system-ui;max-width:40rem;margin:3rem auto;padding:0 1rem}pre{background:#f4f4f4;padding:1rem;border-radius:6px;overflow-x:auto}</style><h1>OAuth login: copy this command</h1><p>Run the following in your terminal to finish signing in:</p><pre>edgereplica oauth complete --state ",
        );
        reveal_strlit(" --state ");
        let part = " --state "@ + escaped(c.state->0) + " --code "@ + escaped(c.code->0);
        let i = head.len() - 9;
        assert(head.skip(i) =~= " --state "@);
        assert(head =~= head.take(i) + " --state "@);
        assert(page.body.subrange(i, i + part.len()) =~= part);
    }
}

// ---------- migrations ----------

/// A schema is brought up to date by the statements of every newer version, in
/// order, each version stamped behind its own; versions that it has are passed
/// over.
pub proof fn law_pending_steps(ms: Seq<Migration>, m: Migration, current: i64)
    ensures
        pending_steps(Seq::empty(), current).len() == 0,
        m.version <= current ==> pending_steps(ms.push(m), current) == pending_steps(ms, current),
        m.version > current ==> ({
            let before = pending_steps(ms, current);
            let all = pending_steps(ms.push(m), current);
            let own = sql_statements(m.sql@);
            &&& all.len() == before.len() + own.len() + 1
            &&& forall|i: int| 0 <= i < before.len() ==> #[trigger] all[i] == before[i]
            &&& forall|i: int|
                0 <= i < own.len() ==> #[trigger] all[before.len() + i] == (StepView::Run {
                    version: m.version,
                    statement: own[i],
                })
            &&& all.last() == (StepView::Stamp { version: m.version })
        }),
{
    assert(ms.push(m).drop_last() =~= ms);
}

// ---------- the socket ----------

/// A socket that cannot be written to is left alone; a finished sync closes it
/// as normal; a failure is told and closes it; anything else goes on.
pub proof fn law_after_message(send_failed: bool, result: Result<(), Seq<char>>, done: bool)
    ensures
        send_failed ==> after_message(send_failed, result, done) is Stop,
        !send_failed && result is Ok && done ==> (after_message(
            send_failed,
            result,
            done,
        ) matches ActionView::Close { code, reason } && code == 1000 && reason == "sync complete"@),
        !send_failed && result is Ok && !done ==> after_message(send_failed, result, done)
            is Continue,
        !send_failed && result is Err ==> (after_message(
            send_failed,
            result,
            done,
        ) matches ActionView::Fail { message, code, reason } && message == result->Err_0 && code
            == 1011 && reason == "server error"@),
{
}

// ---------- signup in the database ----------

/// The batch of a signup inserts the rows that a signup stores, value by
/// value: the user, their identity, their personal organization and their
/// membership of it.
pub proof fn law_signup_batch(
    v: RepoView,
    ids: SignupIds,
    email: Seq<char>,
    email_verified: bool,
    provider: Seq<char>,
    provider_user_id: Option<Seq<char>>,
    secret: Option<Seq<char>>,
    now_ms: i64,
)
    ensures
        ({
            let b = signup_batch(
                email,
                email_verified,
                provider,
                provider_user_id,
                secret,
                now_ms,
                ids.user,
                ids.identity,
                ids.org,
            );
            let at_provider = match provider_user_id {
                Some(p) => p,
                None => ids.user,
            };
            let w = signed_up(v, ids, email, email_verified, provider, at_provider, secret, now_ms);
            let user = w.users[ids.user];
            let identity = w.identities[ids.identity];
            let org = w.organizations[ids.org];
            let member = w.memberships[(ids.user, ids.org)];
            &&& b.len() == 4
            &&& b[0].sql == super::repo_d1::INSERT_USER@
            &&& b[0].params == seq![
                ParamView::Text(user.id),
                ParamView::Text(user.email),
                ParamView::Integer(
                    if user.email_verified {
                        1
                    } else {
                        0
                    },
                ),
                ParamView::Millis(user.created_at_ms),
            ]
            &&& b[1].sql == super::repo_d1::INSERT_IDENTITY@
            &&& b[1].params == seq![
                ParamView::Text(identity.id),
                ParamView::Text(identity.user_id),
                ParamView::Text(identity.provider),
                ParamView::Text(identity.provider_user_id),
                match identity.secret {
                    Some(s) => ParamView::Text(s),
                    None => ParamView::Null,
                },
                ParamView::Millis(identity.created_at_ms),
            ]
            &&& b[2].sql == super::repo_d1::INSERT_PERSONAL_ORG@ && org.personal
            &&& b[2].params == seq![
                ParamView::Text(org.id),
                ParamView::Text(org.display_name),
                ParamView::Text(org.owner_user_id->0),
                ParamView::Millis(org.created_at_ms),
            ]
            &&& b[3].sql == super::repo_d1::INSERT_MEMBERSHIP@
            &&& b[3].params == seq![
                ParamView::Text(member.user_id),
                ParamView::Text(member.org_id),
                ParamView::Text(
                    if member.role == Role::Admin {
                        "admin"@
                    } else {
                        "member"@
                    },
                ),
                ParamView::Millis(member.created_at_ms),
            ]
        }),
{
}

/// A provider sends the user back under `/oauth/`, to its own callback, and is
/// answered with the page for the query, whatever the provider's name.
pub proof fn law_callback_route(provider: Seq<char>, query: Seq<char>)
    ensures
        route("GET"@, "/oauth/"@ + provider + "/callback"@, Some(query)) == Some(
            callback_page(query),
        ),
        route("GET"@, "/oauth/"@ + provider + "/callback"@, None) == Some(
            callback_page(Seq::empty()),
        ),
{
    let path = "/oauth/"@ + provider + "/callback"@;
    reveal_strlit("/oauth/");
    reveal_strlit("/callback");
    reveal_strlit("/healthz");
    assert(path.take("/oauth/"@.len() as int) =~= "/oauth/"@);
    assert(path.skip(path.len() - "/callback"@.len()) =~= "/callback"@);
    assert(path[1] == 'o' && "/healthz"@[1] == 'h');
}

/// A lifetime that fits can be added to every time that a clock of
/// milliseconds shows in seconds; one that does not fit and is not negative
/// cannot.
pub proof fn law_ttl_fits(ttl_seconds: i64, now: i64)
    requires
        -9223372036854775 <= now <= 9223372036854775,
    ensures
        ttl_fits(ttl_seconds) ==> i64::MIN <= now + ttl_seconds <= i64::MAX,
        !ttl_fits(ttl_seconds) && ttl_seconds >= 0 ==> 9223372036854775 + ttl_seconds > i64::MAX,
        ttl_seconds > i64::MIN ==> (ttl_fits(ttl_seconds) <==> ttl_fits((-ttl_seconds) as i64)),
{
}

} // verus!
