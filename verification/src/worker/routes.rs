//! Non-RPC HTTP routes: `/healthz` and the OAuth callback landing page.
//!
//! The callback doesn't *complete* the OAuth flow itself: it just shows
//! the user the `state` and `code` so they can paste them into
//! `edgereplica oauth complete --state ... --code ...`. That command then
//! completes the flow. Splitting it this way keeps the worker handler free of
//! tokens that shouldn't end up in browser history.

use vstd::prelude::*;
use vstd::utf8::encode_utf8;

use crate::text::{
    chars_of, ends_with, has_prefix, has_suffix, join3, split_char, split_first, split_once,
    split_text, starts_with, str_eq, texts,
};
use crate::worker::services::common::no_text;

verus! {

/// An HTTP answer.
#[derive(Debug, PartialEq, Eq)]
pub struct Reply {
    pub status: u16,
    pub content_type: &'static str,
    pub body: String,
}

/// [`Reply`] over characters.
#[verifier::ext_equal]
pub struct ReplyView {
    pub status: u16,
    pub content_type: Seq<char>,
    pub body: Seq<char>,
}

impl View for Reply {
    type V = ReplyView;

    open spec fn view(&self) -> ReplyView {
        ReplyView {
            status: self.status,
            content_type: self.content_type@,
            body: self.body@,
        }
    }
}

pub open spec fn html_reply(status: u16, body: Seq<char>) -> ReplyView {
    ReplyView { status, content_type: "text/html; charset=utf-8"@, body }
}

pub open spec fn text_reply(status: u16, body: Seq<char>) -> ReplyView {
    ReplyView { status, content_type: "text/plain; charset=utf-8"@, body }
}

fn html(status: u16, body: String) -> (r: Reply)
    ensures
        r@ == html_reply(status, body@),
{
    Reply { status, content_type: "text/html; charset=utf-8", body }
}

/// A plain-text answer.
pub fn text(status: u16, body: &str) -> (r: Reply)
    ensures
        r@ == text_reply(status, body@),
{
    Reply { status, content_type: "text/plain; charset=utf-8", body: body.to_owned() }
}

/// The answer to a non-RPC request; none where the path is not one of these.
pub open spec fn route(method: Seq<char>, path: Seq<char>, query: Option<Seq<char>>) -> Option<
    ReplyView,
> {
    if method == "GET"@ && path == "/healthz"@ {
        Some(text_reply(200, "ok"@))
    } else if method == "GET"@ && has_prefix(path, "/oauth/"@) && has_suffix(path, "/callback"@) {
        Some(
            callback_page(
                match query {
                    Some(q) => q,
                    None => Seq::empty(),
                },
            ),
        )
    } else if has_prefix(path, "/oauth/"@) {
        Some(text_reply(404, "not found"@))
    } else {
        None
    }
}

/// Returns `Some(reply)` if the request matches a non-RPC route, else `None`
/// so the caller can dispatch into the RPC service.
pub fn try_handle(method: &str, path: &str, query: Option<&str>) -> (r: Option<Reply>)
    ensures
        match (
            route(
                method@,
                path@,
                match query {
                    Some(q) => Some(q@),
                    None => None,
                },
            ),
            r,
        ) {
            (Some(want), Some(got)) => got@ == want,
            (None, None) => true,
            _ => false,
        },
{
    let get: bool = str_eq(method, "GET");
    if get && str_eq(path, "/healthz") {
        return Some(text(200, "ok"));
    }
    if get && starts_with(path, "/oauth/") && ends_with(path, "/callback") {
        let q: &str = match query {
            Some(q) => q,
            None => "",
        };
        proof {
            reveal_strlit("");
            assert(""@ =~= Seq::<char>::empty());
        }
        return Some(oauth_callback_page(q));
    }
    // 404 for any other /oauth/ path: clients shouldn't be hitting
    // them directly, the supported flow is via `edgereplica oauth ...`.
    if starts_with(path, "/oauth/") {
        return Some(text(404, "not found"));
    }
    None
}

/// What a callback query says. A later pair overrides an earlier one.
#[verifier::ext_equal]
pub struct CallbackView {
    pub state: Option<Seq<char>>,
    pub code: Option<Seq<char>>,
    pub error: Option<Seq<char>>,
}

/// What one more `key=value` pair adds; empty pairs and other keys add
/// nothing.
pub open spec fn with_pair(c: CallbackView, pair: Seq<char>) -> CallbackView {
    if pair.len() == 0 {
        c
    } else {
        let (k, v) = match split_first(pair, '=') {
            Some(kv) => kv,
            None => (pair, Seq::empty()),
        };
        let value = url_decoded(encode_utf8(v));
        if k == "state"@ {
            CallbackView { state: Some(value), ..c }
        } else if k == "code"@ {
            CallbackView { code: Some(value), ..c }
        } else if k == "error"@ || k == "error_description"@ {
            CallbackView { error: Some(value), ..c }
        } else {
            c
        }
    }
}

pub open spec fn callback_params(pairs: Seq<Seq<char>>) -> CallbackView
    decreases pairs.len(),
{
    if pairs.len() == 0 {
        CallbackView { state: None, code: None, error: None }
    } else {
        with_pair(callback_params(pairs.drop_last()), pairs.last())
    }
}

/// The landing page of an OAuth redirect: a provider error comes first, then a
/// missing state or code; otherwise both are shown.
pub open spec fn callback_page(query: Seq<char>) -> ReplyView {
    let c = callback_params(split_text(query, '&'));
    match (c.error, c.state, c.code) {
        (Some(err), _, _) => html_reply(400, error_page(err)),
        (None, Some(state), Some(code)) => html_reply(200, success_page(state, code)),
        _ => html_reply(400, MISSING_PAGE@),
    }
}

/// The page for a redirect without state or code.
pub const MISSING_PAGE: &'static str =
    "<h1>Missing state or code</h1><p>This URL is reached via an OAuth IdP redirect — open it from <code>edgereplica oauth start github</code>.</p>";

/// The page with the command to copy, up to the state.
pub const SUCCESS_HEAD: &'static str =
    "<!doctype html><meta charset=utf-8><title>EdgeReplica OAuth</title><style>body{font-family:system-ui;max-width:40rem;margin:3rem auto;padding:0 1rem}pre{background:#f4f4f4;padding:1rem;border-radius:6px;overflow-x:auto}</style><h1>OAuth login: copy this command</h1><p>Run the following in your terminal to finish signing in:</p><pre>edgereplica oauth complete --state ";

/// The page with the command to copy, after the code.
pub const SUCCESS_TAIL: &'static str =
    "</pre><p>The values above are single-use and short-lived; you can close this tab.</p>";

/// The page for a provider error, up to the error.
pub const ERROR_HEAD: &'static str =
    "<!doctype html><meta charset=utf-8><title>EdgeReplica OAuth error</title><h1>OAuth provider returned an error</h1><pre>";

pub open spec fn success_page(state: Seq<char>, code: Seq<char>) -> Seq<char> {
    SUCCESS_HEAD@ + escaped(state) + (" --code "@ + escaped(code) + SUCCESS_TAIL@)
}

pub open spec fn error_page(err: Seq<char>) -> Seq<char> {
    ERROR_HEAD@ + escaped(err) + "</pre>"@
}

/// Render the state+code values from the IdP's `?state=...&code=...`
/// redirect as a copy-paste-friendly HTML page. Anything else (no
/// query, missing fields, etc.) falls back to a 400.
fn oauth_callback_page(query: &str) -> (r: Reply)
    ensures
        r@ == callback_page(query@),
{
    let pairs: Vec<String> = split_char(query, '&');
    let ghost all = texts(pairs@);
    let mut state: Option<String> = None;
    let mut code: Option<String> = None;
    let mut error: Option<String> = None;
    let mut i: usize = 0;
    assert(all.take(0) =~= Seq::<Seq<char>>::empty());
    while i < pairs.len()
        invariant
            i <= pairs.len(),
            all == texts(pairs@),
            callback_params(all.take(i as int)) == (CallbackView {
                state: opt_view(state),
                code: opt_view(code),
                error: opt_view(error),
            }),
        decreases pairs.len() - i,
    {
        proof {
            assert(all.take(i + 1).drop_last() =~= all.take(i as int));
            assert(all.take(i + 1).last() == pairs@[i as int]@);
        }
        let pair: &String = &pairs[i];
        if !no_text(pair.as_str()) {
            let (k, v): (String, String) = match split_once(pair.as_str(), '=') {
                Some(kv) => kv,
                None => (pair.clone(), String::new()),
            };
            let value: String = url_decode(v.as_str());
            if str_eq(k.as_str(), "state") {
                state = Some(value);
            } else if str_eq(k.as_str(), "code") {
                code = Some(value);
            } else if str_eq(k.as_str(), "error") || str_eq(k.as_str(), "error_description") {
                error = Some(value);
            }
        }
        i = i + 1;
    }
    assert(all.take(i as int) =~= all);
    match error {
        Some(err) => {
            return html(400, oauth_error_html(err.as_str()));
        },
        None => {},
    }
    match (state, code) {
        (Some(state), Some(code)) => html(200, oauth_success_html(state.as_str(), code.as_str())),
        _ => html(400, MISSING_PAGE.to_owned()),
    }
}

spec fn opt_view(s: Option<String>) -> Option<Seq<char>> {
    match s {
        Some(t) => Some(t@),
        None => None,
    }
}

fn oauth_success_html(state: &str, code: &str) -> (r: String)
    ensures
        r@ == success_page(state@, code@),
{
    let state: String = html_escape(state);
    let code: String = html_escape(code);
    join3(
        SUCCESS_HEAD,
        state.as_str(),
        join3(" --code ", code.as_str(), SUCCESS_TAIL).as_str(),
    )
}

fn oauth_error_html(err: &str) -> (r: String)
    ensures
        r@ == error_page(err@),
{
    join3(ERROR_HEAD, html_escape(err).as_str(), "</pre>")
}

/// A character as HTML text.
pub open spec fn escaped_char(c: char) -> Seq<char> {
    if c == '<' {
        "&lt;"@
    } else if c == '>' {
        "&gt;"@
    } else if c == '&' {
        "&amp;"@
    } else if c == '"' {
        "&quot;"@
    } else if c == '\'' {
        "&#39;"@
    } else {
        seq![c]
    }
}

/// A text as HTML text, character by character.
pub open spec fn escaped(s: Seq<char>) -> Seq<char>
    decreases s.len(),
{
    if s.len() == 0 {
        Seq::empty()
    } else {
        escaped(s.drop_last()) + escaped_char(s.last())
    }
}

/// A text with the characters that HTML gives a meaning escaped.
pub fn html_escape(s: &str) -> (r: String)
    ensures
        r@ == escaped(s@),
{
    let cs: Vec<char> = chars_of(s);
    let mut out: String = String::new();
    let mut i: usize = 0;
    assert(s@.take(0) =~= Seq::<char>::empty());
    while i < cs.len()
        invariant
            cs@ == s@,
            i <= cs.len(),
            out@ == escaped(s@.take(i as int)),
        decreases cs.len() - i,
    {
        proof {
            assert(s@.take(i + 1).drop_last() =~= s@.take(i as int));
        }
        let c: char = cs[i];
        if c == '<' {
            out.append("&lt;");
        } else if c == '>' {
            out.append("&gt;");
        } else if c == '&' {
            out.append("&amp;");
        } else if c == '"' {
            out.append("&quot;");
        } else if c == '\'' {
            out.append("&#39;");
        } else {
            let ghost before = out@;
            out.push(c);
            assert(out@ =~= before + seq![c]);
        }
        i = i + 1;
    }
    assert(s@.take(i as int) =~= s@);
    out
}

/// Escaping texts one by one is escaping them together.
pub proof fn law_escaping_distributes(a: Seq<char>, b: Seq<char>)
    ensures
        escaped(a + b) == escaped(a) + escaped(b),
    decreases b.len(),
{
    if b.len() == 0 {
        assert(a + b =~= a);
        assert(escaped(a) + escaped(b) =~= escaped(a));
    } else {
        law_escaping_distributes(a, b.drop_last());
        assert((a + b).drop_last() =~= a + b.drop_last());
        assert((a + b).last() == b.last());
        assert(escaped(a) + escaped(b.drop_last()) + escaped_char(b.last()) =~= escaped(a)
            + escaped(b));
    }
}

/// Escaped text holds none of the characters that HTML gives a meaning to,
/// but for the ampersand of an escape.
pub proof fn law_escaped_is_inert(s: Seq<char>)
    ensures
        forall|i: int|
            0 <= i < escaped(s).len() ==> (#[trigger] escaped(s)[i]) != '<' && escaped(s)[i] != '>'
                && escaped(s)[i] != '"' && escaped(s)[i] != '\'',
    decreases s.len(),
{
    if s.len() > 0 {
        law_escaped_is_inert(s.drop_last());
        reveal_strlit("&lt;");
        reveal_strlit("&gt;");
        reveal_strlit("&amp;");
        reveal_strlit("&quot;");
        reveal_strlit("&#39;");
        let before = escaped(s.drop_last());
        let last = escaped_char(s.last());
        assert forall|i: int| 0 <= i < escaped(s).len() implies (#[trigger] escaped(s)[i]) != '<'
            && escaped(s)[i] != '>' && escaped(s)[i] != '"' && escaped(s)[i] != '\'' by {
            if i < before.len() {
                assert(escaped(s)[i] == before[i]);
            } else {
                assert(escaped(s)[i] == last[i - before.len()]);
            }
        }
    }
}

/// The value of a hexadecimal digit.
pub open spec fn hex_value(b: u8) -> Option<u8> {
    if '0' as u8 <= b <= '9' as u8 {
        Some((b - '0' as u8) as u8)
    } else if 'a' as u8 <= b <= 'f' as u8 {
        Some((b - 'a' as u8 + 10) as u8)
    } else if 'A' as u8 <= b <= 'F' as u8 {
        Some((b - 'A' as u8 + 10) as u8)
    } else {
        None
    }
}

fn hex_digit_value(b: u8) -> (r: Option<u8>)
    ensures
        r == hex_value(b),
{
    if 48 <= b && b <= 57 {
        Some(b - 48)
    } else if 97 <= b && b <= 102 {
        Some(b - 97 + 10)
    } else if 65 <= b && b <= 70 {
        Some(b - 65 + 10)
    } else {
        None
    }
}

/// Form-urlencoded bytes as text: `+` is a blank, `%xx` the byte `xx`, any
/// other byte itself, and a bad escape itself too. A byte is the character of
/// that number.
pub open spec fn url_decoded(bytes: Seq<u8>) -> Seq<char>
    decreases bytes.len(),
{
    if bytes.len() == 0 {
        Seq::empty()
    } else if bytes[0] == '+' as u8 {
        seq![' '] + url_decoded(bytes.skip(1))
    } else if bytes[0] == '%' as u8 && bytes.len() > 2 && hex_value(bytes[1]) is Some && hex_value(
        bytes[2],
    ) is Some {
        seq![(hex_value(bytes[1])->0 * 16 + hex_value(bytes[2])->0) as char] + url_decoded(
            bytes.skip(3),
        )
    } else {
        seq![bytes[0] as char] + url_decoded(bytes.skip(1))
    }
}

/// `application/x-www-form-urlencoded` decoder for the limited set of
/// chars an IdP might return: `+` to space, `%xx` to byte. Bad escapes
/// fall through unchanged (the IdP's own validation will reject them).
pub fn url_decode(s: &str) -> (r: String)
    ensures
        r@ == url_decoded(encode_utf8(s@)),
{
    let bytes: &[u8] = s.as_bytes();
    let ghost all = encode_utf8(s@);
    let mut out: String = String::new();
    let mut i: usize = 0;
    assert(all.skip(0) =~= all);
    assert(out@ + url_decoded(all) =~= url_decoded(all));
    while i < bytes.len()
        invariant
            bytes@ == all,
            i <= bytes.len(),
            out@ + url_decoded(all.skip(i as int)) == url_decoded(all),
        decreases bytes.len() - i,
    {
        let ghost before = out@;
        let ghost rest = all.skip(i as int);
        let b: u8 = bytes[i];
        assert(rest[0] == b);
        let mut taken: usize = 1;
        let mut c: char = b as char;
        if b == 43 {
            c = ' ';
        } else if b == 37 && bytes.len() - i > 2 {
            assert(rest[1] == bytes@[i + 1] && rest[2] == bytes@[i + 2]);
            if let Some(hi) = hex_digit_value(bytes[i + 1]) {
                if let Some(lo) = hex_digit_value(bytes[i + 2]) {
                    c = (hi * 16 + lo) as char;
                    taken = 3;
                }
            }
        }
        out.push(c);
        proof {
            assert(rest.skip(taken as int) =~= all.skip(i + taken));
            assert(url_decoded(rest) == seq![c] + url_decoded(all.skip(i + taken)));
            assert(out@ + url_decoded(all.skip(i + taken)) =~= before + url_decoded(rest));
        }
        i = i + taken;
    }
    assert(all.skip(i as int) =~= Seq::<u8>::empty());
    assert(out@ + url_decoded(all.skip(i as int)) =~= out@);
    out
}

/// Escaping tells characters apart: each of the five that HTML gives a meaning
/// to has its own entity, and any other character is itself.
pub proof fn law_escapes(c: char)
    ensures
        escaped_char('<') == "&lt;"@,
        escaped_char('>') == "&gt;"@,
        escaped_char('&') == "&amp;"@,
        escaped_char('"') == "&quot;"@,
        escaped_char('\'') == "&#39;"@,
        c != '<' && c != '>' && c != '&' && c != '"' && c != '\'' ==> escaped_char(c) == seq![c],
{
}

/// A hexadecimal digit, in either case, has its value, and nothing else has
/// one.
pub proof fn law_hex_value(d: u8)
    requires
        d < 16,
    ensures
        d < 10 ==> hex_value((('0' as u8) + d) as u8) == Some(d),
        d >= 10 ==> hex_value((('a' as u8) + d - 10) as u8) == Some(d),
        d >= 10 ==> hex_value((('A' as u8) + d - 10) as u8) == Some(d),
        forall|b: u8|
            !('0' as u8 <= b <= '9' as u8) && !('a' as u8 <= b <= 'f' as u8) && !('A' as u8 <= b
                <= 'F' as u8) ==> #[trigger] hex_value(b) is None,
{
}

} // verus!
