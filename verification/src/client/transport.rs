//! How the client reaches the server, and how it shows its token.

use vstd::prelude::*;
use vstd::utf8::encode_utf8;

use super::config::Config;
use crate::shared::domain::entities::opt_chars;
use crate::text::{join2, join3, str_eq};

verus! {

/// The bytes that a header value may hold.
pub open spec fn is_header_byte(b: u8) -> bool {
    b == 9 || (b >= 32 && b != 127)
}

/// Whether a text may stand in a header.
pub open spec fn is_header_text(s: Seq<char>) -> bool {
    forall|i: int| 0 <= i < encode_utf8(s).len() ==> is_header_byte(#[trigger] encode_utf8(s)[i])
}

/// `HeaderValue::from_str`, as bytes: the text's own, where each of them may
/// stand in a header.
#[verifier::external_body]
fn header_value(s: &str) -> (r: Result<Vec<u8>, String>)
    ensures
        r is Ok <==> is_header_text(s@),
        r matches Ok(b) ==> b@ == encode_utf8(s@),
{
    http::HeaderValue::from_str(s).map(|v| v.as_bytes().to_vec()).map_err(|e| e.to_string())
}

/// The `Authorization` header of a token.
pub fn bearer(token: &str) -> (r: Result<Vec<u8>, String>)
    ensures
        match r {
            Ok(b) => is_header_text("Bearer "@ + token@) && b@ == encode_utf8("Bearer "@ + token@),
            Err(e) => !is_header_text("Bearer "@ + token@) && e@
                == "session token contains invalid header bytes"@,
        },
{
    let value: String = join2("Bearer ", token);
    match header_value(value.as_str()) {
        Ok(b) => Ok(b),
        Err(_) => Err("session token contains invalid header bytes".to_owned()),
    }
}

/// The `Authorization` header of a config's session.
pub fn session_bearer(config: &Config) -> (r: Result<Vec<u8>, String>)
    ensures
        match opt_chars(config.session_token) {
            None => r matches Err(e) && e@ == "no session token; run `edgereplica login` first"@,
            Some(t) => match r {
                Ok(b) => is_header_text("Bearer "@ + t) && b@ == encode_utf8("Bearer "@ + t),
                Err(e) => !is_header_text("Bearer "@ + t) && e@
                    == "session token contains invalid header bytes"@,
            },
        },
{
    match config.require_session() {
        Ok(token) => bearer(token),
        Err(e) => Err(e),
    }
}

/// What parsing a URL comes to: its scheme, where it has one, or what is wrong
/// with it.
pub uninterp spec fn uri_scheme(url: Seq<char>) -> Result<Option<Seq<char>>, Seq<char>>;

/// A scheme over characters.
pub open spec fn scheme_view(r: Result<Option<String>, String>) -> Result<
    Option<Seq<char>>,
    Seq<char>,
> {
    match r {
        Ok(s) => Ok(opt_chars(s)),
        Err(e) => Err(e@),
    }
}

/// `http::Uri` out of a text, and its `scheme_str`.
#[verifier::external_body]
fn parse_scheme(url: &str) -> (r: Result<Option<String>, String>)
    ensures
        scheme_view(r) == uri_scheme(url@),
{
    let uri: http::Uri = url.parse().map_err(|e: http::uri::InvalidUri| e.to_string())?;
    Ok(uri.scheme_str().map(|s| s.to_owned()))
}

/// How to talk to a server.
#[derive(Copy, Clone, Debug, PartialEq, Eq, Structural)]
pub enum Channel {
    Plaintext,
    Tls,
}

/// The channel that a parsed URL asks for, or what is wrong with it.
pub open spec fn channel_of(
    server: Seq<char>,
    scheme: Result<Option<Seq<char>>, Seq<char>>,
) -> Result<Channel, Seq<char>> {
    match scheme {
        Err(_) => Err("invalid server url: "@ + server),
        Ok(s) => {
            let s = match s {
                Some(t) => t,
                None => Seq::empty(),
            };
            if s == "http"@ {
                Ok(Channel::Plaintext)
            } else if s == "https"@ {
                Ok(Channel::Tls)
            } else {
                Err("unsupported scheme `"@ + s + "` (expected http or https)"@)
            }
        },
    }
}

/// A channel over characters.
pub open spec fn channel_view(r: Result<Channel, String>) -> Result<Channel, Seq<char>> {
    match r {
        Ok(c) => Ok(c),
        Err(e) => Err(e@),
    }
}

/// The channel that a parsed URL asks for.
pub fn choose_channel(server: &str, scheme: Result<Option<String>, String>) -> (r: Result<
    Channel,
    String,
>)
    ensures
        channel_view(r) == channel_of(server@, scheme_view(scheme)),
{
    match scheme {
        Err(_) => Err(join2("invalid server url: ", server)),
        Ok(s) => {
            let s: String = match s {
                Some(t) => t,
                None => String::new(),
            };
            if str_eq(s.as_str(), "http") {
                Ok(Channel::Plaintext)
            } else if str_eq(s.as_str(), "https") {
                Ok(Channel::Tls)
            } else {
                Err(join3("unsupported scheme `", s.as_str(), "` (expected http or https)"))
            }
        },
    }
}

/// The channel to a server.
pub fn channel(server: &str) -> (r: Result<Channel, String>)
    ensures
        channel_view(r) == channel_of(server@, uri_scheme(server@)),
{
    choose_channel(server, parse_scheme(server))
}

/// A server is talked to in plain text over `http` and over TLS for `https`;
/// any other scheme, and a URL that cannot be parsed, is refused.
pub proof fn law_channel(server: Seq<char>, scheme: Seq<char>, fault: Seq<char>)
    ensures
        channel_of(server, Ok(Some("http"@))) == Ok::<Channel, Seq<char>>(Channel::Plaintext),
        channel_of(server, Ok(Some("https"@))) == Ok::<Channel, Seq<char>>(Channel::Tls),
        scheme != "http"@ && scheme != "https"@ ==> channel_of(server, Ok(Some(scheme))) == Err::<
            Channel,
            Seq<char>,
        >("unsupported scheme `"@ + scheme + "` (expected http or https)"@),
        channel_of(server, Ok(None)) is Err,
        channel_of(server, Err(fault)) == Err::<Channel, Seq<char>>(
            "invalid server url: "@ + server,
        ),
{
    reveal_strlit("http");
    reveal_strlit("https");
    assert("http"@.len() != "https"@.len());
}

} // verus!
