//! What is sent to the identity provider, and what its answers lead to.

use vstd::prelude::*;
use vstd::utf8::{encode_utf8, is_ascii_chars};

use super::oauth::{
    authorize_url, credentials, encoded_byte, encoded_text, exchange_form, fetch_fault,
    is_chosen_email, is_encoded_char, law_decoding_undoes_encoding, law_encoded_is_inert,
    token_reply_fault, url_encoded, EmailEntry, FetchStage, TokenResponse, GITHUB_AUTHORIZE_URL,
    GITHUB_SCOPES,
};
use super::rpc::RpcCode;
use crate::text::{is_first_index, lemma_split_first, split_text};
use crate::worker::config::ConfigView;
use crate::worker::edge_laws::law_callback_pairs;
use crate::worker::routes::{callback_params, hex_value, url_decoded, with_pair, CallbackView};

verus! {

proof fn lemma_split_piece(piece: Seq<char>, rest: Seq<char>, c: char)
    requires
        !piece.contains(c),
    ensures
        split_text(piece + seq![c] + rest, c) == seq![piece] + split_text(rest, c),
{
    let s = piece + seq![c] + rest;
    let i = piece.len() as int;
    assert forall|j: int| 0 <= j < i implies s[j] != c by {
        assert(s[j] == piece[j]);
        assert(piece.contains(piece[j]));
    }
    assert(is_first_index(s, c, i));
    lemma_split_first(s, c, i);
    assert(s.take(i) =~= piece);
    assert(s.skip(i + 1) =~= rest);
}

proof fn lemma_split_last(piece: Seq<char>, c: char)
    requires
        !piece.contains(c),
    ensures
        split_text(piece, c) == seq![piece],
{
}

/// An encoded value behind its key holds no ampersand.
proof fn lemma_pair_is_one_piece(key: Seq<char>, value: Seq<char>)
    requires
        !key.contains('&'),
    ensures
        !(key + encoded_text(value)).contains('&'),
{
    let e = encoded_text(value);
    let pair = key + e;
    law_encoded_is_inert(encode_utf8(value));
    if pair.contains('&') {
        let k = choose|k: int| 0 <= k < pair.len() && pair[k] == '&';
        if k < key.len() {
            assert(key.contains(key[k]));
        } else {
            assert(is_encoded_char(e[k - key.len()]));
        }
    }
}

/// The URL that the user opens has four parameters behind the provider's
/// address: the client id, the redirect URI, the state and the scopes, each
/// encoded behind its own name. Read as a callback's, they give the state
/// back, and neither a code nor an error.
pub proof fn law_authorize_url(client_id: Seq<char>, redirect_uri: Seq<char>, state: Seq<char>)
    ensures
        ({
            let url = authorize_url(client_id, redirect_uri, state);
            let head = GITHUB_AUTHORIZE_URL@ + "?"@;
            let query = url.skip(head.len() as int);
            &&& url.len() >= head.len()
            &&& url.take(head.len() as int) == head
            &&& split_text(query, '&') == seq![
                "client_id="@ + encoded_text(client_id),
                "redirect_uri="@ + encoded_text(redirect_uri),
                "state="@ + encoded_text(state),
                "scope="@ + encoded_text(GITHUB_SCOPES@),
            ]
            &&& is_ascii_chars(state) ==> callback_params(split_text(query, '&')) == (
            CallbackView { state: Some(state), code: None, error: None })
        }),
{
    lemma_authorize_pieces(client_id, redirect_uri, state);
    if is_ascii_chars(state) {
        lemma_authorize_params(client_id, redirect_uri, state);
    }
}

proof fn lemma_authorize_pieces(client_id: Seq<char>, redirect_uri: Seq<char>, state: Seq<char>)
    ensures
        ({
            let url = authorize_url(client_id, redirect_uri, state);
            let head = GITHUB_AUTHORIZE_URL@ + "?"@;
            &&& url.len() >= head.len()
            &&& url.take(head.len() as int) == head
            &&& split_text(url.skip(head.len() as int), '&') == seq![
                "client_id="@ + encoded_text(client_id),
                "redirect_uri="@ + encoded_text(redirect_uri),
                "state="@ + encoded_text(state),
                "scope="@ + encoded_text(GITHUB_SCOPES@),
            ]
        }),
{
    reveal_strlit("?");
    reveal_strlit("?client_id=");
    reveal_strlit("client_id=");
    reveal_strlit("&redirect_uri=");
    reveal_strlit("redirect_uri=");
    reveal_strlit("&state=");
    reveal_strlit("state=");
    reveal_strlit("&scope=");
    reveal_strlit("scope=");
    let head = GITHUB_AUTHORIZE_URL@ + "?"@;
    let a = "client_id="@ + encoded_text(client_id);
    let b = "redirect_uri="@ + encoded_text(redirect_uri);
    let c = "state="@ + encoded_text(state);
    let d = "scope="@ + encoded_text(GITHUB_SCOPES@);
    let tail = c + seq!['&'] + d;
    let query = a + seq!['&'] + (b + seq!['&'] + tail);
    let url = authorize_url(client_id, redirect_uri, state);
    assert("?client_id="@ =~= "?"@ + "client_id="@);
    assert("&redirect_uri="@ =~= seq!['&'] + "redirect_uri="@);
    assert("&state="@ =~= seq!['&'] + "state="@);
    assert("&scope="@ =~= seq!['&'] + "scope="@);
    assert(url =~= head + query);
    assert(url.take(head.len() as int) =~= head);
    assert(url.skip(head.len() as int) =~= query);
    lemma_pair_is_one_piece("client_id="@, client_id);
    lemma_pair_is_one_piece("redirect_uri="@, redirect_uri);
    lemma_pair_is_one_piece("state="@, state);
    lemma_pair_is_one_piece("scope="@, GITHUB_SCOPES@);
    lemma_split_piece(a, b + seq!['&'] + tail, '&');
    lemma_split_piece(b, tail, '&');
    lemma_split_piece(c, d, '&');
    lemma_split_last(d, '&');
    assert(split_text(query, '&') =~= seq![a, b, c, d]);
}

/// A key and its value are the key, the sign and the value.
proof fn lemma_keys(value: Seq<char>)
    ensures
        "client_id="@ + value == "client_id"@ + seq!['='] + value,
        "redirect_uri="@ + value == "redirect_uri"@ + seq!['='] + value,
        "state="@ + value == "state"@ + seq!['='] + value,
        "scope="@ + value == "scope"@ + seq!['='] + value,
{
    reveal_strlit("client_id=");
    reveal_strlit("redirect_uri=");
    reveal_strlit("state=");
    reveal_strlit("scope=");
    reveal_strlit("client_id");
    reveal_strlit("redirect_uri");
    reveal_strlit("state");
    reveal_strlit("scope");
    assert("client_id="@ =~= "client_id"@ + seq!['=']);
    assert("redirect_uri="@ =~= "redirect_uri"@ + seq!['=']);
    assert("state="@ =~= "state"@ + seq!['=']);
    assert("scope="@ =~= "scope"@ + seq!['=']);
}

proof fn lemma_authorize_params(client_id: Seq<char>, redirect_uri: Seq<char>, state: Seq<char>)
    requires
        is_ascii_chars(state),
    ensures
        callback_params(
            seq![
                "client_id="@ + encoded_text(client_id),
                "redirect_uri="@ + encoded_text(redirect_uri),
                "state="@ + encoded_text(state),
                "scope="@ + encoded_text(GITHUB_SCOPES@),
            ],
        ) == (CallbackView { state: Some(state), code: None, error: None }),
{
    let a = "client_id="@ + encoded_text(client_id);
    let b = "redirect_uri="@ + encoded_text(redirect_uri);
    let c = "state="@ + encoded_text(state);
    let d = "scope="@ + encoded_text(GITHUB_SCOPES@);
    let none = CallbackView { state: None, code: None, error: None };
    let got = CallbackView { state: Some(state), code: None, error: None };
    let p0 = Seq::<Seq<char>>::empty();
    let p1 = p0.push(a);
    let p2 = p1.push(b);
    let p3 = p2.push(c);
    lemma_keys(encoded_text(client_id));
    lemma_keys(encoded_text(redirect_uri));
    lemma_keys(encoded_text(state));
    lemma_keys(encoded_text(GITHUB_SCOPES@));
    law_callback_pairs(none, p0, encoded_text(state));
    law_callback_pairs(none, p1, encoded_text(state));
    law_callback_pairs(none, p2, encoded_text(state));
    law_callback_pairs(got, p3, encoded_text(GITHUB_SCOPES@));
    law_decoding_undoes_encoding(state);
    lemma_other_key("client_id"@, encoded_text(client_id), none);
    lemma_other_key("redirect_uri"@, encoded_text(redirect_uri), none);
    assert(callback_params(p1) == none);
    assert(callback_params(p2) == none);
    assert(callback_params(p3) == got);
    assert(seq![a, b, c, d] =~= p3.push(d));
}

/// A key that is none of a callback's adds nothing.
proof fn lemma_other_key(key: Seq<char>, value: Seq<char>, c: CallbackView)
    requires
        key == "client_id"@ || key == "redirect_uri"@,
    ensures
        with_pair(c, key + seq!['='] + value) == c,
{
    reveal_strlit("client_id");
    reveal_strlit("redirect_uri");
    reveal_strlit("state");
    reveal_strlit("code");
    reveal_strlit("error");
    reveal_strlit("error_description");
    let pair = key + seq!['='] + value;
    let i = key.len() as int;
    assert(forall|j: int| 0 <= j < i ==> key[j] != '=');
    assert forall|j: int| 0 <= j < i implies pair[j] != '=' by {
        assert(pair[j] == key[j]);
    }
    assert(is_first_index(pair, '=', i));
    lemma_split_first(pair, '=', i);
    assert(pair.take(i) =~= key);
}

/// The body that exchanges a code holds the client's credentials, the code and
/// the redirect URI, each encoded behind its own name.
pub proof fn law_exchange_form(
    id: Seq<char>,
    secret: Seq<char>,
    code: Seq<char>,
    redirect_uri: Seq<char>,
)
    ensures
        split_text(exchange_form(id, secret, code, redirect_uri), '&') == seq![
            "client_id="@ + encoded_text(id),
            "client_secret="@ + encoded_text(secret),
            "code="@ + encoded_text(code),
            "redirect_uri="@ + encoded_text(redirect_uri),
        ],
        is_ascii_chars(code) ==> url_decoded(encode_utf8(encoded_text(code))) == code,
{
    reveal_strlit("client_id=");
    reveal_strlit("&client_secret=");
    reveal_strlit("client_secret=");
    reveal_strlit("&code=");
    reveal_strlit("code=");
    reveal_strlit("&redirect_uri=");
    reveal_strlit("redirect_uri=");
    let a = "client_id="@ + encoded_text(id);
    let b = "client_secret="@ + encoded_text(secret);
    let c = "code="@ + encoded_text(code);
    let d = "redirect_uri="@ + encoded_text(redirect_uri);
    let tail = c + seq!['&'] + d;
    let form = a + seq!['&'] + (b + seq!['&'] + tail);
    assert("&client_secret="@ =~= seq!['&'] + "client_secret="@);
    assert("&code="@ =~= seq!['&'] + "code="@);
    assert("&redirect_uri="@ =~= seq!['&'] + "redirect_uri="@);
    assert(exchange_form(id, secret, code, redirect_uri) =~= form);
    lemma_pair_is_one_piece("client_id="@, id);
    lemma_pair_is_one_piece("client_secret="@, secret);
    lemma_pair_is_one_piece("code="@, code);
    lemma_pair_is_one_piece("redirect_uri="@, redirect_uri);
    lemma_split_piece(a, b + seq!['&'] + tail, '&');
    lemma_split_piece(b, tail, '&');
    lemma_split_piece(c, d, '&');
    lemma_split_last(d, '&');
    assert(split_text(form, '&') =~= seq![a, b, c, d]);
    law_decoding_undoes_encoding(code);
}

/// The address that is used is verified. It is a primary one wherever one is
/// verified, no other one like it comes before it, and there is only one.
pub proof fn law_chosen_email(entries: Seq<EmailEntry>, i: int, j: int)
    requires
        is_chosen_email(entries, i),
    ensures
        0 <= i < entries.len(),
        entries[i].verified,
        0 <= j < entries.len() && entries[j].verified && entries[j].primary ==> entries[i].primary
            && i <= j,
        0 <= j < entries.len() && entries[j].verified && !entries[i].primary ==> i <= j,
        is_chosen_email(entries, j) ==> i == j,
{
    if 0 <= j < entries.len() {
        let other = entries[j];
        let own = entries[i];
    }
}

/// A token reply is taken exactly where it brings a token and no error; an
/// error of the provider is a refusal that names it.
pub proof fn law_token_reply(reply: TokenResponse)
    ensures
        token_reply_fault(reply) is None <==> reply.error is None && reply.access_token is Some,
        reply.error matches Some(err) ==> (token_reply_fault(reply) matches Some(e) && e.code
            == RpcCode::PermissionDenied && e.message == "github oauth: "@ + err@ + " "@ + (
        match reply.error_description {
            Some(d) => d@,
            None => Seq::empty(),
        })),
        reply.error is None && reply.access_token is None ==> (token_reply_fault(
            reply,
        ) matches Some(e) && e.code == RpcCode::Internal),
{
}

/// The provider's credentials are the configured id and secret, and there are
/// none unless both are set.
pub proof fn law_credentials(config: ConfigView)
    ensures
        credentials(config) is Some <==> config.github_client_id is Some
            && config.github_client_secret is Some,
        credentials(config) matches Some((id, secret)) ==> config.github_client_id == Some(id)
            && config.github_client_secret == Some(secret),
{
}

/// A byte that needs no encoding stands for itself, a blank is a plus sign,
/// and any other byte is a percent sign with its value in two hexadecimal
/// digits. Bytes are encoded one after the other.
pub proof fn law_encoded_bytes(b: u8, bytes: Seq<u8>)
    ensures
        ('A' as u8 <= b <= 'Z' as u8 || 'a' as u8 <= b <= 'z' as u8 || '0' as u8 <= b <= '9' as u8
            || b == '-' as u8 || b == '_' as u8 || b == '.' as u8 || b == '~' as u8)
            ==> encoded_byte(b) == seq![b as char],
        encoded_byte(' ' as u8) == seq!['+'],
        encoded_byte(b).len() == 1 || encoded_byte(b).len() == 3,
        encoded_byte(b).len() == 3 ==> encoded_byte(b)[0] == '%' && hex_value(
            encoded_byte(b)[1] as u8,
        ) == Some((b / 16) as u8) && hex_value(encoded_byte(b)[2] as u8) == Some((b % 16) as u8),
        encoded_byte('&' as u8).len() == 3,
        encoded_byte('=' as u8).len() == 3,
        encoded_byte('%' as u8).len() == 3,
        encoded_byte('+' as u8).len() == 3,
        url_encoded(Seq::empty()).len() == 0,
        url_encoded(bytes.push(b)) == url_encoded(bytes) + encoded_byte(b),
{
    assert(bytes.push(b).drop_last() =~= bytes);
}

/// Where the provider cannot be reached it is unavailable; any other failure
/// is internal. The words end with what went wrong, behind the address where
/// one was asked for.
pub proof fn law_fetch_faults(stage: FetchStage<'_>, detail: Seq<char>, url: &str)
    ensures
        fetch_fault(stage, detail).code == RpcCode::Unavailable <==> stage is SendTokenRequest
            || stage is SendGet,
        fetch_fault(stage, detail).code == RpcCode::Internal <==> !(stage is SendTokenRequest
            || stage is SendGet),
        ({
            let m = fetch_fault(stage, detail).message;
            m.len() >= detail.len() && m.skip(m.len() - detail.len()) == detail
        }),
        fetch_fault(FetchStage::BuildGet(url), detail).message == "oauth req "@ + url@ + ": "@
            + detail,
        fetch_fault(FetchStage::SendGet(url), detail).message == "github GET "@ + url@ + ": "@
            + detail,
        fetch_fault(FetchStage::ReadGet(url), detail).message == "read body "@ + url@ + ": "@
            + detail,
        fetch_fault(FetchStage::SendTokenRequest, detail).message == "github token endpoint: "@
            + detail,
        fetch_fault(FetchStage::DecodeUser, detail).message == "decode /user: "@ + detail,
        fetch_fault(FetchStage::DecodeEmails, detail).message == "decode /user/emails: "@ + detail,
{
    let m = fetch_fault(stage, detail).message;
    assert(m.skip(m.len() - detail.len()) =~= detail);
}

} // verus!
