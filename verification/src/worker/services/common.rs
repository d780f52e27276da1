//! Helpers shared across handlers: error mapping, simple validation.

use vstd::prelude::*;
use vstd::utf8::encode_utf8;

use super::rpc::{fails_as, rpc_error, RpcCode, RpcError, RpcErrorView};
use crate::shared::error::{StoreError, StoreErrorView};
use crate::text::{
    chars_of, contains_char, contains_str, contains_text, has_prefix, join_with, joined, lines,
    lines_of, split_char, split_first, split_once, split_text, strip_prefix, texts, trim, trimmed,
    words, words_of,
};
use crate::worker::auth::password::PasswordError;
use crate::worker::auth::tokens::TokenError;

verus! {

/// The RPC error that a store error becomes.
pub open spec fn store_rpc_error(e: StoreErrorView) -> RpcErrorView {
    match e {
        StoreErrorView::NotFound(s) => rpc_error(RpcCode::NotFound, s),
        StoreErrorView::AlreadyExists(s) => rpc_error(RpcCode::AlreadyExists, s),
        StoreErrorView::Conflict(s) => rpc_error(RpcCode::FailedPrecondition, s),
        StoreErrorView::Backend(s) => rpc_error(RpcCode::Internal, s),
    }
}

/// Map a `StoreError` onto the right code. `StoreError` is
/// transport-agnostic; the codes are chosen here.
pub fn map_store_error(e: StoreError) -> (r: RpcError)
    ensures
        r@ == store_rpc_error(e@),
{
    match e {
        StoreError::NotFound(s) => RpcError { code: RpcCode::NotFound, message: s },
        StoreError::AlreadyExists(s) => RpcError { code: RpcCode::AlreadyExists, message: s },
        StoreError::Conflict(s) => RpcError { code: RpcCode::FailedPrecondition, message: s },
        StoreError::Backend(s) => RpcError { code: RpcCode::Internal, message: s },
    }
}

/// The RPC error that a token error becomes.
pub open spec fn token_rpc_error(e: TokenError) -> RpcErrorView {
    match e {
        TokenError::InvalidSignature => rpc_error(
            RpcCode::Unauthenticated,
            "invalid token signature"@,
        ),
        TokenError::WrongPurpose { .. } => rpc_error(RpcCode::PermissionDenied, e.text()),
        _ => rpc_error(RpcCode::Unauthenticated, e.text()),
    }
}

pub fn map_token_error(e: TokenError) -> (r: RpcError)
    ensures
        r@ == token_rpc_error(e),
{
    match &e {
        TokenError::InvalidSignature => RpcError::new(
            RpcCode::Unauthenticated,
            "invalid token signature",
        ),
        TokenError::WrongPurpose { .. } => RpcError {
            code: RpcCode::PermissionDenied,
            message: e.to_string(),
        },
        _ => RpcError { code: RpcCode::Unauthenticated, message: e.to_string() },
    }
}

/// The RPC error that a password error becomes.
pub open spec fn password_rpc_error(e: PasswordError) -> RpcErrorView {
    match e {
        PasswordError::TooShort(_) => rpc_error(RpcCode::InvalidArgument, e.text()),
        PasswordError::Pwned => rpc_error(
            RpcCode::InvalidArgument,
            "password appears in known-breached corpus; pick another"@,
        ),
        PasswordError::Mismatch => rpc_error(RpcCode::Unauthenticated, "password mismatch"@),
        PasswordError::HashFailed(_) => rpc_error(RpcCode::Internal, e.text()),
        PasswordError::InvalidHash(_) => rpc_error(RpcCode::Internal, e.text()),
        PasswordError::PolicyError(_) => rpc_error(RpcCode::InvalidArgument, e.text()),
    }
}

pub fn map_password_error(e: PasswordError) -> (r: RpcError)
    ensures
        r@ == password_rpc_error(e),
{
    match &e {
        PasswordError::TooShort(_) => RpcError {
            code: RpcCode::InvalidArgument,
            message: e.to_string(),
        },
        PasswordError::Pwned => RpcError::new(
            RpcCode::InvalidArgument,
            "password appears in known-breached corpus; pick another",
        ),
        PasswordError::Mismatch => RpcError::new(RpcCode::Unauthenticated, "password mismatch"),
        PasswordError::HashFailed(_) => RpcError {
            code: RpcCode::Internal,
            message: e.to_string(),
        },
        PasswordError::InvalidHash(_) => RpcError {
            code: RpcCode::Internal,
            message: e.to_string(),
        },
        PasswordError::PolicyError(_) => RpcError {
            code: RpcCode::InvalidArgument,
            message: e.to_string(),
        },
    }
}

/// What is wrong with the shape of an email, where anything is: it must hold
/// exactly one `@`, with something on either side.
pub open spec fn email_fault(email: Seq<char>) -> Option<RpcErrorView> {
    let t = trimmed(email);
    if t.len() == 0 {
        Some(rpc_error(RpcCode::InvalidArgument, "email is required"@))
    } else {
        match split_first(t, '@') {
            None => Some(rpc_error(RpcCode::InvalidArgument, "email must contain '@'"@)),
            Some((local, domain)) => if local.len() == 0 || domain.len() == 0 || domain.contains(
                '@',
            ) {
                Some(rpc_error(RpcCode::InvalidArgument, "malformed email"@))
            } else {
                None
            },
        }
    }
}

/// Best-effort email shape check: exactly one `@`, non-empty parts. Not a
/// full RFC parse: the IdP / database is the canonical source of truth.
pub fn validate_email(email: &str) -> (r: Result<(), RpcError>)
    ensures
        fails_as(r, email_fault(email@)),
{
    let t: String = trim(email);
    if no_text(t.as_str()) {
        return Err(RpcError::new(RpcCode::InvalidArgument, "email is required"));
    }
    match split_once(t.as_str(), '@') {
        None => Err(RpcError::new(RpcCode::InvalidArgument, "email must contain '@'")),
        Some((local, domain)) => {
            if no_text(local.as_str()) || no_text(domain.as_str()) {
                return Err(RpcError::new(RpcCode::InvalidArgument, "malformed email"));
            }
            if contains_char(domain.as_str(), '@') {
                return Err(RpcError::new(RpcCode::InvalidArgument, "malformed email"));
            }
            Ok(())
        },
    }
}

/// Whether a string is empty.
pub(crate) fn no_text(s: &str) -> (r: bool)
    ensures
        r == (s@.len() == 0),
{
    proof {
        if s@.len() > 0 {
            vstd::utf8::encode_utf8_first_scalar(s@);
        }
    }
    s.is_empty()
}

/// The lines that are neither blank nor comments, trimmed.
pub open spec fn code_lines(ls: Seq<Seq<char>>) -> Seq<Seq<char>>
    decreases ls.len(),
{
    if ls.len() == 0 {
        Seq::empty()
    } else {
        let before = code_lines(ls.drop_last());
        let l = trimmed(ls.last());
        if l.len() == 0 || has_prefix(l, "--"@) {
            before
        } else {
            before.push(l)
        }
    }
}

/// SQL without its whole-line comments and blank lines.
pub open spec fn uncommented(sql: Seq<char>) -> Seq<char> {
    joined(code_lines(lines_of(sql)), "\n"@)
}

/// A text with one blank between its words, and none around them.
pub open spec fn collapsed(s: Seq<char>) -> Seq<char> {
    joined(words_of(s), " "@)
}

/// A statement on one line. What follows a separator on its line may be a
/// comment too.
pub open spec fn cleaned(stmt: Seq<char>) -> Seq<char> {
    collapsed(uncommented(stmt))
}

/// The statements among pieces of SQL, cleaned; empty ones are left out.
pub open spec fn statements(pieces: Seq<Seq<char>>) -> Seq<Seq<char>>
    decreases pieces.len(),
{
    if pieces.len() == 0 {
        Seq::empty()
    } else {
        let before = statements(pieces.drop_last());
        let c = cleaned(pieces.last());
        if c.len() == 0 {
            before
        } else {
            before.push(c)
        }
    }
}

/// The statements of SQL: a separator inside a whole-line comment is none.
pub open spec fn sql_statements(sql: Seq<char>) -> Seq<Seq<char>> {
    statements(split_text(uncommented(sql), ';'))
}

fn strip_comments(sql: &str) -> (r: String)
    ensures
        r@ == uncommented(sql@),
{
    let ls: Vec<String> = lines(sql);
    let ghost all = texts(ls@);
    let mut kept: Vec<String> = Vec::new();
    let mut i: usize = 0;
    assert(all.take(0) =~= Seq::<Seq<char>>::empty());
    assert(texts(kept@) =~= Seq::<Seq<char>>::empty());
    while i < ls.len()
        invariant
            i <= ls.len(),
            all == texts(ls@),
            texts(kept@) == code_lines(all.take(i as int)),
        decreases ls.len() - i,
    {
        let ghost before = kept@;
        proof {
            assert(all.take(i + 1).drop_last() =~= all.take(i as int));
            assert(all.take(i + 1).last() == ls@[i as int]@);
        }
        let l: String = trim(ls[i].as_str());
        if !no_text(l.as_str()) && strip_prefix(l.as_str(), "--").is_none() {
            kept.push(l);
            assert(texts(kept@) =~= texts(before).push(l@));
        }
        i = i + 1;
    }
    assert(all.take(i as int) =~= all);
    join_with(&kept, "\n")
}

fn clean_statement(stmt: &str) -> (r: String)
    ensures
        r@ == cleaned(stmt@),
{
    let code: String = strip_comments(stmt);
    join_with(&words(code.as_str()), " ")
}

/// Split a multi-statement SQL string on `;`, stripping whole-line `--`
/// comments and collapsing whitespace per statement. Naive: does not
/// handle `;` inside string literals or `BEGIN ... END` blocks. Adequate
/// for the current `CREATE TABLE` corpus; revisit before adding triggers
/// or seed `INSERT`s with embedded semicolons.
pub fn split_sql_statements(sql: &str) -> (r: Vec<String>)
    ensures
        texts(r@) == sql_statements(sql@),
{
    let code: String = strip_comments(sql);
    let pieces: Vec<String> = split_char(code.as_str(), ';');
    let ghost all = texts(pieces@);
    let mut out: Vec<String> = Vec::new();
    let mut i: usize = 0;
    assert(all.take(0) =~= Seq::<Seq<char>>::empty());
    assert(texts(out@) =~= Seq::<Seq<char>>::empty());
    while i < pieces.len()
        invariant
            i <= pieces.len(),
            all == texts(pieces@),
            texts(out@) == statements(all.take(i as int)),
        decreases pieces.len() - i,
    {
        let ghost before = out@;
        proof {
            assert(all.take(i + 1).drop_last() =~= all.take(i as int));
            assert(all.take(i + 1).last() == pieces@[i as int]@);
        }
        let c: String = clean_statement(pieces[i].as_str());
        if !no_text(c.as_str()) {
            out.push(c);
            assert(texts(out@) =~= texts(before).push(c@));
        }
        i = i + 1;
    }
    assert(all.take(i as int) =~= all);
    out
}

/// SQLite UNIQUE-constraint violations surface as opaque error strings; sniff
/// them so callers can map to a typed `AlreadyExists`.
pub fn is_unique_violation(err: &str) -> (r: bool)
    ensures
        r == contains_text(err@, "UNIQUE constraint"@),
{
    contains_str(err, "UNIQUE constraint")
}

/// The characters that a database name may hold.
pub open spec fn is_name_char(c: char) -> bool {
    'a' <= c <= 'z' || 'A' <= c <= 'Z' || '0' <= c <= '9' || c == '-' || c == '_'
}

/// What is wrong with a database name, where anything is. The limit is on
/// bytes, the first thing looked at after emptiness.
pub open spec fn database_name_fault(name: Seq<char>) -> Option<RpcErrorView> {
    let t = trimmed(name);
    if t.len() == 0 {
        Some(rpc_error(RpcCode::InvalidArgument, "database name is required"@))
    } else if encode_utf8(t).len() > 64 {
        Some(rpc_error(RpcCode::InvalidArgument, "database name too long (max 64 chars)"@))
    } else if !(forall|i: int| 0 <= i < t.len() ==> is_name_char(#[trigger] t[i])) {
        Some(
            rpc_error(
                RpcCode::InvalidArgument,
                "database name may only contain ASCII alphanumerics, '-', '_'"@,
            ),
        )
    } else {
        None
    }
}

pub fn validate_database_name(name: &str) -> (r: Result<(), RpcError>)
    ensures
        fails_as(r, database_name_fault(name@)),
{
    let t: String = trim(name);
    if no_text(t.as_str()) {
        return Err(RpcError::new(RpcCode::InvalidArgument, "database name is required"));
    }
    if t.as_str().as_bytes().len() > 64 {
        return Err(
            RpcError::new(RpcCode::InvalidArgument, "database name too long (max 64 chars)"),
        );
    }
    let cs: Vec<char> = chars_of(t.as_str());
    let mut i: usize = 0;
    while i < cs.len()
        invariant
            cs@ == t@,
            t@ == trimmed(name@),
            t@.len() > 0,
            encode_utf8(t@).len() <= 64,
            i <= cs.len(),
            forall|j: int| 0 <= j < i ==> is_name_char(#[trigger] t@[j]),
        decreases cs.len() - i,
    {
        let c: char = cs[i];
        let ok: bool = ('a' <= c && c <= 'z') || ('A' <= c && c <= 'Z') || ('0' <= c && c <= '9')
            || c == '-' || c == '_';
        if !ok {
            assert(!is_name_char(t@[i as int]));
            return Err(
                RpcError::new(
                    RpcCode::InvalidArgument,
                    "database name may only contain ASCII alphanumerics, '-', '_'",
                ),
            );
        }
        i = i + 1;
    }
    Ok(())
}

} // verus!
