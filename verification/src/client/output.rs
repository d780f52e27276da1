//! What the commands print.

use vstd::prelude::*;

use crate::text::{decimal, decimal_int, format_i64, format_u64, join2, join3, texts};
use crate::worker::services::admin_model::{DatabaseInfo, WhoamiInfo};

verus! {

/// `<command> ok (<email>)`.
pub fn auth_line(command: &str, email: &str) -> (r: String)
    ensures
        r@ == command@ + " ok ("@ + email@ + ")"@,
{
    let head: String = join3(command, " ok (", email);
    join2(head.as_str(), ")")
}

/// What `whoami` tells, line by line.
pub open spec fn whoami_texts(info: WhoamiInfo) -> Seq<Seq<char>> {
    seq![
        "user_id: "@ + info@.user_id,
        "email:   "@ + info@.email,
        "org_id:  "@ + info@.org_id,
        "role:    "@ + info@.role,
    ]
}

/// Each of the four lines has one fact behind a label of nine characters: the
/// user, the email, the organization and the role, in this order.
pub proof fn law_whoami_texts(info: WhoamiInfo)
    ensures
        whoami_texts(info).len() == 4,
        whoami_texts(info)[0].skip(9) == info@.user_id,
        whoami_texts(info)[1].skip(9) == info@.email,
        whoami_texts(info)[2].skip(9) == info@.org_id,
        whoami_texts(info)[3].skip(9) == info@.role,
{
    reveal_strlit("user_id: ");
    reveal_strlit("email:   ");
    reveal_strlit("org_id:  ");
    reveal_strlit("role:    ");
    assert(whoami_texts(info)[0].skip(9) =~= info@.user_id);
    assert(whoami_texts(info)[1].skip(9) =~= info@.email);
    assert(whoami_texts(info)[2].skip(9) =~= info@.org_id);
    assert(whoami_texts(info)[3].skip(9) =~= info@.role);
}

/// The lines of `whoami`.
pub fn whoami_lines(info: &WhoamiInfo) -> (r: Vec<String>)
    ensures
        texts(r@) == whoami_texts(*info),
{
    let mut out: Vec<String> = Vec::new();
    out.push(join2("user_id: ", info.user_id.as_str()));
    out.push(join2("email:   ", info.email.as_str()));
    out.push(join2("org_id:  ", info.org_id.as_str()));
    out.push(join2("role:    ", info.role.as_str()));
    assert(texts(out@) =~= whoami_texts(*info));
    out
}

/// `<id> TAB <name>`.
pub open spec fn row_text(d: DatabaseInfo) -> Seq<char> {
    d@.id + "\t"@ + d@.name
}

/// `<id> TAB <name>`.
pub fn database_line(d: &DatabaseInfo) -> (r: String)
    ensures
        r@ == row_text(*d),
{
    join3(d.id.as_str(), "\t", d.name.as_str())
}

/// The lines of `db list`: one per database, or that there are none.
pub fn database_lines(dbs: &Vec<DatabaseInfo>) -> (r: Vec<String>)
    ensures
        texts(r@) == if dbs@.len() == 0 {
            seq!["(no databases)"@]
        } else {
            dbs@.map_values(|d: DatabaseInfo| row_text(d))
        },
{
    let mut out: Vec<String> = Vec::new();
    if dbs.len() == 0 {
        out.push("(no databases)".to_owned());
        assert(texts(out@) =~= seq!["(no databases)"@]);
        return out;
    }
    let ghost rows = dbs@.map_values(|d: DatabaseInfo| row_text(d));
    let mut i: usize = 0;
    while i < dbs.len()
        invariant
            i <= dbs.len(),
            rows == dbs@.map_values(|d: DatabaseInfo| row_text(d)),
            texts(out@) == rows.take(i as int),
        decreases dbs.len() - i,
    {
        let ghost before = out@;
        out.push(database_line(&dbs[i]));
        assert(texts(out@) =~= texts(before).push(rows[i as int]));
        assert(rows.take(i + 1) =~= rows.take(i as int).push(rows[i as int]));
        i = i + 1;
    }
    assert(rows.take(i as int) =~= rows);
    out
}

/// `deleted <id>`.
pub fn deleted_line(id: &str) -> (r: String)
    ensures
        r@ == "deleted "@ + id@,
{
    join2("deleted ", id)
}

/// The note on a sync token's expiry, which goes beside the token.
pub fn expiry_note(exp_unix: i64) -> (r: String)
    ensures
        r@ == "# expires at unix "@ + decimal_int(exp_unix as int),
{
    join2("# expires at unix ", format_i64(exp_unix).as_str())
}

/// `sync complete: <pages> pages, <bytes> bytes`.
pub open spec fn complete_text(pages: u64, bytes: u64) -> Seq<char> {
    "sync complete: "@ + decimal(pages as nat) + " pages, "@ + decimal(bytes as nat) + " bytes"@
}

/// `sync complete: <pages> pages, <bytes> bytes`.
pub fn complete_line(pages: u64, bytes: u64) -> (r: String)
    ensures
        r@ == complete_text(pages, bytes),
{
    let head: String = join3("sync complete: ", format_u64(pages).as_str(), " pages, ");
    join3(head.as_str(), format_u64(bytes).as_str(), " bytes")
}

/// The line of a finished pull, with what was written.
pub fn pulled_line(pages: u64, bytes: u64, written: u64) -> (r: String)
    ensures
        r@ == complete_text(pages, bytes) + " (wrote "@ + decimal(written as nat) + " locally)"@,
{
    let head: String = complete_line(pages, bytes);
    let tail: String = join3(head.as_str(), " (wrote ", format_u64(written).as_str());
    join2(tail.as_str(), " locally)")
}

/// A row is the database's id, a tab and its name.
pub proof fn law_row(d: DatabaseInfo)
    ensures
        ({
            let n = d@.id.len() as int;
            &&& row_text(d).len() == d@.id.len() + 1 + d@.name.len()
            &&& row_text(d).take(n) == d@.id
            &&& row_text(d)[n] == '\t'
            &&& row_text(d).skip(n + 1) == d@.name
        }),
{
    reveal_strlit("\t");
    let n = d@.id.len() as int;
    assert(row_text(d).take(n) =~= d@.id);
    assert(row_text(d).skip(n + 1) =~= d@.name);
}

/// The summary tells the number of pages, then the number of bytes.
pub proof fn law_complete_text(pages: u64, bytes: u64)
    ensures
        ({
            let p = decimal(pages as nat);
            let b = decimal(bytes as nat);
            let t = complete_text(pages, bytes);
            &&& t.len() == 15 + p.len() + 8 + b.len() + 6
            &&& t.subrange(15, 15int + p.len()) == p
            &&& t.subrange(15int + p.len() + 8int, 15int + p.len() + 8int + b.len()) == b
        }),
{
    reveal_strlit("sync complete: ");
    reveal_strlit(" pages, ");
    reveal_strlit(" bytes");
    let p = decimal(pages as nat);
    let b = decimal(bytes as nat);
    let t = complete_text(pages, bytes);
    assert(t.subrange(15, 15int + p.len()) =~= p);
    assert(t.subrange(15int + p.len() + 8int, 15int + p.len() + 8int + b.len()) =~= b);
}

} // verus!
