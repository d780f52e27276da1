//! What holds of split SQL.

use vstd::prelude::*;

use super::common::{
    cleaned, code_lines, collapsed, sql_statements, statements, uncommented,
};
use crate::text::{
    has_prefix, is_first_index, is_white, joined, lemma_split_first, lines_of, split_first,
    split_text, trimmed, trimmed_end, trimmed_start, words_of,
};

verus! {

/// A statement in its tidy form: on one line, without separators, with nothing
/// around it and one blank between its words, and no comment.
pub open spec fn tidy(t: Seq<char>) -> bool {
    &&& t.len() > 0
    &&& !is_white(t[0])
    &&& !is_white(t.last())
    &&& trimmed(t) == t
    &&& collapsed(t) == t
    &&& !t.contains(';')
    &&& !t.contains('\n')
    &&& !has_prefix(t, "--"@)
}

/// A word: something, and no white space in it.
spec fn plain(w: Seq<char>) -> bool {
    w.len() > 0 && forall|i: int| 0 <= i < w.len() ==> !is_white(#[trigger] w[i])
}

// ---------- trimming ----------

proof fn lemma_start(s: Seq<char>)
    ensures
        trimmed_start(s).len() <= s.len(),
        trimmed_start(s).len() > 0 ==> !is_white(trimmed_start(s)[0]),
        forall|c: char| #[trigger] trimmed_start(s).contains(c) ==> s.contains(c),
    decreases s.len(),
{
    if s.len() > 0 && is_white(s[0]) {
        lemma_start(s.skip(1));
        assert forall|c: char| #[trigger] trimmed_start(s).contains(c) implies s.contains(c) by {
            assert(s.skip(1).contains(c));
            let i = choose|i: int| 0 <= i < s.skip(1).len() && s.skip(1)[i] == c;
            assert(s[i + 1] == c);
        }
    }
}

proof fn lemma_end(s: Seq<char>)
    ensures
        trimmed_end(s).len() <= s.len(),
        trimmed_end(s).len() > 0 ==> !is_white(trimmed_end(s).last()) && trimmed_end(s)[0] == s[0],
        forall|c: char| #[trigger] trimmed_end(s).contains(c) ==> s.contains(c),
    decreases s.len(),
{
    if s.len() > 0 && is_white(s.last()) {
        lemma_end(s.drop_last());
        assert forall|c: char| #[trigger] trimmed_end(s).contains(c) implies s.contains(c) by {
            assert(s.drop_last().contains(c));
            let i = choose|i: int| 0 <= i < s.drop_last().len() && s.drop_last()[i] == c;
            assert(s[i] == c);
        }
    }
}

proof fn lemma_trimmed(s: Seq<char>)
    ensures
        trimmed(s).len() > 0 ==> !is_white(trimmed(s)[0]) && !is_white(trimmed(s).last()),
        forall|c: char| #[trigger] trimmed(s).contains(c) ==> s.contains(c),
{
    lemma_start(s);
    lemma_end(trimmed_start(s));
    assert forall|c: char| #[trigger] trimmed(s).contains(c) implies s.contains(c) by {
        assert(trimmed_start(s).contains(c));
    }
}

// ---------- joining ----------

/// A joined text holds no character that is in neither its parts nor the
/// separator.
proof fn lemma_joined_free(parts: Seq<Seq<char>>, sep: Seq<char>, c: char)
    requires
        forall|i: int| 0 <= i < parts.len() ==> !(#[trigger] parts[i]).contains(c),
        !sep.contains(c),
    ensures
        !joined(parts, sep).contains(c),
    decreases parts.len(),
{
    let all = joined(parts, sep);
    if all.contains(c) {
        let k = choose|k: int| 0 <= k < all.len() && all[k] == c;
        if parts.len() == 1 {
            assert(parts[0].contains(c));
        } else if parts.len() > 1 {
            let part = parts.drop_last();
            assert forall|i: int| 0 <= i < part.len() implies !(#[trigger] part[i]).contains(c) by {
                assert(part[i] == parts[i]);
            }
            lemma_joined_free(part, sep, c);
            let before = joined(part, sep);
            if k < before.len() {
                assert(before[k] == c);
                assert(before.contains(c));
            } else if k < before.len() + sep.len() {
                assert(sep[k - before.len()] == c);
                assert(sep.contains(c));
            } else {
                let last = parts.last();
                assert(last[k - before.len() - sep.len()] == c);
                assert(last == parts[parts.len() - 1]);
                assert(last.contains(c));
            }
        }
    }
}

/// A joined text begins with its first part, then the separator, and ends with
/// its last.
proof fn lemma_joined_ends(parts: Seq<Seq<char>>, sep: Seq<char>)
    requires
        parts.len() > 0,
        parts[0].len() > 0,
        parts.last().len() > 0,
        sep.len() == 1,
    ensures
        ({
            let all = joined(parts, sep);
            let n = parts[0].len() as int;
            &&& all.len() >= n
            &&& all.take(n) == parts[0]
            &&& all.len() > n ==> all[n] == sep[0]
            &&& all.last() == parts.last().last()
        }),
    decreases parts.len(),
{
    let all = joined(parts, sep);
    let n = parts[0].len() as int;
    if parts.len() == 1 {
        assert(all.take(n) =~= parts[0]);
    } else {
        let part = parts.drop_last();
        lemma_joined_begins(part, sep);
        let before = joined(part, sep);
        assert(all == before + sep + parts.last());
        assert(all.take(n) =~= before.take(n));
    }
}

proof fn lemma_joined_begins(parts: Seq<Seq<char>>, sep: Seq<char>)
    requires
        parts.len() > 0,
        parts[0].len() > 0,
        sep.len() == 1,
    ensures
        ({
            let all = joined(parts, sep);
            let n = parts[0].len() as int;
            &&& all.len() >= n
            &&& all.take(n) == parts[0]
            &&& all.len() > n ==> all[n] == sep[0]
        }),
    decreases parts.len(),
{
    let all = joined(parts, sep);
    let n = parts[0].len() as int;
    if parts.len() == 1 {
        assert(all.take(n) =~= parts[0]);
    } else {
        let part = parts.drop_last();
        lemma_joined_begins(part, sep);
        let before = joined(part, sep);
        assert(all == before + sep + parts.last());
        assert(all.take(n) =~= before.take(n));
    }
}

/// A joined text is no comment where its first part is none.
proof fn lemma_joined_code(parts: Seq<Seq<char>>, sep: Seq<char>)
    requires
        parts.len() > 0,
        parts[0].len() > 0,
        !has_prefix(parts[0], "--"@),
        sep.len() == 1,
        sep[0] != '-',
    ensures
        !has_prefix(joined(parts, sep), "--"@),
{
    reveal_strlit("--");
    lemma_joined_begins(parts, sep);
    let all = joined(parts, sep);
    if has_prefix(all, "--"@) {
        assert(all.take(2)[0] == '-' && all.take(2)[1] == '-');
        let first = parts[0];
        if first.len() >= 2 {
            assert(all.take(first.len() as int)[0] == first[0]);
            assert(all.take(first.len() as int)[1] == first[1]);
            assert(first.take(2) =~= "--"@);
        }
    }
}

proof fn lemma_joined_front(parts: Seq<Seq<char>>, sep: Seq<char>)
    requires
        parts.len() > 1,
    ensures
        joined(parts, sep) == parts[0] + sep + joined(parts.skip(1), sep),
    decreases parts.len(),
{
    let rest = parts.skip(1);
    if parts.len() == 2 {
        assert(parts.drop_last() =~= seq![parts[0]]);
        assert(joined(parts.drop_last(), sep) == parts[0]);
        assert(rest =~= seq![parts[1]]);
        assert(joined(rest, sep) == parts[1]);
    } else {
        let part = parts.drop_last();
        lemma_joined_front(part, sep);
        assert(part.skip(1) =~= rest.drop_last());
        assert(rest.last() == parts.last());
        assert(parts[0] + sep + joined(rest.drop_last(), sep) + sep + parts.last() =~= parts[0]
            + sep + (joined(rest.drop_last(), sep) + sep + parts.last()));
    }
}

// ---------- splitting ----------

/// Pieces hold no separator, and no character that the text does not.
proof fn lemma_split_free(s: Seq<char>, c: char)
    ensures
        forall|i: int|
            0 <= i < split_text(s, c).len() ==> !(#[trigger] split_text(s, c)[i]).contains(c),
        forall|i: int, d: char|
            0 <= i < split_text(s, c).len() && !s.contains(d) ==> !(#[trigger] split_text(
                s,
                c,
            )[i].contains(d)),
    decreases s.len(),
{
    let all = split_text(s, c);
    match split_first(s, c) {
        None => {},
        Some((head, tail)) => {
            lemma_has_first(s, c);
            let k = choose|k: int| is_first_index(s, c, k);
            lemma_split_first(s, c, k);
            assert(!head.contains(c)) by {
                if head.contains(c) {
                    let j = choose|j: int| 0 <= j < head.len() && head[j] == c;
                    assert(s[j] == c);
                }
            }
            lemma_split_free(tail, c);
            let rest = split_text(tail, c);
            assert(all =~= seq![head] + rest);
            assert forall|i: int| 0 <= i < all.len() implies !(#[trigger] all[i]).contains(c) by {
                if i > 0 {
                    assert(all[i] == rest[i - 1]);
                }
            }
            assert forall|i: int, d: char| 0 <= i < all.len() && !s.contains(d) implies !(
            #[trigger] all[i].contains(d)) by {
                if tail.contains(d) {
                    let j = choose|j: int| 0 <= j < tail.len() && tail[j] == d;
                    assert(s[k + 1 + j] == d);
                }
                if i > 0 {
                    assert(all[i] == rest[i - 1]);
                    assert(!rest[i - 1].contains(d));
                } else if head.contains(d) {
                    let j = choose|j: int| 0 <= j < head.len() && head[j] == d;
                    assert(s[j] == d);
                }
            }
        },
    }
}

/// A character that occurs has a first place.
proof fn lemma_has_first(s: Seq<char>, c: char)
    requires
        s.contains(c),
    ensures
        exists|k: int| is_first_index(s, c, k),
    decreases s.len(),
{
    let i = choose|i: int| 0 <= i < s.len() && s[i] == c;
    let part = s.take(i);
    if part.contains(c) {
        lemma_has_first(part, c);
        let k = choose|k: int| is_first_index(part, c, k);
        assert forall|j: int| 0 <= j < k implies s[j] != c by {
            assert(part[j] == s[j]);
        }
        assert(part[k] == s[k]);
        assert(is_first_index(s, c, k));
    } else {
        assert forall|j: int| 0 <= j < i implies s[j] != c by {
            assert(part[j] == s[j]);
        }
        assert(is_first_index(s, c, i));
    }
}

/// Splitting undoes joining where no part holds the separator.
proof fn lemma_split_joined(parts: Seq<Seq<char>>, c: char)
    requires
        parts.len() > 0,
        forall|i: int| 0 <= i < parts.len() ==> !(#[trigger] parts[i]).contains(c),
    ensures
        split_text(joined(parts, seq![c]), c) == parts,
    decreases parts.len(),
{
    let all = joined(parts, seq![c]);
    if parts.len() == 1 {
        assert(!parts[0].contains(c));
        assert(split_text(all, c) =~= parts);
    } else {
        let rest = parts.skip(1);
        lemma_joined_front(parts, seq![c]);
        let head = parts[0];
        let tail = joined(rest, seq![c]);
        let k = head.len() as int;
        assert(all[k] == c);
        assert forall|j: int| 0 <= j < k implies all[j] != c by {
            assert(head[j] == all[j]);
            if head[j] == c {
                assert(head.contains(c));
            }
        }
        assert(is_first_index(all, c, k));
        lemma_split_first(all, c, k);
        assert(all.take(k) =~= head);
        assert(all.skip(k + 1) =~= tail);
        assert forall|i: int| 0 <= i < rest.len() implies !(#[trigger] rest[i]).contains(c) by {
            assert(rest[i] == parts[i + 1]);
        }
        lemma_split_joined(rest, c);
        assert(split_text(all, c) =~= seq![head] + rest);
        assert(seq![head] + rest =~= parts);
    }
}

// ---------- words ----------

proof fn lemma_words(s: Seq<char>)
    ensures
        forall|i: int| 0 <= i < words_of(s).len() ==> plain(#[trigger] words_of(s)[i]),
        forall|i: int, c: char|
            0 <= i < words_of(s).len() && (#[trigger] words_of(s)[i].contains(c)) ==> s.contains(c),
        s.len() > 0 && !is_white(s.last()) ==> words_of(s).len() > 0,
    decreases s.len(),
{
    let ws = words_of(s);
    if s.len() > 0 {
        let part = s.drop_last();
        let before = words_of(part);
        lemma_words(part);
        let c = s.last();
        assert forall|i: int| 0 <= i < ws.len() implies plain(#[trigger] ws[i]) by {
            if i < before.len() {
                assert(plain(before[i]));
            }
        }
        assert forall|i: int, d: char| 0 <= i < ws.len() && #[trigger] ws[i].contains(
            d,
        ) implies s.contains(d) by {
            let k = choose|k: int| 0 <= k < ws[i].len() && ws[i][k] == d;
            assert(s[s.len() - 1] == c);
            if i < before.len() {
                let w = before[i];
                if k < w.len() {
                    assert(w[k] == d);
                    assert(w.contains(d));
                    assert(part.contains(d));
                    let j = choose|j: int| 0 <= j < part.len() && part[j] == d;
                    assert(s[j] == d);
                } else {
                    assert(d == c);
                }
            } else {
                assert(d == c);
            }
        }
    }
}

/// A word after white space is one more.
proof fn lemma_words_append(a: Seq<char>, w: Seq<char>)
    requires
        plain(w),
        a.len() == 0 || is_white(a.last()),
    ensures
        words_of(a + w) == words_of(a).push(w),
    decreases w.len(),
{
    let s = a + w;
    let c = w.last();
    assert(s.last() == c);
    assert(!is_white(w[w.len() - 1]));
    assert(s.drop_last() =~= a + w.drop_last());
    if w.len() == 1 {
        assert(a + w.drop_last() =~= a);
        assert(w =~= seq![c]);
    } else {
        let v = w.drop_last();
        assert forall|i: int| 0 <= i < v.len() implies !is_white(#[trigger] v[i]) by {
            assert(v[i] == w[i]);
        }
        lemma_words_append(a, v);
        assert(!is_white(w[w.len() - 2]));
        assert(s[s.len() - 2] == w[w.len() - 2]);
        let before = words_of(a).push(v);
        assert(before.drop_last() =~= words_of(a));
        assert(v.push(c) =~= w);
    }
}

/// The words of joined words are those words.
proof fn lemma_words_joined(ws: Seq<Seq<char>>)
    requires
        forall|i: int| 0 <= i < ws.len() ==> plain(#[trigger] ws[i]),
    ensures
        words_of(joined(ws, " "@)) == ws,
    decreases ws.len(),
{
    reveal_strlit(" ");
    let all = joined(ws, " "@);
    if ws.len() == 1 {
        assert(plain(ws[0]));
        lemma_words_append(Seq::empty(), ws[0]);
        assert(Seq::<char>::empty() + ws[0] =~= ws[0]);
        assert(words_of(Seq::<char>::empty()).push(ws[0]) =~= ws);
    } else if ws.len() > 1 {
        let part = ws.drop_last();
        assert forall|i: int| 0 <= i < part.len() implies plain(#[trigger] part[i]) by {
            assert(part[i] == ws[i]);
        }
        lemma_words_joined(part);
        let before = joined(part, " "@) + " "@;
        assert(before.last() == ' ');
        assert(before.drop_last() =~= joined(part, " "@));
        assert(words_of(before) == part);
        assert(plain(ws[ws.len() - 1]));
        lemma_words_append(before, ws.last());
        assert(part.push(ws.last()) =~= ws);
    }
}

/// A text that begins with a word begins with its first word.
proof fn lemma_first_word(s: Seq<char>)
    requires
        s.len() > 0,
        !is_white(s[0]),
    ensures
        ({
            let ws = words_of(s);
            &&& ws.len() > 0
            &&& 0 < ws[0].len() <= s.len()
            &&& s.take(ws[0].len() as int) == ws[0]
            &&& ws[0].len() < s.len() ==> is_white(s[ws[0].len() as int])
        }),
    decreases s.len(),
{
    let ws = words_of(s);
    let part = s.drop_last();
    if s.len() == 1 {
        assert(part =~= Seq::<char>::empty());
        assert(s.take(1) =~= ws[0]);
    } else {
        lemma_first_word(part);
        let before = words_of(part);
        let n = before[0].len() as int;
        assert(s.take(n) =~= part.take(n));
        if n < part.len() {
            assert(is_white(s[n]));
            if before.len() == 1 && !is_white(s.last()) && !is_white(s[s.len() - 2]) {
                lemma_one_word(part);
            }
        } else {
            assert(before[0] =~= part);
            lemma_words(part);
            assert(plain(before[0]));
            assert(!is_white(before[0][n - 1]));
            lemma_words_append(Seq::empty(), part);
            assert(Seq::<char>::empty() + part =~= part);
            assert(before =~= seq![part]);
            if !is_white(s.last()) {
                assert(part.push(s.last()) =~= s);
                assert(s.take(s.len() as int) =~= s);
            }
        }
    }
}

/// Where the only word is not the whole text, white space ends the text.
proof fn lemma_one_word(s: Seq<char>)
    requires
        s.len() > 0,
        !is_white(s[0]),
        words_of(s).len() == 1,
        words_of(s)[0].len() < s.len(),
    ensures
        is_white(s.last()),
    decreases s.len(),
{
    if !is_white(s.last()) {
        let part = s.drop_last();
        if s.len() > 1 {
            lemma_first_word(part);
            if is_white(s[s.len() - 2]) {
                assert(words_of(s).len() == words_of(part).len() + 1);
            } else {
                let w = words_of(part)[0];
                assert(words_of(part).len() == 1);
                if w.len() < part.len() {
                    lemma_one_word(part);
                    assert(part.last() == s[s.len() - 2]);
                } else {
                    assert(words_of(s)[0] == w.push(s.last()));
                }
            }
        }
    }
}

// ---------- statements ----------

proof fn lemma_code_lines(ls: Seq<Seq<char>>, c: char)
    ensures
        forall|i: int|
            #![trigger code_lines(ls)[i]]
            0 <= i < code_lines(ls).len() ==> {
                let l = code_lines(ls)[i];
                l.len() > 0 && !has_prefix(l, "--"@) && !is_white(l[0])
            },
        (forall|i: int| 0 <= i < ls.len() ==> !(#[trigger] ls[i]).contains(c)) ==> forall|i: int|
            0 <= i < code_lines(ls).len() ==> !(#[trigger] code_lines(ls)[i]).contains(c),
    decreases ls.len(),
{
    if ls.len() > 0 {
        let part = ls.drop_last();
        lemma_code_lines(part, c);
        lemma_trimmed(ls.last());
        if forall|i: int| 0 <= i < ls.len() ==> !(#[trigger] ls[i]).contains(c) {
            assert forall|i: int| 0 <= i < part.len() implies !(#[trigger] part[i]).contains(c) by {
                assert(part[i] == ls[i]);
            }
            assert(!ls[ls.len() - 1].contains(c));
            let before = code_lines(part);
            assert forall|i: int| 0 <= i < code_lines(ls).len() implies !(#[trigger] code_lines(
                ls,
            )[i]).contains(c) by {
                if i < before.len() {
                    assert(code_lines(ls)[i] == before[i]);
                }
            }
        }
    }
}

/// What is left of SQL begins no comment, and holds no character but a line
/// feed that the SQL does not.
proof fn lemma_uncommented(sql: Seq<char>, c: char)
    requires
        !sql.contains(c),
        c != '\n',
    ensures
        !uncommented(sql).contains(c),
        uncommented(sql).len() > 0 ==> !is_white(uncommented(sql)[0]) && !has_prefix(
            uncommented(sql),
            "--"@,
        ),
{
    reveal_strlit("\n");
    let ls = lines_of(sql);
    let pieces = split_text(sql, '\n');
    lemma_split_free(sql, '\n');
    assert forall|i: int| 0 <= i < ls.len() implies !(#[trigger] ls[i]).contains(c) by {
        assert(!pieces[i].contains(c));
        if ls[i].contains(c) {
            let k = choose|k: int| 0 <= k < ls[i].len() && ls[i][k] == c;
            assert(pieces[i][k] == c);
        }
    }
    lemma_code_lines(ls, c);
    let cl = code_lines(ls);
    assert(!"\n"@.contains(c));
    lemma_joined_free(cl, "\n"@, c);
    if cl.len() > 0 {
        assert(cl[0].len() > 0 && !is_white(cl[0][0]));
        lemma_joined_begins(cl, "\n"@);
        let u = uncommented(sql);
        assert(u.take(cl[0].len() as int)[0] == cl[0][0]);
        lemma_joined_code(cl, "\n"@);
    }
}

/// A cleaned statement is tidy.
proof fn lemma_cleaned(stmt: Seq<char>)
    requires
        !stmt.contains(';'),
        cleaned(stmt).len() > 0,
    ensures
        tidy(cleaned(stmt)),
{
    reveal_strlit(" ");
    let u = uncommented(stmt);
    let ws = words_of(u);
    let t = cleaned(stmt);
    lemma_uncommented(stmt, ';');
    lemma_words(u);
    assert(ws.len() > 0);
    assert(u.len() > 0);
    lemma_first_word(u);
    assert(plain(ws[0]));
    assert(plain(ws[ws.len() - 1]));
    lemma_joined_ends(ws, " "@);
    assert(t.take(ws[0].len() as int)[0] == ws[0][0]);
    assert(!is_white(ws[0][0]));
    let last = ws.last();
    assert(!is_white(last[last.len() - 1]));
    assert(trimmed(t) == t);
    lemma_words_joined(ws);
    assert forall|i: int| 0 <= i < ws.len() implies !(#[trigger] ws[i]).contains(';') by {
        if ws[i].contains(';') {
            assert(u.contains(';'));
        }
    }
    assert(!" "@.contains(';'));
    lemma_joined_free(ws, " "@, ';');
    assert forall|i: int| 0 <= i < ws.len() implies !(#[trigger] ws[i]).contains('\n') by {
        if ws[i].contains('\n') {
            let k = choose|k: int| 0 <= k < ws[i].len() && ws[i][k] == '\n';
            assert(plain(ws[i]));
            assert(!is_white(ws[i][k]));
        }
    }
    assert(!" "@.contains('\n'));
    lemma_joined_free(ws, " "@, '\n');
    assert(!has_prefix(ws[0], "--"@)) by {
        reveal_strlit("--");
        if has_prefix(ws[0], "--"@) {
            assert(u.take(2) =~= ws[0].take(2));
        }
    }
    lemma_joined_code(ws, " "@);
}

proof fn lemma_statements(pieces: Seq<Seq<char>>)
    requires
        forall|i: int| 0 <= i < pieces.len() ==> !(#[trigger] pieces[i]).contains(';'),
    ensures
        forall|i: int| 0 <= i < statements(pieces).len() ==> tidy(#[trigger] statements(pieces)[i]),
    decreases pieces.len(),
{
    if pieces.len() > 0 {
        let part = pieces.drop_last();
        assert forall|i: int| 0 <= i < part.len() implies !(#[trigger] part[i]).contains(';') by {
            assert(part[i] == pieces[i]);
        }
        lemma_statements(part);
        assert(!pieces[pieces.len() - 1].contains(';'));
        if cleaned(pieces.last()).len() > 0 {
            lemma_cleaned(pieces.last());
        }
        let before = statements(part);
        assert forall|i: int| 0 <= i < statements(pieces).len() implies tidy(
            #[trigger] statements(pieces)[i],
        ) by {
            if i < before.len() {
                assert(statements(pieces)[i] == before[i]);
            }
        }
    }
}

/// A text of one line that is no comment is its own code.
proof fn lemma_one_line(x: Seq<char>)
    requires
        x.len() > 0,
        !is_white(x[0]),
        !is_white(x.last()),
        !x.contains('\n'),
        !has_prefix(x, "--"@),
    ensures
        uncommented(x) == x,
{
    assert(split_text(x, '\n') =~= seq![x]);
    assert(lines_of(x) =~= seq![x]);
    assert(trimmed(x) == x);
    assert(seq![x].drop_last() =~= Seq::<Seq<char>>::empty());
    assert(code_lines(seq![x].drop_last()) =~= Seq::<Seq<char>>::empty());
    assert(code_lines(seq![x]) =~= seq![x]);
}

proof fn lemma_tidy_statements(v: Seq<Seq<char>>)
    requires
        forall|i: int| 0 <= i < v.len() ==> tidy(#[trigger] v[i]),
    ensures
        statements(v) == v,
    decreases v.len(),
{
    if v.len() > 0 {
        let part = v.drop_last();
        assert forall|i: int| 0 <= i < part.len() implies tidy(#[trigger] part[i]) by {
            assert(part[i] == v[i]);
        }
        lemma_tidy_statements(part);
        assert(tidy(v[v.len() - 1]));
        lemma_one_line(v.last());
        assert(part.push(v.last()) =~= v);
    }
}

/// Statements come out tidy: each on one line, trimmed, with one blank between
/// words, and free of separators and whole-line comments.
pub proof fn law_statements_are_tidy(sql: Seq<char>)
    ensures
        forall|i: int|
            0 <= i < sql_statements(sql).len() ==> tidy(#[trigger] sql_statements(sql)[i]),
{
    let u = uncommented(sql);
    lemma_split_free(u, ';');
    lemma_statements(split_text(u, ';'));
}

/// Statements joined again with separators split into the same statements.
pub proof fn law_splitting_is_stable(sql: Seq<char>)
    ensures
        sql_statements(joined(sql_statements(sql), ";"@)) == sql_statements(sql),
{
    reveal_strlit(";");
    let v = sql_statements(sql);
    law_statements_are_tidy(sql);
    let x = joined(v, ";"@);
    assert(";"@ =~= seq![';']);
    if v.len() == 0 {
        assert(split_first(x, '\n') is None);
        assert(split_text(x, '\n') =~= seq![x]);
        assert(lines_of(x) =~= Seq::<Seq<char>>::empty());
        assert(uncommented(x) =~= Seq::<char>::empty());
        assert(split_first(x, ';') is None);
        assert(split_text(x, ';') =~= seq![x]);
        assert(words_of(x) =~= Seq::<Seq<char>>::empty());
        assert(cleaned(x) =~= Seq::<char>::empty());
        assert(seq![x].drop_last() =~= Seq::<Seq<char>>::empty());
        assert(statements(seq![x].drop_last()) =~= Seq::<Seq<char>>::empty());
        assert(sql_statements(x) =~= v);
    } else {
        assert(tidy(v[0]));
        assert(tidy(v[v.len() - 1]));
        assert forall|i: int| 0 <= i < v.len() implies !(#[trigger] v[i]).contains('\n') by {
            assert(tidy(v[i]));
        }
        assert forall|i: int| 0 <= i < v.len() implies !(#[trigger] v[i]).contains(';') by {
            assert(tidy(v[i]));
        }
        lemma_joined_free(v, ";"@, '\n');
        lemma_joined_ends(v, ";"@);
        assert(x.take(v[0].len() as int)[0] == v[0][0]);
        lemma_joined_code(v, ";"@);
        lemma_one_line(x);
        lemma_split_joined(v, ';');
        lemma_tidy_statements(v);
    }
}

/// Pieces of SQL are statements one by one, in their order: each is its words
/// with one blank between them, and one without words is none.
pub proof fn law_pieces_are_statements(pieces: Seq<Seq<char>>, piece: Seq<char>)
    ensures
        statements(Seq::empty()).len() == 0,
        cleaned(piece).len() > 0 ==> statements(pieces.push(piece)) == statements(pieces).push(
            cleaned(piece),
        ),
        cleaned(piece).len() == 0 ==> statements(pieces.push(piece)) == statements(pieces),
        cleaned(piece) == joined(words_of(uncommented(piece)), " "@),
{
    assert(pieces.push(piece).drop_last() =~= pieces);
}

/// Lines are kept one by one, trimmed, but for blank ones and those that begin
/// with two dashes.
pub proof fn law_comments_are_dropped(ls: Seq<Seq<char>>, line: Seq<char>)
    ensures
        code_lines(Seq::empty()).len() == 0,
        trimmed(line).len() == 0 ==> code_lines(ls.push(line)) == code_lines(ls),
        trimmed(line).len() > 1 && trimmed(line)[0] == '-' && trimmed(line)[1] == '-' ==> code_lines(
            ls.push(line),
        ) == code_lines(ls),
        trimmed(line).len() > 0 && !(trimmed(line).len() > 1 && trimmed(line)[0] == '-' && trimmed(
            line,
        )[1] == '-') ==> code_lines(ls.push(line)) == code_lines(ls).push(trimmed(line)),
{
    assert(ls.push(line).drop_last() =~= ls);
    reveal_strlit("--");
    let t = trimmed(line);
    if t.len() > 1 {
        assert(t.take(2)[0] == t[0] && t.take(2)[1] == t[1]);
        if t[0] == '-' && t[1] == '-' {
            assert(t.take(2) =~= "--"@);
        }
    }
}

} // verus!
