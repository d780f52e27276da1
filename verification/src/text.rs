//! Text primitives: decimal numbers, prefixes, trimming, splitting.
//!
//! Strings are modelled by their characters (`Seq<char>`), byte strings by
//! `Seq<u8>`.

use vstd::prelude::*;
use vstd::utf8::{decode_utf8, encode_utf8, valid_utf8};

verus! {

broadcast use vstd::string::group_string_axioms;

// ---------- std functions ----------

/// `String::push`: appends one character at the end.
pub assume_specification[ String::push ](s: &mut String, c: char)
    ensures
        final(s)@ == old(s)@.push(c),
;

/// `std::str::from_utf8`, owned: the text that the bytes encode, or nothing
/// where they are not UTF-8.
#[verifier::external_body]
pub(crate) fn utf8_text(bytes: &[u8]) -> (r: Option<String>)
    ensures
        r is Some <==> valid_utf8(bytes@),
        r is Some ==> r->0@ == decode_utf8(bytes@),
{
    std::str::from_utf8(bytes).ok().map(|s| s.to_owned())
}

/// What `str::to_lowercase` makes of a text (the Unicode lowercase mapping).
pub uninterp spec fn lowercase_text(s: Seq<char>) -> Seq<char>;

/// `str::to_lowercase`.
#[verifier::external_body]
pub(crate) fn to_lowercase(s: &str) -> (r: String)
    ensures
        r@ == lowercase_text(s@),
{
    s.to_lowercase()
}

// ---------- characters and strings ----------

/// The characters of a string.
pub(crate) fn chars_of(s: &str) -> (r: Vec<char>)
    ensures
        r@ == s@,
{
    let mut out: Vec<char> = Vec::new();
    for c in it: s.chars()
        invariant
            it.seq() == s@,
            out@ == s@.take(it.index()),
    {
        out.push(c);
        assert(s@.take(it.index() + 1) =~= s@.take(it.index()).push(c));
    }
    assert(s@.take(s@.len() as int) =~= s@);
    out
}

/// The characters `from..to` as a string.
pub(crate) fn text_of(chars: &Vec<char>, from: usize, to: usize) -> (r: String)
    requires
        from <= to <= chars.len(),
    ensures
        r@ == chars@.subrange(from as int, to as int),
{
    let mut out: String = String::new();
    let mut i: usize = from;
    while i < to
        invariant
            from <= i <= to <= chars.len(),
            out@ == chars@.subrange(from as int, i as int),
        decreases to - i,
    {
        out.push(chars[i]);
        assert(chars@.subrange(from as int, i + 1) =~= chars@.subrange(from as int, i as int).push(
            chars@[i as int],
        ));
        i = i + 1;
    }
    out
}

/// Whether two strings hold the same characters.
pub fn str_eq(a: &str, b: &str) -> (r: bool)
    ensures
        r == (a@ == b@),
{
    a.to_owned() == b.to_owned()
}

/// Two strings, one after the other.
pub(crate) fn join2(a: &str, b: &str) -> (r: String)
    ensures
        r@ == a@ + b@,
{
    a.to_owned().concat(b)
}

/// Three strings, one after the other.
pub(crate) fn join3(a: &str, b: &str, c: &str) -> (r: String)
    ensures
        r@ == a@ + b@ + c@,
{
    a.to_owned().concat(b).concat(c)
}

/// Whether `p` is a prefix of `s`.
pub open spec fn has_prefix<T>(s: Seq<T>, p: Seq<T>) -> bool {
    s.len() >= p.len() && s.take(p.len() as int) == p
}

/// What follows the prefix `p`, where `s` begins with it.
pub open spec fn after_prefix<T>(s: Seq<T>, p: Seq<T>) -> Option<Seq<T>> {
    if has_prefix(s, p) {
        Some(s.skip(p.len() as int))
    } else {
        None
    }
}

/// `s` without the prefix `p`, or nothing where it does not begin with it.
pub fn strip_prefix(s: &str, p: &str) -> (r: Option<String>)
    ensures
        r is Some <==> has_prefix(s@, p@),
        r is Some ==> after_prefix(s@, p@) == Some(r->0@),
{
    let cs: Vec<char> = chars_of(s);
    let ps: Vec<char> = chars_of(p);
    if cs.len() < ps.len() {
        return None;
    }
    let mut i: usize = 0;
    while i < ps.len()
        invariant
            cs@ == s@,
            ps@ == p@,
            i <= ps.len() <= cs.len(),
            forall|j: int| 0 <= j < i ==> cs@[j] == ps@[j],
        decreases ps.len() - i,
    {
        if cs[i] != ps[i] {
            assert(s@.take(p@.len() as int)[i as int] != p@[i as int]);
            return None;
        }
        i = i + 1;
    }
    assert(s@.take(p@.len() as int) =~= p@);
    assert(s@.subrange(p@.len() as int, s@.len() as int) =~= s@.skip(p@.len() as int));
    Some(text_of(&cs, ps.len(), cs.len()))
}

/// The texts of a list of strings.
pub open spec fn texts(v: Seq<String>) -> Seq<Seq<char>> {
    v.map_values(|s: String| s@)
}

// ---------- ASCII case ----------

/// An ASCII capital as its small letter; any other character as it is.
pub open spec fn lower_ascii(c: char) -> char {
    if 'A' <= c <= 'Z' {
        ((c as int) + 32) as char
    } else {
        c
    }
}

/// Whether two texts are equal but for the case of ASCII letters.
pub open spec fn same_ignoring_case(a: Seq<char>, b: Seq<char>) -> bool {
    a.len() == b.len() && forall|i: int|
        0 <= i < a.len() ==> lower_ascii(#[trigger] a[i]) == lower_ascii(b[i])
}

/// The value of an ASCII letter without regard to its case.
fn folded(c: char) -> (r: u32)
    ensures
        r == lower_ascii(c) as u32,
{
    if 'A' <= c && c <= 'Z' {
        c as u32 + 32
    } else {
        c as u32
    }
}

/// Whether two texts are equal but for the case of ASCII letters.
pub fn eq_ignore_ascii_case(a: &str, b: &str) -> (r: bool)
    ensures
        r == same_ignoring_case(a@, b@),
{
    let xs: Vec<char> = chars_of(a);
    let ys: Vec<char> = chars_of(b);
    if xs.len() != ys.len() {
        return false;
    }
    let mut i: usize = 0;
    while i < xs.len()
        invariant
            xs@ == a@,
            ys@ == b@,
            i <= xs.len() == ys.len(),
            forall|j: int| 0 <= j < i ==> lower_ascii(#[trigger] a@[j]) == lower_ascii(b@[j]),
        decreases xs.len() - i,
    {
        if folded(xs[i]) != folded(ys[i]) {
            assert(lower_ascii(a@[i as int]) != lower_ascii(b@[i as int]));
            return false;
        }
        i = i + 1;
    }
    true
}

/// Whether `s` ends with `p`.
pub open spec fn has_suffix(s: Seq<char>, p: Seq<char>) -> bool {
    s.len() >= p.len() && s.skip(s.len() - p.len()) == p
}

/// Whether `s` ends with `p`.
pub fn ends_with(s: &str, p: &str) -> (r: bool)
    ensures
        r == has_suffix(s@, p@),
{
    let cs: Vec<char> = chars_of(s);
    let ps: Vec<char> = chars_of(p);
    if cs.len() < ps.len() {
        return false;
    }
    let at: usize = cs.len() - ps.len();
    let tail: String = text_of(&cs, at, cs.len());
    assert(tail@ =~= s@.skip(s@.len() - p@.len()));
    str_eq(tail.as_str(), p)
}

/// Whether `s` begins with `p`.
pub fn starts_with(s: &str, p: &str) -> (r: bool)
    ensures
        r == has_prefix(s@, p@),
{
    strip_prefix(s, p).is_some()
}

/// Without the run of `c` at the end.
pub open spec fn trimmed_end_of(s: Seq<char>, c: char) -> Seq<char>
    decreases s.len(),
{
    if s.len() > 0 && s.last() == c {
        trimmed_end_of(s.drop_last(), c)
    } else {
        s
    }
}

/// `s` without the run of `c` at its end.
pub fn trim_end_of(s: &str, c: char) -> (r: String)
    ensures
        r@ == trimmed_end_of(s@, c),
{
    let cs: Vec<char> = chars_of(s);
    let mut to: usize = cs.len();
    assert(s@.subrange(0, to as int) =~= s@);
    while to > 0 && cs[to - 1] == c
        invariant
            cs@ == s@,
            to <= cs.len(),
            trimmed_end_of(s@, c) == trimmed_end_of(s@.subrange(0, to as int), c),
        decreases to,
    {
        assert(s@.subrange(0, to as int).drop_last() =~= s@.subrange(0, to - 1));
        to = to - 1;
    }
    text_of(&cs, 0, to)
}

// ---------- searching and splitting ----------

/// Whether `i` is the first place in `s` that holds `c`.
pub open spec fn is_first_index(s: Seq<char>, c: char, i: int) -> bool {
    &&& 0 <= i < s.len()
    &&& s[i] == c
    &&& forall|j: int| 0 <= j < i ==> s[j] != c
}

/// The first place in `cs` that holds `c`, at or after `from`.
pub(crate) fn index_from(cs: &Vec<char>, c: char, from: usize) -> (r: Option<usize>)
    requires
        from <= cs.len(),
    ensures
        match r {
            Some(i) => is_first_index(cs@.skip(from as int), c, i - from) && from <= i < cs.len(),
            None => !cs@.skip(from as int).contains(c),
        },
{
    let ghost tail = cs@.skip(from as int);
    let mut i: usize = from;
    while i < cs.len()
        invariant
            from <= i <= cs.len(),
            tail == cs@.skip(from as int),
            forall|j: int| 0 <= j < i - from ==> tail[j] != c,
        decreases cs.len() - i,
    {
        if cs[i] == c {
            assert(tail[i - from] == c);
            return Some(i);
        }
        assert(tail[i - from] != c);
        i = i + 1;
    }
    assert(!tail.contains(c)) by {
        if tail.contains(c) {
            let k = choose|k: int| 0 <= k < tail.len() && tail[k] == c;
            assert(tail[k] != c);
        }
    }
    None
}

/// The text before and after the first `c`.
pub open spec fn split_first(s: Seq<char>, c: char) -> Option<(Seq<char>, Seq<char>)> {
    if s.contains(c) {
        let i = choose|i: int| is_first_index(s, c, i);
        Some((s.take(i), s.skip(i + 1)))
    } else {
        None
    }
}

/// The first place is the only one.
pub proof fn lemma_split_first(s: Seq<char>, c: char, i: int)
    requires
        is_first_index(s, c, i),
    ensures
        split_first(s, c) == Some((s.take(i), s.skip(i + 1))),
{
    let k = choose|k: int| is_first_index(s, c, k);
    assert(s.contains(c));
    assert(is_first_index(s, c, k));
    assert(k == i);
}

/// `s` before and after the first `c`, or nothing where it does not hold it.
pub fn split_once(s: &str, c: char) -> (r: Option<(String, String)>)
    ensures
        match r {
            Some(parts) => split_first(s@, c) == Some((parts.0@, parts.1@)),
            None => split_first(s@, c) is None,
        },
{
    let cs: Vec<char> = chars_of(s);
    assert(cs@.skip(0) =~= s@);
    match index_from(&cs, c, 0) {
        Some(i) => {
            proof {
                lemma_split_first(s@, c, i as int);
                assert(s@.subrange(0, i as int) =~= s@.take(i as int));
                assert(s@.subrange(i + 1, s@.len() as int) =~= s@.skip(i + 1));
            }
            Some((text_of(&cs, 0, i), text_of(&cs, i + 1, cs.len())))
        },
        None => None,
    }
}

/// Whether `s` holds `c`.
pub fn contains_char(s: &str, c: char) -> (r: bool)
    ensures
        r == s@.contains(c),
{
    let cs: Vec<char> = chars_of(s);
    assert(cs@.skip(0) =~= s@);
    let found: Option<usize> = index_from(&cs, c, 0);
    proof {
        if let Some(i) = found {
            assert(s@[i as int] == c);
        }
    }
    found.is_some()
}

/// The pieces of `s` between the separators `c`.
pub open spec fn split_text(s: Seq<char>, c: char) -> Seq<Seq<char>>
    decreases s.len(),
{
    match split_first(s, c) {
        Some((head, tail)) => if tail.len() < s.len() {
            seq![head] + split_text(tail, c)
        } else {
            seq![s]
        },
        None => seq![s],
    }
}

/// The pieces of `s` between the separators `c`.
pub fn split_char(s: &str, c: char) -> (r: Vec<String>)
    ensures
        texts(r@) == split_text(s@, c),
{
    let cs: Vec<char> = chars_of(s);
    let mut out: Vec<String> = Vec::new();
    let mut from: usize = 0;
    assert(s@.skip(0) =~= s@);
    assert(texts(out@) + split_text(s@, c) =~= split_text(s@, c));
    loop
        invariant
            cs@ == s@,
            from <= cs.len(),
            texts(out@) + split_text(s@.skip(from as int), c) == split_text(s@, c),
        decreases cs.len() - from,
    {
        let ghost rest = s@.skip(from as int);
        let ghost before = out@;
        match index_from(&cs, c, from) {
            Some(i) => {
                let piece: String = text_of(&cs, from, i);
                proof {
                    lemma_split_first(rest, c, i - from);
                    assert(rest.take(i - from) =~= piece@);
                    assert(rest.skip(i - from + 1) =~= s@.skip(i + 1));
                }
                out.push(piece);
                proof {
                    assert(texts(out@) =~= texts(before).push(piece@));
                    assert(texts(out@) + split_text(s@.skip(i + 1), c) =~= texts(before)
                        + split_text(rest, c));
                }
                from = i + 1;
            },
            None => {
                let piece: String = text_of(&cs, from, cs.len());
                assert(rest =~= piece@);
                out.push(piece);
                assert(texts(out@) =~= texts(before) + split_text(rest, c));
                return out;
            },
        }
    }
}

/// A line without the carriage return at its end.
pub open spec fn without_cr(s: Seq<char>) -> Seq<char> {
    if s.len() > 0 && s.last() == '\r' {
        s.drop_last()
    } else {
        s
    }
}

/// The lines of a text: its pieces between line feeds, each without a trailing
/// carriage return; an empty last piece is no line.
pub open spec fn lines_of(s: Seq<char>) -> Seq<Seq<char>> {
    let pieces = split_text(s, '\n');
    let kept = if pieces.last().len() == 0 {
        pieces.drop_last()
    } else {
        pieces
    };
    Seq::new(
        kept.len(),
        |i: int|
            if i + 1 < pieces.len() {
                without_cr(kept[i])
            } else {
                kept[i]
            },
    )
}

/// There is always a piece.
pub proof fn lemma_split_nonempty(s: Seq<char>, c: char)
    ensures
        split_text(s, c).len() > 0,
{
}

/// The lines of a text.
pub fn lines(s: &str) -> (r: Vec<String>)
    ensures
        texts(r@) == lines_of(s@),
{
    let pieces: Vec<String> = split_char(s, '\n');
    let ghost all = split_text(s@, '\n');
    proof {
        lemma_split_nonempty(s@, '\n');
        assert(texts(pieces@) == all);
        assert(all.len() == pieces@.len());
    }
    let total: usize = pieces.len();
    let last: &String = &pieces[total - 1];
    let empty_last: bool = chars_of(last.as_str()).len() == 0;
    let keep: usize = if empty_last {
        total - 1
    } else {
        total
    };
    let mut out: Vec<String> = Vec::new();
    let mut i: usize = 0;
    assert(all.last() == pieces@[total - 1]@);
    let ghost want = lines_of(s@);
    assert(want.len() == keep);
    while i < keep
        invariant
            i <= keep <= total,
            total == pieces.len(),
            texts(pieces@) == all,
            all == split_text(s@, '\n'),
            want == lines_of(s@),
            want.len() == keep,
            keep == if all.last().len() == 0 { total - 1 } else { total as int },
            texts(out@) == want.take(i as int),
        decreases keep - i,
    {
        let ghost before = out@;
        let cs: Vec<char> = chars_of(pieces[i].as_str());
        assert(cs@ == all[i as int]);
        let mut end: usize = cs.len();
        if i + 1 < total && end > 0 && cs[end - 1] == '\r' {
            end = end - 1;
        }
        let line: String = text_of(&cs, 0, end);
        proof {
            if end == cs.len() {
                assert(line@ =~= cs@);
            } else {
                assert(line@ =~= cs@.drop_last());
            }
            assert(line@ == want[i as int]);
        }
        out.push(line);
        assert(texts(out@) =~= texts(before).push(line@));
        assert(want.take(i + 1) =~= want.take(i as int).push(want[i as int]));
        i = i + 1;
    }
    assert(want.take(i as int) =~= want);
    out
}

/// Whether `needle` stands in `s` at `i`.
pub open spec fn occurs_at(s: Seq<char>, needle: Seq<char>, i: int) -> bool {
    0 <= i && i + needle.len() <= s.len() && s.subrange(i, i + needle.len()) == needle
}

/// Whether `needle` stands anywhere in `s`.
pub open spec fn contains_text(s: Seq<char>, needle: Seq<char>) -> bool {
    exists|i: int| #[trigger] occurs_at(s, needle, i)
}

/// Whether `needle` stands anywhere in `s`.
pub fn contains_str(s: &str, needle: &str) -> (r: bool)
    ensures
        r == contains_text(s@, needle@),
{
    let cs: Vec<char> = chars_of(s);
    let ns: Vec<char> = chars_of(needle);
    if ns.len() > cs.len() {
        return false;
    }
    let mut i: usize = 0;
    while i <= cs.len() - ns.len()
        invariant
            cs@ == s@,
            ns@ == needle@,
            ns.len() <= cs.len(),
            i <= cs.len() - ns.len() + 1,
            forall|k: int| 0 <= k < i ==> !#[trigger] occurs_at(s@, needle@, k),
        decreases cs.len() - ns.len() + 1 - i,
    {
        let mut j: usize = 0;
        while j < ns.len() && cs[i + j] == ns[j]
            invariant
                cs@ == s@,
                ns@ == needle@,
                i + ns.len() <= cs.len(),
                j <= ns.len(),
                forall|k: int| 0 <= k < j ==> cs@[i + k] == ns@[k],
            decreases ns.len() - j,
        {
            j = j + 1;
        }
        if j == ns.len() {
            assert(s@.subrange(i as int, i + needle@.len()) =~= needle@);
            assert(occurs_at(s@, needle@, i as int));
            return true;
        }
        proof {
            if occurs_at(s@, needle@, i as int) {
                assert(s@.subrange(i as int, i + needle@.len())[j as int] == needle@[j as int]);
            }
        }
        i = i + 1;
    }
    false
}

/// Texts one after the other, with `sep` between them.
pub open spec fn joined(parts: Seq<Seq<char>>, sep: Seq<char>) -> Seq<char>
    decreases parts.len(),
{
    if parts.len() == 0 {
        Seq::empty()
    } else if parts.len() == 1 {
        parts[0]
    } else {
        joined(parts.drop_last(), sep) + sep + parts.last()
    }
}

/// Texts one after the other, with `sep` between them.
pub fn join_with(parts: &Vec<String>, sep: &str) -> (r: String)
    ensures
        r@ == joined(texts(parts@), sep@),
{
    let ghost all = texts(parts@);
    let mut out: String = String::new();
    let mut i: usize = 0;
    assert(all.take(0) =~= Seq::<Seq<char>>::empty());
    while i < parts.len()
        invariant
            i <= parts.len(),
            all == texts(parts@),
            out@ == joined(all.take(i as int), sep@),
        decreases parts.len() - i,
    {
        proof {
            assert(all.take(i + 1).drop_last() =~= all.take(i as int));
        }
        if i == 0 {
            out = parts[i].clone();
        } else {
            out.append(sep);
            out.append(parts[i].as_str());
        }
        i = i + 1;
    }
    assert(all.take(i as int) =~= all);
    out
}

// ---------- white space ----------

/// The characters with the Unicode property `White_Space`.
pub open spec fn is_white(c: char) -> bool {
    let n = c as int;
    ||| 0x9 <= n <= 0xd
    ||| n == 0x20
    ||| n == 0x85
    ||| n == 0xa0
    ||| n == 0x1680
    ||| 0x2000 <= n <= 0x200a
    ||| n == 0x2028
    ||| n == 0x2029
    ||| n == 0x202f
    ||| n == 0x205f
    ||| n == 0x3000
}

fn white(c: char) -> (r: bool)
    ensures
        r == is_white(c),
{
    let n: u32 = c as u32;
    (0x9 <= n && n <= 0xd) || n == 0x20 || n == 0x85 || n == 0xa0 || n == 0x1680 || (0x2000 <= n
        && n <= 0x200a) || n == 0x2028 || n == 0x2029 || n == 0x202f || n == 0x205f || n == 0x3000
}

/// Without the white space at the front.
pub open spec fn trimmed_start(s: Seq<char>) -> Seq<char>
    decreases s.len(),
{
    if s.len() > 0 && is_white(s[0]) {
        trimmed_start(s.skip(1))
    } else {
        s
    }
}

/// Without the white space at the end.
pub open spec fn trimmed_end(s: Seq<char>) -> Seq<char>
    decreases s.len(),
{
    if s.len() > 0 && is_white(s.last()) {
        trimmed_end(s.drop_last())
    } else {
        s
    }
}

/// Without the white space at either end.
pub open spec fn trimmed(s: Seq<char>) -> Seq<char> {
    trimmed_end(trimmed_start(s))
}

/// `s` without the white space at either end.
pub fn trim(s: &str) -> (r: String)
    ensures
        r@ == trimmed(s@),
{
    let cs: Vec<char> = chars_of(s);
    let mut from: usize = 0;
    assert(s@.skip(0) =~= s@);
    while from < cs.len() && white(cs[from])
        invariant
            cs@ == s@,
            from <= cs.len(),
            trimmed_start(s@) == trimmed_start(s@.skip(from as int)),
        decreases cs.len() - from,
    {
        assert(s@.skip(from as int).skip(1) =~= s@.skip(from + 1));
        from = from + 1;
    }
    let ghost kept = s@.skip(from as int);
    assert(trimmed_start(s@) == kept);
    let mut to: usize = cs.len();
    assert(s@.subrange(from as int, to as int) =~= kept);
    while from < to && white(cs[to - 1])
        invariant
            cs@ == s@,
            from <= to <= cs.len(),
            trimmed_end(kept) == trimmed_end(s@.subrange(from as int, to as int)),
        decreases to,
    {
        assert(s@.subrange(from as int, to as int).drop_last() =~= s@.subrange(
            from as int,
            to - 1,
        ));
        to = to - 1;
    }
    text_of(&cs, from, to)
}

/// The words of a text: its longest runs without white space.
pub open spec fn words_of(s: Seq<char>) -> Seq<Seq<char>>
    decreases s.len(),
{
    if s.len() == 0 {
        Seq::empty()
    } else {
        let before = words_of(s.drop_last());
        if is_white(s.last()) {
            before
        } else if s.len() > 1 && !is_white(s[s.len() - 2]) {
            before.drop_last().push(before.last().push(s.last()))
        } else {
            before.push(seq![s.last()])
        }
    }
}

/// The words of a text.
pub fn words(s: &str) -> (r: Vec<String>)
    ensures
        texts(r@) == words_of(s@),
{
    let cs: Vec<char> = chars_of(s);
    let mut out: Vec<String> = Vec::new();
    let mut from: usize = 0;
    let mut open: bool = false;
    let mut i: usize = 0;
    assert(texts(out@) =~= words_of(s@.take(0)));
    while i < cs.len()
        invariant
            cs@ == s@,
            from <= i <= cs.len(),
            open == (i > 0 && !is_white(s@[i - 1])),
            open ==> from < i,
            words_of(s@.take(i as int)) == if open {
                texts(out@).push(s@.subrange(from as int, i as int))
            } else {
                texts(out@)
            },
        decreases cs.len() - i,
    {
        let ghost before = out@;
        proof {
            assert(s@.take(i + 1).drop_last() =~= s@.take(i as int));
        }
        if white(cs[i]) {
            if open {
                let word: String = text_of(&cs, from, i);
                out.push(word);
                assert(texts(out@) =~= texts(before).push(word@));
                open = false;
            }
        } else if open {
            proof {
                let so_far = texts(before).push(s@.subrange(from as int, i as int));
                assert(so_far.drop_last() =~= texts(before));
                assert(s@.subrange(from as int, i + 1) =~= s@.subrange(from as int, i as int).push(
                    s@[i as int],
                ));
            }
        } else {
            from = i;
            open = true;
            assert(s@.subrange(from as int, i + 1) =~= seq![s@[i as int]]);
        }
        i = i + 1;
    }
    assert(s@.take(i as int) =~= s@);
    if open {
        let ghost before = out@;
        let word: String = text_of(&cs, from, i);
        out.push(word);
        assert(texts(out@) =~= texts(before).push(word@));
    }
    out
}

// ---------- bytes ----------

/// A copy of a byte slice.
pub(crate) fn copy_bytes(b: &[u8]) -> (r: Vec<u8>)
    ensures
        r@ == b@,
{
    let mut out: Vec<u8> = Vec::new();
    let mut i: usize = 0;
    while i < b.len()
        invariant
            i <= b.len(),
            out@ == b@.take(i as int),
        decreases b.len() - i,
    {
        out.push(b[i]);
        assert(b@.take(i + 1) =~= b@.take(i as int).push(b@[i as int]));
        i = i + 1;
    }
    assert(b@.take(b@.len() as int) =~= b@);
    out
}

/// Whether two byte strings are equal.
pub(crate) fn bytes_eq(a: &[u8], b: &[u8]) -> (r: bool)
    ensures
        r == (a@ == b@),
{
    if a.len() != b.len() {
        return false;
    }
    let mut i: usize = 0;
    while i < a.len()
        invariant
            i <= a.len() == b.len(),
            forall|j: int| 0 <= j < i ==> a@[j] == b@[j],
        decreases a.len() - i,
    {
        if a[i] != b[i] {
            return false;
        }
        i = i + 1;
    }
    assert(a@ =~= b@);
    true
}

/// `b` without the prefix `p`, or nothing where it does not begin with it.
pub(crate) fn strip_bytes(b: &[u8], p: &[u8]) -> (r: Option<Vec<u8>>)
    ensures
        r is Some <==> has_prefix(b@, p@),
        r is Some ==> after_prefix(b@, p@) == Some(r->0@),
{
    if b.len() < p.len() {
        return None;
    }
    let mut i: usize = 0;
    while i < p.len()
        invariant
            i <= p.len() <= b.len(),
            forall|j: int| 0 <= j < i ==> b@[j] == p@[j],
        decreases p.len() - i,
    {
        if b[i] != p[i] {
            assert(b@.take(p@.len() as int)[i as int] != p@[i as int]);
            return None;
        }
        i = i + 1;
    }
    assert(b@.take(p@.len() as int) =~= p@);
    let mut out: Vec<u8> = Vec::new();
    while i < b.len()
        invariant
            p.len() <= i <= b.len(),
            out@ == b@.subrange(p@.len() as int, i as int),
        decreases b.len() - i,
    {
        out.push(b[i]);
        assert(b@.subrange(p@.len() as int, i + 1) =~= b@.subrange(p@.len() as int, i as int).push(
            b@[i as int],
        ));
        i = i + 1;
    }
    assert(out@ =~= b@.skip(p@.len() as int));
    Some(out)
}

/// UTF-8 of a concatenation is the concatenation of the UTF-8.
pub proof fn lemma_encode_concat(a: Seq<char>, b: Seq<char>)
    ensures
        encode_utf8(a + b) == encode_utf8(a) + encode_utf8(b),
    decreases a.len(),
{
    if a.len() == 0 {
        assert(a + b =~= b);
        assert(encode_utf8(a) =~= Seq::<u8>::empty());
        assert(encode_utf8(a) + encode_utf8(b) =~= encode_utf8(b));
    } else {
        lemma_encode_concat(a.drop_first(), b);
        assert((a + b).drop_first() =~= a.drop_first() + b);
        assert((a + b)[0] == a[0]);
        assert(encode_utf8(a + b) =~= encode_utf8(a) + encode_utf8(b));
    }
}

// ---------- decimal numbers ----------

pub open spec fn digit_char(d: int) -> char {
    (('0' as int) + d) as char
}

pub open spec fn is_digit(c: char) -> bool {
    '0' <= c <= '9'
}

/// The decimal notation of a natural number.
pub open spec fn decimal(n: nat) -> Seq<char>
    decreases n,
{
    if n < 10 {
        seq![digit_char(n as int)]
    } else {
        decimal(n / 10).push(digit_char((n % 10) as int))
    }
}

/// The decimal notation of an integer: a minus sign where it is negative.
pub open spec fn decimal_int(i: int) -> Seq<char> {
    if i < 0 {
        seq!['-'] + decimal((-i) as nat)
    } else {
        decimal(i as nat)
    }
}

/// Whether `s` is a non-empty run of decimal digits.
pub open spec fn all_digits(s: Seq<char>) -> bool {
    s.len() > 0 && forall|i: int| 0 <= i < s.len() ==> is_digit(#[trigger] s[i])
}

/// The number that a run of digits denotes.
pub open spec fn digits_value(s: Seq<char>) -> nat
    decreases s.len(),
{
    if s.len() == 0 {
        0
    } else {
        digits_value(s.drop_last()) * 10 + ((s.last() as int) - ('0' as int)) as nat
    }
}

/// The integer that a text denotes: an optional sign, then decimal digits.
pub open spec fn integer_value(s: Seq<char>) -> Option<int> {
    if s.len() > 0 && s[0] == '-' && all_digits(s.skip(1)) {
        Some(-(digits_value(s.skip(1)) as int))
    } else if s.len() > 0 && s[0] == '+' && all_digits(s.skip(1)) {
        Some(digits_value(s.skip(1)) as int)
    } else if all_digits(s) {
        Some(digits_value(s) as int)
    } else {
        None
    }
}

/// The `i64` that a text denotes, where it denotes an integer in range.
pub open spec fn parsed_i64(s: Seq<char>) -> Option<i64> {
    match integer_value(s) {
        Some(v) => if i64::MIN <= v <= i64::MAX {
            Some(v as i64)
        } else {
            None
        },
        None => None,
    }
}

proof fn lemma_decimal_digits(n: nat)
    ensures
        all_digits(decimal(n)),
        digits_value(decimal(n)) == n,
    decreases n,
{
    reveal_with_fuel(digits_value, 2);
    if n < 10 {
        assert(decimal(n).drop_last() =~= Seq::<char>::empty());
    } else {
        lemma_decimal_digits(n / 10);
        assert(decimal(n).drop_last() =~= decimal(n / 10));
    }
}

/// Reading the decimal notation of a number gives the number back.
pub proof fn lemma_parse_of_decimal(v: i64)
    ensures
        parsed_i64(decimal_int(v as int)) == Some(v),
{
    if v < 0 {
        lemma_decimal_digits((-v) as nat);
        assert(decimal_int(v as int).skip(1) =~= decimal((-v) as nat));
    } else {
        lemma_decimal_digits(v as nat);
        let s = decimal_int(v as int);
        assert(is_digit(s[0]));
    }
}

pub open spec fn pow10(k: nat) -> nat
    decreases k,
{
    if k == 0 {
        1
    } else {
        10 * pow10((k - 1) as nat)
    }
}

proof fn lemma_decimal_len(n: nat, k: nat)
    requires
        n < pow10(k),
        k > 0,
    ensures
        decimal(n).len() <= k,
        vstd::utf8::is_ascii_chars(decimal(n)),
    decreases k,
{
    reveal_with_fuel(pow10, 2);
    if n >= 10 {
        lemma_decimal_len(n / 10, (k - 1) as nat);
    }
}

/// The decimal notation of an `i64` has at most 20 characters, all ASCII.
pub proof fn lemma_decimal_int_len(v: i64)
    ensures
        decimal_int(v as int).len() <= 20,
        vstd::utf8::is_ascii_chars(decimal_int(v as int)),
{
    reveal_with_fuel(pow10, 20);
    let n: nat = if v < 0 {
        (-v) as nat
    } else {
        v as nat
    };
    assert(pow10(19) == 10000000000000000000);
    lemma_decimal_len(n, 19);
}

fn digit_of(d: u64) -> (c: char)
    requires
        d < 10,
    ensures
        c == digit_char(d as int),
{
    if d == 0 {
        '0'
    } else if d == 1 {
        '1'
    } else if d == 2 {
        '2'
    } else if d == 3 {
        '3'
    } else if d == 4 {
        '4'
    } else if d == 5 {
        '5'
    } else if d == 6 {
        '6'
    } else if d == 7 {
        '7'
    } else if d == 8 {
        '8'
    } else {
        '9'
    }
}

/// The decimal notation of `v`.
pub fn format_u64(v: u64) -> (r: String)
    ensures
        r@ == decimal(v as nat),
    decreases v,
{
    let mut out: String = if v < 10 {
        String::new()
    } else {
        format_u64(v / 10)
    };
    out.push(digit_of(v % 10));
    assert(Seq::<char>::empty().push(digit_char((v % 10) as int)) =~= seq![
        digit_char((v % 10) as int),
    ]);
    out
}

/// The decimal notation of `v`.
pub fn format_i64(v: i64) -> (r: String)
    ensures
        r@ == decimal_int(v as int),
{
    if v >= 0 {
        format_u64(v as u64)
    } else {
        let magnitude: u64 = if v == i64::MIN {
            9223372036854775808
        } else {
            (-v) as u64
        };
        let body: String = format_u64(magnitude);
        let mut out: String = String::new();
        out.push('-');
        assert(Seq::<char>::empty().push('-') =~= seq!['-']);
        out.append(body.as_str());
        out
    }
}

/// The `i64` written in `s`: an optional sign and decimal digits.
pub fn parse_i64(s: &str) -> (r: Option<i64>)
    ensures
        r == parsed_i64(s@),
{
    let cs: Vec<char> = chars_of(s);
    if cs.len() == 0 {
        return None;
    }
    let negative: bool = cs[0] == '-';
    let start: usize = if cs[0] == '-' || cs[0] == '+' {
        1
    } else {
        0
    };
    let ghost body = s@.skip(start as int);
    if start >= cs.len() {
        assert(!is_digit(s@[0]));
        return None;
    }
    let mut i: usize = start;
    let mut value: i128 = 0;
    let mut too_large: bool = false;
    while i < cs.len()
        invariant
            cs@ == s@,
            body == s@.skip(start as int),
            start <= i <= cs.len(),
            start < cs.len(),
            start == 1 <==> (s@[0] == '-' || s@[0] == '+'),
            start <= 1,
            forall|j: int| 0 <= j < i - start ==> is_digit(#[trigger] body[j]),
            !too_large ==> value == digits_value(body.take(i - start)),
            !too_large ==> 0 <= value <= 9223372036854775808,
            too_large ==> digits_value(body.take(i - start)) > 9223372036854775808,
        decreases cs.len() - i,
    {
        let c: char = cs[i];
        assert(body[i - start] == c);
        let ghost done = body.take(i - start);
        let ghost next = body.take(i + 1 - start);
        if !('0' <= c && c <= '9') {
            assert(!is_digit(body[i - start]));
            assert(!all_digits(body));
            if start == 0 {
                assert(body =~= s@);
            } else {
                assert(!is_digit(s@[0]));
                assert(!all_digits(s@));
            }
            return None;
        }
        proof {
            assert(next.drop_last() =~= done);
            assert(next.last() == c);
            assert(digits_value(next) == digits_value(done) * 10 + ((c as int) - ('0' as int)));
        }
        if !too_large {
            let d: i128 = (c as u32 - '0' as u32) as i128;
            let grown: i128 = value * 10 + d;
            if grown > 9223372036854775808 {
                too_large = true;
            } else {
                value = grown;
            }
        }
        i = i + 1;
    }
    assert(body.take(i - start) =~= body);
    assert(all_digits(body)) by {
        assert forall|j: int| 0 <= j < body.len() implies is_digit(#[trigger] body[j]) by {}
    }
    if start == 0 {
        assert(body =~= s@);
        assert(is_digit(body[0]));
    }
    if too_large {
        return None;
    }
    if negative {
        if value == 9223372036854775808 {
            Some(i64::MIN)
        } else {
            Some(-(value as i64))
        }
    } else if value == 9223372036854775808 {
        None
    } else {
        Some(value as i64)
    }
}

} // verus!
