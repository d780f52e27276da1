//! What the text functions give, in terms of what goes in.

use vstd::prelude::*;

use crate::text::{
    decimal, digits_value, is_digit, is_first_index, is_white, joined, lemma_split_first, lines_of,
    lower_ascii, parsed_i64, same_ignoring_case, split_first, split_text, trimmed, trimmed_end,
    trimmed_end_of, trimmed_start, without_cr, words_of,
};

verus! {

/// Whether every character is white space.
pub open spec fn all_white(s: Seq<char>) -> bool {
    forall|i: int| 0 <= i < s.len() ==> is_white(#[trigger] s[i])
}

proof fn lemma_trimmed_start(s: Seq<char>) -> (head: Seq<char>)
    ensures
        s == head + trimmed_start(s),
        all_white(head),
        trimmed_start(s).len() > 0 ==> !is_white(trimmed_start(s)[0]),
    decreases s.len(),
{
    if s.len() > 0 && is_white(s[0]) {
        let rest = lemma_trimmed_start(s.skip(1));
        let head = seq![s[0]] + rest;
        assert(s =~= head + trimmed_start(s)) by {
            assert(s =~= seq![s[0]] + s.skip(1));
        }
        assert forall|i: int| 0 <= i < head.len() implies is_white(#[trigger] head[i]) by {
            if i > 0 {
                assert(head[i] == rest[i - 1]);
            }
        }
        head
    } else {
        assert(s =~= Seq::empty() + s);
        Seq::empty()
    }
}

proof fn lemma_trimmed_end(s: Seq<char>) -> (tail: Seq<char>)
    ensures
        s == trimmed_end(s) + tail,
        all_white(tail),
        trimmed_end(s).len() > 0 ==> !is_white(trimmed_end(s).last()),
    decreases s.len(),
{
    if s.len() > 0 && is_white(s.last()) {
        let rest = lemma_trimmed_end(s.drop_last());
        let tail = rest.push(s.last());
        assert(s =~= trimmed_end(s) + tail) by {
            assert(s =~= s.drop_last().push(s.last()));
        }
        tail
    } else {
        assert(s =~= s + Seq::empty());
        Seq::empty()
    }
}

/// A text is white space, its trimmed text, and white space; the trimmed text
/// neither begins nor ends with any.
pub proof fn law_trimmed(s: Seq<char>)
    ensures
        exists|head: Seq<char>, tail: Seq<char>|
            #![trigger all_white(head), all_white(tail)]
            all_white(head) && all_white(tail) && s == head + trimmed(s) + tail,
        trimmed(s).len() > 0 ==> !is_white(trimmed(s)[0]) && !is_white(trimmed(s).last()),
{
    let head = lemma_trimmed_start(s);
    let t = trimmed_start(s);
    let tail = lemma_trimmed_end(t);
    assert(trimmed(s) == trimmed_end(t));
    assert(s =~= head + trimmed(s) + tail);
    if trimmed(s).len() > 0 {
        assert(trimmed(s)[0] == t[0]);
    }
    assert(all_white(head) && all_white(tail));
}

/// What neither begins nor ends with white space is its own trimmed text.
pub proof fn law_trimmed_is_stable(s: Seq<char>)
    requires
        s.len() > 0 ==> !is_white(s[0]) && !is_white(s.last()),
    ensures
        trimmed(s) == s,
{
}

/// Without the run of a character at its end a text does not end in it, and
/// the rest is that character alone.
pub proof fn law_trimmed_end_of(s: Seq<char>, c: char)
    ensures
        ({
            let t = trimmed_end_of(s, c);
            &&& t.len() <= s.len()
            &&& t == s.take(t.len() as int)
            &&& t.len() > 0 ==> t.last() != c
            &&& forall|i: int| t.len() <= i < s.len() ==> #[trigger] s[i] == c
        }),
    decreases s.len(),
{
    let t = trimmed_end_of(s, c);
    if s.len() > 0 && s.last() == c {
        law_trimmed_end_of(s.drop_last(), c);
        assert(s.drop_last().take(t.len() as int) =~= s.take(t.len() as int));
        assert forall|i: int| t.len() <= i < s.len() implies #[trigger] s[i] == c by {
            if i < s.len() - 1 {
                assert(s[i] == s.drop_last()[i]);
            }
        }
    } else {
        assert(s.take(s.len() as int) =~= s);
    }
}

proof fn lemma_has_first(s: Seq<char>, c: char) -> (i: int)
    requires
        s.contains(c),
    ensures
        is_first_index(s, c, i),
    decreases s.len(),
{
    if s[0] == c {
        0
    } else {
        let k = choose|k: int| 0 <= k < s.len() && s[k] == c;
        assert(s.skip(1)[k - 1] == c);
        let j = lemma_has_first(s.skip(1), c);
        assert forall|m: int| 0 <= m < j + 1 implies s[m] != c by {
            if m > 0 {
                assert(s[m] == s.skip(1)[m - 1]);
            }
        }
        j + 1
    }
}

/// A text splits at the first separator: what comes before it holds none, and
/// both sides with the separator between them are the text. It does not split
/// where it holds none.
pub proof fn law_split_first(s: Seq<char>, c: char)
    ensures
        split_first(s, c) is Some <==> s.contains(c),
        split_first(s, c) matches Some((head, tail)) ==> !head.contains(c) && s == head + seq![c]
            + tail,
{
    if s.contains(c) {
        let i = lemma_has_first(s, c);
        lemma_split_first(s, c, i);
        let head = s.take(i);
        assert(!head.contains(c)) by {
            if head.contains(c) {
                let k = choose|k: int| 0 <= k < head.len() && head[k] == c;
                assert(s[k] == c);
            }
        }
        assert(s =~= head + seq![c] + s.skip(i + 1));
    }
}

/// The pieces of a text hold no separator, and joined by it they are the text
/// again.
pub proof fn law_split_text(s: Seq<char>, c: char)
    ensures
        split_text(s, c).len() > 0,
        joined(split_text(s, c), seq![c]) == s,
        forall|i: int| 0 <= i < split_text(s, c).len() ==> !(#[trigger] split_text(s, c)[i]).contains(
            c,
        ),
    decreases s.len(),
{
    law_split_first(s, c);
    let pieces = split_text(s, c);
    match split_first(s, c) {
        Some((head, tail)) => {
            assert(tail.len() < s.len());
            law_split_text(tail, c);
            let rest = split_text(tail, c);
            assert(pieces == seq![head] + rest);
            lemma_joined_front(head, rest, seq![c]);
            assert(joined(pieces, seq![c]) =~= head + seq![c] + tail);
            assert forall|i: int| 0 <= i < pieces.len() implies !(#[trigger] pieces[i]).contains(
                c,
            ) by {
                if i > 0 {
                    assert(pieces[i] == rest[i - 1]);
                }
            }
        },
        None => {
            reveal_with_fuel(joined, 2);
            assert(pieces =~= seq![s]);
            assert(joined(pieces, seq![c]) =~= s);
        },
    }
}

proof fn lemma_joined_front(head: Seq<char>, rest: Seq<Seq<char>>, sep: Seq<char>)
    requires
        rest.len() > 0,
    ensures
        joined(seq![head] + rest, sep) == head + sep + joined(rest, sep),
    decreases rest.len(),
{
    let all = seq![head] + rest;
    if rest.len() == 1 {
        reveal_with_fuel(joined, 3);
        assert(all.drop_last() =~= seq![head]);
        assert(all.last() == rest.last());
        assert(rest.drop_last() =~= Seq::empty());
        assert(joined(seq![head], sep) =~= head);
        assert(joined(rest, sep) =~= rest.last());
    } else {
        assert(all.drop_last() =~= seq![head] + rest.drop_last());
        assert(all.last() == rest.last());
        lemma_joined_front(head, rest.drop_last(), sep);
        assert(joined(all, sep) =~= head + sep + joined(rest, sep));
    }
}

/// A number in decimal is digits alone, they stand for the number, and the
/// first of several is no zero.
pub proof fn law_decimal(n: nat)
    ensures
        decimal(n).len() > 0,
        forall|i: int| 0 <= i < decimal(n).len() ==> '0' <= #[trigger] decimal(n)[i] <= '9',
        digits_value(decimal(n)) == n,
        decimal(n).len() > 1 ==> decimal(n)[0] != '0',
    decreases n,
{
    let d = decimal(n);
    if n < 10 {
        reveal_with_fuel(digits_value, 2);
        assert(d.drop_last() =~= Seq::empty());
    } else {
        let head = decimal(n / 10);
        law_decimal(n / 10);
        assert(d.drop_last() =~= head);
        assert(d[0] == head[0]);
        if head.len() == 1 {
            reveal_with_fuel(digits_value, 2);
            assert(head.drop_last() =~= Seq::empty());
        }
    }
}

/// White space is what Unicode calls so: the five ASCII controls from tab to
/// carriage return, the blank, the next-line control, and the other blanks and
/// separators.
pub proof fn law_white_space(c: char)
    ensures
        is_white(c) <==> {
            ||| '\t' <= c <= '\r'
            ||| c == ' '
            ||| c == '\u{85}'
            ||| c == '\u{a0}'
            ||| c == '\u{1680}'
            ||| '\u{2000}' <= c <= '\u{200a}'
            ||| c == '\u{2028}'
            ||| c == '\u{2029}'
            ||| c == '\u{202f}'
            ||| c == '\u{205f}'
            ||| c == '\u{3000}'
        },
{
}

/// A text without white space is one word, and white space parts words: those
/// before it and those behind it are the words of the whole.
pub proof fn law_words(s: Seq<char>, a: Seq<char>, w: char, b: Seq<char>)
    requires
        is_white(w),
    ensures
        words_of(Seq::empty()).len() == 0,
        s.len() > 0 && (forall|i: int| 0 <= i < s.len() ==> !is_white(#[trigger] s[i])) ==> words_of(
            s,
        ) == seq![s],
        words_of(a.push(w) + b) == words_of(a) + words_of(b),
{
    lemma_one_word(s);
    lemma_words_part(a, w, b);
}

proof fn lemma_one_word(s: Seq<char>)
    ensures
        s.len() > 0 && (forall|i: int| 0 <= i < s.len() ==> !is_white(#[trigger] s[i])) ==> words_of(
            s,
        ) == seq![s],
    decreases s.len(),
{
    if s.len() > 0 && (forall|i: int| 0 <= i < s.len() ==> !is_white(#[trigger] s[i])) {
        let part = s.drop_last();
        assert forall|i: int| 0 <= i < part.len() implies !is_white(#[trigger] part[i]) by {
            assert(part[i] == s[i]);
        }
        lemma_one_word(part);
        assert(!is_white(s[s.len() - 1]));
        if s.len() > 1 {
            assert(!is_white(s[s.len() - 2]));
            assert(seq![part].drop_last().push(part.push(s.last())) =~= seq![s]) by {
                assert(part.push(s.last()) =~= s);
            }
        } else {
            assert(words_of(part) =~= Seq::empty());
            assert(words_of(s) =~= seq![s]) by {
                assert(seq![s.last()] =~= s);
            }
        }
    }
}

proof fn lemma_words_nonempty(s: Seq<char>)
    requires
        s.len() > 0,
        !is_white(s.last()),
    ensures
        words_of(s).len() > 0,
{
}

proof fn lemma_words_part(a: Seq<char>, w: char, b: Seq<char>)
    requires
        is_white(w),
    ensures
        words_of(a.push(w) + b) == words_of(a) + words_of(b),
    decreases b.len(),
{
    let all = a.push(w) + b;
    if b.len() == 0 {
        assert(all =~= a.push(w));
        assert(all.drop_last() =~= a);
        assert(words_of(a) + words_of(b) =~= words_of(a));
    } else {
        let part = b.drop_last();
        lemma_words_part(a, w, part);
        assert(all.drop_last() =~= a.push(w) + part);
        assert(all.last() == b.last());
        let left = words_of(a);
        let right = words_of(part);
        if is_white(b.last()) {
        } else if b.len() > 1 && !is_white(b[b.len() - 2]) {
            assert(all[all.len() - 2] == b[b.len() - 2]);
            assert(part.last() == b[b.len() - 2]);
            lemma_words_nonempty(part);
            assert((left + right).last() == right.last());
            assert((left + right).drop_last().push(right.last().push(b.last())) =~= left
                + right.drop_last().push(right.last().push(b.last())));
        } else {
            if b.len() == 1 {
                assert(all[all.len() - 2] == w);
            } else {
                assert(all[all.len() - 2] == b[b.len() - 2]);
            }
            assert((left + right).push(seq![b.last()]) =~= left + right.push(seq![b.last()]));
        }
    }
}

/// A text is read as the number that its digits stand for, less than zero
/// behind a minus sign, where that number is in range. Nothing else is a
/// number.
pub proof fn law_parsed_number(n: nat, s: Seq<char>)
    ensures
        n <= i64::MAX ==> parsed_i64(decimal(n)) == Some(n as i64),
        n <= i64::MAX ==> parsed_i64(seq!['+'] + decimal(n)) == Some(n as i64),
        n <= i64::MAX + 1 ==> parsed_i64(seq!['-'] + decimal(n)) == Some((-n) as i64),
        n > i64::MAX ==> parsed_i64(decimal(n)) is None && parsed_i64(seq!['+'] + decimal(n)) is None,
        n > i64::MAX + 1 ==> parsed_i64(seq!['-'] + decimal(n)) is None,
        parsed_i64(s) is Some ==> s.len() > 0 && '0' <= s.last() <= '9' && (s[0] == '+' || s[0]
            == '-' || '0' <= s[0] <= '9') && forall|i: int|
            1 <= i < s.len() ==> '0' <= #[trigger] s[i] <= '9',
{
    law_decimal(n);
    let d = decimal(n);
    assert forall|i: int| 0 <= i < d.len() implies is_digit(#[trigger] d[i]) by {}
    assert((seq!['+'] + d).skip(1) =~= d);
    assert((seq!['-'] + d).skip(1) =~= d);
    if parsed_i64(s) is Some {
        let rest = s.skip(1);
        assert forall|i: int| 1 <= i < s.len() implies '0' <= #[trigger] s[i] <= '9' by {
            assert(rest[i - 1] == s[i]);
            assert(is_digit(s[i]) || is_digit(rest[i - 1]));
        }
        if !is_digit(s[0]) {
            assert(rest.len() > 0);
        }
        assert(is_digit(s[0]) || s.len() > 1);
    }
}

/// Two texts are equal but for their case where each two characters are the
/// same or an ASCII letter in its two forms.
pub proof fn law_same_ignoring_case(a: Seq<char>, b: Seq<char>)
    ensures
        same_ignoring_case(a, b) <==> a.len() == b.len() && forall|i: int|
            0 <= i < a.len() ==> {
                ||| #[trigger] a[i] == b[i]
                ||| 'A' <= a[i] <= 'Z' && b[i] as int == a[i] as int + 32
                ||| 'A' <= b[i] <= 'Z' && a[i] as int == b[i] as int + 32
            },
{
    assert forall|i: int| 0 <= i < a.len() && i < b.len() implies ((lower_ascii(#[trigger] a[i])
        == lower_ascii(b[i])) <==> {
        ||| a[i] == b[i]
        ||| 'A' <= a[i] <= 'Z' && b[i] as int == a[i] as int + 32
        ||| 'A' <= b[i] <= 'Z' && a[i] as int == b[i] as int + 32
    }) by {}
}

/// A line ends before its line feed, or before the carriage return in front of
/// it, and the lines behind it follow. What no line feed ends is a line unless
/// it is empty.
pub proof fn law_lines(line: Seq<char>, rest: Seq<char>)
    requires
        !line.contains('\n'),
    ensures
        lines_of(Seq::empty()).len() == 0,
        line.len() > 0 ==> lines_of(line) == seq![line],
        line.len() == 0 || line.last() != '\r' ==> lines_of(line.push('\n') + rest) == seq![line]
            + lines_of(rest),
        lines_of(line.push('\r').push('\n') + rest) == seq![line] + lines_of(rest),
{
    let none = Seq::<char>::empty();
    law_split_first(none, '\n');
    assert(split_text(none, '\n') =~= seq![none]);
    assert(lines_of(none) =~= Seq::empty());
    law_split_first(line, '\n');
    if line.len() > 0 {
        assert(split_text(line, '\n') =~= seq![line]);
        assert(lines_of(line) =~= seq![line]);
    }
    lemma_first_line(line, rest);
    let long = line.push('\r');
    assert(!long.contains('\n')) by {
        if long.contains('\n') {
            let k = choose|k: int| 0 <= k < long.len() && long[k] == '\n';
            assert(line[k] == '\n');
        }
    }
    lemma_first_line(long, rest);
    assert(long.drop_last() =~= line);
}

proof fn lemma_first_line(line: Seq<char>, rest: Seq<char>)
    requires
        !line.contains('\n'),
    ensures
        lines_of(line.push('\n') + rest) == seq![without_cr(line)] + lines_of(rest),
{
    let s = line.push('\n') + rest;
    let i = line.len() as int;
    assert forall|j: int| 0 <= j < i implies s[j] != '\n' by {
        assert(s[j] == line[j]);
        assert(line.contains(line[j]));
    }
    assert(is_first_index(s, '\n', i));
    lemma_split_first(s, '\n', i);
    assert(s.take(i) =~= line);
    assert(s.skip(i + 1) =~= rest);
    law_split_text(rest, '\n');
    let behind = split_text(rest, '\n');
    let pieces = split_text(s, '\n');
    assert(pieces == seq![line] + behind);
    assert(pieces.last() == behind.last());
    let all = lines_of(s);
    let tail = lines_of(rest);
    assert(all.len() == tail.len() + 1);
    assert forall|k: int| 0 <= k < all.len() implies all[k] == (seq![without_cr(line)] + tail)[k] by {
        if k > 0 {
            assert(pieces[k] == behind[k - 1]);
        }
    }
    assert(all =~= seq![without_cr(line)] + tail);
}

} // verus!
