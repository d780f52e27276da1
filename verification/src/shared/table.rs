//! Rows by key, and rows in order.

use vstd::prelude::*;

use crate::text::chars_of;

verus! {

/// A row that has a key.
pub trait Row: Sized + View {
    /// What a row is found by.
    type Key;

    /// What spells a key.
    type Probe;

    spec fn key(&self) -> Self::Key;

    spec fn wanted(probe: &Self::Probe) -> Self::Key;

    fn has_key(&self, probe: &Self::Probe) -> (r: bool)
        ensures
            r == (self.key() == Self::wanted(probe)),
    ;

    fn same_key(&self, other: &Self) -> (r: bool)
        ensures
            r == (self.key() == other.key()),
    ;

    fn copied(&self) -> (r: Self)
        ensures
            r == *self,
    ;
}

/// Whether no key occurs twice.
pub open spec fn distinct<T: Row>(rows: Seq<T>) -> bool {
    forall|i: int, j: int|
        0 <= i < j < rows.len() ==> (#[trigger] rows[i]).key() != (#[trigger] rows[j]).key()
}

/// Whether the row at `i` has the key `k`.
pub open spec fn row_at<T: Row>(rows: Seq<T>, k: T::Key, i: int) -> bool {
    0 <= i < rows.len() && rows[i].key() == k
}

/// The rows by key.
pub open spec fn as_map<T: Row>(rows: Seq<T>) -> Map<T::Key, T::V> {
    Map::new(
        |k: T::Key| exists|i: int| row_at(rows, k, i),
        |k: T::Key| rows[choose|i: int| row_at(rows, k, i)]@,
    )
}

/// Every row is found under its key.
pub proof fn lemma_row<T: Row>(rows: Seq<T>, i: int)
    requires
        distinct(rows),
        0 <= i < rows.len(),
    ensures
        as_map(rows).contains_key(rows[i].key()),
        as_map(rows)[rows[i].key()] == rows[i]@,
{
    let k = rows[i].key();
    assert(row_at(rows, k, i));
    let c = choose|c: int| row_at(rows, k, c);
    assert(row_at(rows, k, c));
    assert(c == i);
}

/// Every key is that of a row.
pub proof fn lemma_key<T: Row>(rows: Seq<T>, k: T::Key) -> (i: int)
    requires
        distinct(rows),
        as_map(rows).contains_key(k),
    ensures
        row_at(rows, k, i),
        as_map(rows)[k] == rows[i]@,
{
    let i = choose|i: int| row_at(rows, k, i);
    lemma_row(rows, i);
    i
}

/// Rows with distinct keys.
pub struct Table<T: Row> {
    rows: Vec<T>,
}

impl<T: Row> View for Table<T> {
    type V = Map<T::Key, T::V>;

    closed spec fn view(&self) -> Map<T::Key, T::V> {
        as_map(self.rows@)
    }
}

impl<T: Row> Table<T> {
    /// Whether no key occurs twice.
    pub closed spec fn valid(&self) -> bool {
        distinct(self.rows@)
    }

    /// The rows in no particular order.
    pub closed spec fn list(&self) -> Seq<T> {
        self.rows@
    }

    /// The list and the map hold the same rows.
    pub proof fn lemma_list(&self)
        requires
            self.valid(),
        ensures
            distinct(self.list()),
            self@ == as_map(self.list()),
    {
    }

    pub fn new() -> (r: Self)
        ensures
            r.valid(),
            r@ == Map::<T::Key, T::V>::empty(),
    {
        let r = Table { rows: Vec::new() };
        assert(r@ =~= Map::<T::Key, T::V>::empty()) by {
            assert forall|k: T::Key| !r@.contains_key(k) by {
                if r@.contains_key(k) {
                    let i = choose|i: int| row_at(r.rows@, k, i);
                    assert(row_at(r.rows@, k, i));
                }
            }
        }
        r
    }

    /// How many rows there are.
    pub fn len(&self) -> (r: usize)
        ensures
            r == self.list().len(),
    {
        self.rows.len()
    }

    /// The row at a place of the list.
    pub fn at(&self, i: usize) -> (r: &T)
        requires
            i < self.list().len(),
        ensures
            *r == self.list()[i as int],
    {
        &self.rows[i]
    }

    fn find(&self, probe: &T::Probe) -> (r: Option<usize>)
        ensures
            match r {
                Some(i) => row_at(self.rows@, T::wanted(probe), i as int),
                None => !self@.contains_key(T::wanted(probe)),
            },
    {
        let mut i: usize = 0;
        while i < self.rows.len()
            invariant
                i <= self.rows.len(),
                forall|j: int| 0 <= j < i ==> (#[trigger] self.rows@[j]).key() != T::wanted(probe),
            decreases self.rows.len() - i,
        {
            if self.rows[i].has_key(probe) {
                return Some(i);
            }
            i = i + 1;
        }
        proof {
            if self@.contains_key(T::wanted(probe)) {
                let k = choose|k: int| row_at(self.rows@, T::wanted(probe), k);
                assert(row_at(self.rows@, T::wanted(probe), k));
            }
        }
        None
    }

    /// A copy of the row under a key.
    pub fn get(&self, probe: &T::Probe) -> (r: Option<T>)
        requires
            self.valid(),
        ensures
            match r {
                Some(row) => self@.contains_key(T::wanted(probe)) && row@ == self@[T::wanted(
                    probe,
                )] && row.key() == T::wanted(probe),
                None => !self@.contains_key(T::wanted(probe)),
            },
    {
        match self.find(probe) {
            Some(i) => {
                proof {
                    lemma_row(self.rows@, i as int);
                }
                Some(self.rows[i].copied())
            },
            None => None,
        }
    }

    /// Whether there is a row under a key.
    pub fn contains(&self, probe: &T::Probe) -> (r: bool)
        requires
            self.valid(),
        ensures
            r == self@.contains_key(T::wanted(probe)),
    {
        match self.find(probe) {
            Some(i) => {
                proof {
                    lemma_row(self.rows@, i as int);
                }
                true
            },
            None => false,
        }
    }

    /// Puts a row under its key, in place of one that is there.
    pub fn insert(&mut self, row: T)
        requires
            old(self).valid(),
        ensures
            final(self).valid(),
            final(self)@ == old(self)@.insert(row.key(), row@),
    {
        let ghost was = self.rows@;
        let mut i: usize = 0;
        while i < self.rows.len()
            invariant
                i <= self.rows.len(),
                self.rows@ == was,
                distinct(was),
                was == old(self).rows@,
                forall|j: int| 0 <= j < i ==> (#[trigger] was[j]).key() != row.key(),
            decreases self.rows.len() - i,
        {
            if self.rows[i].same_key(&row) {
                let ghost new = was.update(i as int, row);
                self.rows.set(i, row);
                proof {
                    assert(self.rows@ =~= new);
                    assert(distinct(new));
                    assert(as_map(new) =~= as_map(was).insert(row.key(), row@)) by {
                        lemma_row(new, i as int);
                        assert forall|k: T::Key| as_map(new).contains_key(k) == as_map(was).insert(
                            row.key(),
                            row@,
                        ).contains_key(k) by {
                            if as_map(new).contains_key(k) {
                                let j = lemma_key(new, k);
                                if j != i {
                                    assert(row_at(was, k, j));
                                }
                            }
                            if as_map(was).contains_key(k) {
                                let j = lemma_key(was, k);
                                assert(row_at(new, k, j));
                            }
                        }
                        assert forall|k: T::Key| as_map(new).contains_key(k) implies as_map(new)[k]
                            == as_map(was).insert(row.key(), row@)[k] by {
                            let j = lemma_key(new, k);
                            if j != i {
                                lemma_row(was, j);
                            }
                        }
                    }
                }
                return ;
            }
            i = i + 1;
        }
        self.rows.push(row);
        proof {
            let new = was.push(row);
            assert(self.rows@ =~= new);
            assert(distinct(new));
            assert(as_map(new) =~= as_map(was).insert(row.key(), row@)) by {
                lemma_row(new, was.len() as int);
                assert forall|k: T::Key| as_map(new).contains_key(k) == as_map(was).insert(
                    row.key(),
                    row@,
                ).contains_key(k) by {
                    if as_map(new).contains_key(k) {
                        let j = lemma_key(new, k);
                        if j < was.len() {
                            assert(row_at(was, k, j));
                        }
                    }
                    if as_map(was).contains_key(k) {
                        let j = lemma_key(was, k);
                        assert(row_at(new, k, j));
                    }
                }
                assert forall|k: T::Key| as_map(new).contains_key(k) implies as_map(new)[k]
                    == as_map(was).insert(row.key(), row@)[k] by {
                    let j = lemma_key(new, k);
                    if j < was.len() {
                        lemma_row(was, j);
                    }
                }
            }
        }
    }

    /// Takes out the row at a place of the list.
    fn take_at(&mut self, i: usize) -> (r: T)
        requires
            old(self).valid(),
            i < old(self).rows@.len(),
        ensures
            final(self).valid(),
            r == old(self).rows@[i as int],
            final(self).rows@ == old(self).rows@.remove(i as int),
            final(self)@ == old(self)@.remove(r.key()),
    {
        let ghost was = self.rows@;
        let row: T = self.rows.remove(i);
        proof {
            let new = was.remove(i as int);
            assert(self.rows@ =~= new);
            assert forall|a: int, b: int| 0 <= a < b < new.len() implies (#[trigger] new[a]).key()
                != (#[trigger] new[b]).key() by {
                let x = if a < i {
                    a
                } else {
                    a + 1
                };
                let y = if b < i {
                    b
                } else {
                    b + 1
                };
                assert(new[a] == was[x] && new[b] == was[y]);
            }
            assert(as_map(new) =~= as_map(was).remove(row.key())) by {
                assert forall|k: T::Key| as_map(new).contains_key(k) == as_map(was).remove(
                    row.key(),
                ).contains_key(k) by {
                    if as_map(new).contains_key(k) {
                        let j = lemma_key(new, k);
                        let x = if j < i {
                            j
                        } else {
                            j + 1
                        };
                        assert(row_at(was, k, x));
                        assert(was[x].key() != was[i as int].key());
                    }
                    if as_map(was).remove(row.key()).contains_key(k) {
                        let j = lemma_key(was, k);
                        let x = if j < i {
                            j
                        } else {
                            j - 1
                        };
                        assert(row_at(new, k, x));
                    }
                }
                assert forall|k: T::Key| as_map(new).contains_key(k) implies as_map(new)[k]
                    == as_map(was).remove(row.key())[k] by {
                    let j = lemma_key(new, k);
                    let x = if j < i {
                        j
                    } else {
                        j + 1
                    };
                    lemma_row(was, x);
                }
            }
        }
        row
    }

    /// Takes out the row under a key.
    pub fn remove(&mut self, probe: &T::Probe) -> (r: Option<T>)
        requires
            old(self).valid(),
        ensures
            final(self).valid(),
            final(self)@ == old(self)@.remove(T::wanted(probe)),
            match r {
                Some(row) => old(self)@.contains_key(T::wanted(probe)) && row@ == old(
                    self,
                )@[T::wanted(probe)],
                None => !old(self)@.contains_key(T::wanted(probe)),
            },
    {
        match self.find(probe) {
            Some(i) => {
                proof {
                    lemma_row(self.rows@, i as int);
                }
                Some(self.take_at(i))
            },
            None => {
                assert(old(self)@ =~= old(self)@.remove(T::wanted(probe)));
                None
            },
        }
    }
}

// ---------- order ----------

/// Lexicographic order of texts by character.
pub open spec fn text_le(a: Seq<char>, b: Seq<char>) -> bool
    decreases a.len(),
{
    if a.len() == 0 {
        true
    } else if b.len() == 0 {
        false
    } else if a[0] != b[0] {
        a[0] < b[0]
    } else {
        text_le(a.skip(1), b.skip(1))
    }
}

pub(crate) proof fn lemma_text_total(a: Seq<char>, b: Seq<char>)
    ensures
        text_le(a, b) || text_le(b, a),
    decreases a.len(),
{
    if a.len() > 0 && b.len() > 0 && a[0] == b[0] {
        lemma_text_total(a.skip(1), b.skip(1));
    }
}

pub(crate) proof fn lemma_text_transitive(a: Seq<char>, b: Seq<char>, c: Seq<char>)
    requires
        text_le(a, b),
        text_le(b, c),
    ensures
        text_le(a, c),
    decreases a.len(),
{
    if a.len() > 0 && b.len() > 0 && c.len() > 0 && a[0] == b[0] && b[0] == c[0] {
        lemma_text_transitive(a.skip(1), b.skip(1), c.skip(1));
    }
}

/// Whether `a` comes before `b` or equals it.
pub fn text_at_most(a: &str, b: &str) -> (r: bool)
    ensures
        r == text_le(a@, b@),
{
    let xs: Vec<char> = chars_of(a);
    let ys: Vec<char> = chars_of(b);
    let mut i: usize = 0;
    assert(a@.skip(0) =~= a@);
    assert(b@.skip(0) =~= b@);
    while i < xs.len()
        invariant
            xs@ == a@,
            ys@ == b@,
            i <= xs.len(),
            i <= ys.len(),
            text_le(a@, b@) == text_le(a@.skip(i as int), b@.skip(i as int)),
        decreases xs.len() - i,
    {
        proof {
            assert(a@.skip(i as int)[0] == a@[i as int]);
            assert(a@.skip(i as int).skip(1) =~= a@.skip(i + 1));
        }
        if i >= ys.len() {
            return false;
        }
        assert(b@.skip(i as int)[0] == b@[i as int]);
        assert(b@.skip(i as int).skip(1) =~= b@.skip(i + 1));
        if xs[i] != ys[i] {
            return xs[i] < ys[i];
        }
        i = i + 1;
    }
    true
}

/// Rows that are listed in an order.
pub trait Ranked: Sized {
    spec fn le(&self, other: &Self) -> bool;

    proof fn lemma_total(a: &Self, b: &Self)
        ensures
            a.le(b) || b.le(a),
    ;

    proof fn lemma_transitive(a: &Self, b: &Self, c: &Self)
        requires
            a.le(b),
            b.le(c),
        ensures
            a.le(c),
    ;

    fn at_most(&self, other: &Self) -> (r: bool)
        ensures
            r == self.le(other),
    ;
}

/// Whether rows stand in order.
pub open spec fn in_order<T: Ranked>(s: Seq<T>) -> bool {
    forall|i: int, j: int| #![trigger s[i], s[j]] 0 <= i < j < s.len() ==> s[i].le(&s[j])
}

/// Puts a row behind every row that comes before it or equals it, and reports
/// the place.
pub fn insert_ranked<T: Ranked>(v: &mut Vec<T>, x: T) -> (p: usize)
    requires
        in_order(old(v)@),
    ensures
        in_order(final(v)@),
        p <= old(v)@.len(),
        final(v)@ == old(v)@.insert(p as int, x),
{
    let ghost was = v@;
    let mut p: usize = 0;
    while p < v.len() && v[p].at_most(&x)
        invariant
            v@ == was,
            p <= v.len(),
            forall|i: int| 0 <= i < p ==> (#[trigger] was[i]).le(&x),
        decreases v.len() - p,
    {
        p = p + 1;
    }
    v.insert(p, x);
    proof {
        let new = was.insert(p as int, x);
        assert(v@ =~= new);
        assert forall|i: int, j: int|
            #![trigger new[i], new[j]]
            0 <= i < j < new.len() implies new[i].le(&new[j]) by {
            let a = if i < p {
                i
            } else {
                i - 1
            };
            let b = if j < p {
                j
            } else {
                j - 1
            };
            if j == p {
                assert(new[i] == was[i]);
            } else if i == p {
                assert(new[j] == was[b]);
                T::lemma_total(&was[p as int], &x);
                if b != p {
                    assert(was[p as int].le(&was[b]));
                    T::lemma_transitive(&x, &was[p as int], &was[b]);
                }
            } else {
                assert(new[i] == was[a] && new[j] == was[b]);
            }
        }
    }
    p
}

} // verus!
