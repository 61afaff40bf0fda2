//! A TOML table: a mapping from text keys to values.  Keys are unique
//! within one table and the entries are kept in lexicographic key order, so
//! iteration order is independent of the order in which keys appeared in
//! the source text.
use vstd::prelude::*;

use crate::scan::{lemma_str_lt_trans, lemma_str_lt_trichotomy, str_eq, str_less, str_lt};
use crate::value::{
    entries_model, entries_sorted, table_wf, value_model, value_wf, Toml, Value,
};

verus! {

/// A TOML table.
#[derive(Debug)]
pub struct Table {
    /// The entries, sorted by key.
    pub entries: Vec<(String, Value)>,
}

/// In an entry list with pairwise distinct keys, each entry is what the
/// model map returns for its key, and the model holds no other key.
pub proof fn lemma_entries_model(s: Seq<(String, Value)>)
    requires
        forall|i: int, j: int| 0 <= i < j < s.len() ==> (#[trigger] s[i].0)@ != (#[trigger] s[j].0)@,
    ensures
        forall|k: Seq<char>|
            #[trigger] entries_model(s).contains_key(k) <==> exists|i: int|
                0 <= i < s.len() && (#[trigger] s[i].0)@ == k,
        forall|i: int|
            0 <= i < s.len() ==> entries_model(s).contains_key((#[trigger] s[i].0)@)
                && entries_model(s)[s[i].0@] == value_model(s[i].1),
    decreases s.len(),
{
    if s.len() > 0 {
        let butlast = s.drop_last();
        lemma_entries_model(butlast);
        assert forall|i: int|
            0 <= i < s.len() implies entries_model(s).contains_key((#[trigger] s[i].0)@)
            && entries_model(s)[s[i].0@] == value_model(s[i].1) by {
            if i < s.len() - 1 {
                assert(butlast[i] == s[i]);
                assert(s[i].0@ != s[s.len() - 1].0@);
            }
        }
        assert forall|k: Seq<char>| #[trigger]
            entries_model(s).contains_key(k) implies exists|i: int|
            0 <= i < s.len() && (#[trigger] s[i].0)@ == k by {
            if k != s.last().0@ {
                let i = choose|i: int| 0 <= i < butlast.len() && (#[trigger] butlast[i].0)@ == k;
                assert(s[i].0@ == k);
            } else {
                assert(s[s.len() - 1].0@ == k);
            }
        }
    }
}

/// Strictly sorted keys are pairwise distinct.
pub proof fn lemma_sorted_distinct(s: Seq<(String, Value)>)
    requires
        entries_sorted(s),
    ensures
        forall|i: int, j: int| 0 <= i < j < s.len() ==> (#[trigger] s[i].0)@ != (#[trigger] s[j].0)@,
{
    assert forall|i: int, j: int|
        0 <= i < j < s.len() implies (#[trigger] s[i].0)@ != (#[trigger] s[j].0)@ by {
        lemma_str_lt_trichotomy(s[i].0@, s[j].0@);
    }
}

/// Iteration order is lexicographic by key: in a well-formed table — and
/// `parse` returns only such tables — the entries stand in strictly
/// ascending key order.
pub proof fn lemma_iteration_order(t: Table)
    requires
        table_wf(t),
    ensures
        forall|i: int, j: int|
            0 <= i < j < t.entries@.len() ==> str_lt(
                (#[trigger] t.entries@[i]).0@,
                (#[trigger] t.entries@[j]).0@,
            ),
{
}

/// Sorted entries are a canonical form: two well-formed tables with the
/// same model map list the same keys in the same positions, with
/// model-equal values.  Iteration order is therefore independent of the
/// order keys appeared in the source text.
pub proof fn lemma_sorted_entries_canonical(x: Seq<(String, Value)>, y: Seq<(String, Value)>)
    requires
        entries_sorted(x),
        entries_sorted(y),
        entries_model(x) == entries_model(y),
    ensures
        x.len() == y.len(),
        forall|i: int|
            0 <= i < x.len() ==> (#[trigger] x[i]).0@ == y[i].0@ && value_model(x[i].1)
                == value_model(y[i].1),
    decreases x.len(),
{
    lemma_sorted_distinct(x);
    lemma_sorted_distinct(y);
    lemma_entries_model(x);
    lemma_entries_model(y);
    if x.len() == 0 {
        if y.len() > 0 {
            assert(entries_model(y).contains_key(y[y.len() - 1].0@));
            assert(false);
        }
    } else if y.len() == 0 {
        assert(entries_model(x).contains_key(x[x.len() - 1].0@));
        assert(false);
    } else {
        let kx = x.last().0@;
        let ky = y.last().0@;
        assert(entries_model(y).contains_key(kx)) by {
            assert(entries_model(x).contains_key(x[x.len() - 1].0@));
        }
        let jx = choose|j: int| 0 <= j < y.len() && (#[trigger] y[j].0)@ == kx;
        assert(entries_model(x).contains_key(ky)) by {
            assert(entries_model(y).contains_key(y[y.len() - 1].0@));
        }
        let jy = choose|j: int| 0 <= j < x.len() && (#[trigger] x[j].0)@ == ky;
        if jx < y.len() - 1 && jy < x.len() - 1 {
            assert(str_lt(kx, ky)) by {
                assert(str_lt(y[jx].0@, y[y.len() - 1].0@));
            }
            assert(str_lt(ky, kx)) by {
                assert(str_lt(x[jy].0@, x[x.len() - 1].0@));
            }
            crate::scan::lemma_str_lt_trichotomy(kx, ky);
            assert(false);
        }
        assert(kx == ky) by {
            if jx == y.len() - 1 {
                assert(y[y.len() - 1].0@ == kx);
            } else {
                assert(x[x.len() - 1].0@ == ky);
            }
        }
        assert(value_model(x.last().1) == value_model(y.last().1)) by {
            assert(entries_model(x)[x[x.len() - 1].0@] == value_model(x[x.len() - 1].1));
            assert(entries_model(y)[y[y.len() - 1].0@] == value_model(y[y.len() - 1].1));
        }
        let bx = x.drop_last();
        let by = y.drop_last();
        assert(entries_sorted(bx)) by {
            assert forall|i: int, j: int|
                0 <= i < j < bx.len() implies str_lt(
                (#[trigger] bx[i].0)@,
                (#[trigger] bx[j].0)@,
            ) by {
                assert(bx[i] == x[i] && bx[j] == x[j]);
            }
        }
        assert(entries_sorted(by)) by {
            assert forall|i: int, j: int|
                0 <= i < j < by.len() implies str_lt(
                (#[trigger] by[i].0)@,
                (#[trigger] by[j].0)@,
            ) by {
                assert(by[i] == y[i] && by[j] == y[j]);
            }
        }
        lemma_sorted_distinct(bx);
        lemma_sorted_distinct(by);
        lemma_entries_model(bx);
        lemma_entries_model(by);
        assert(entries_model(bx) == entries_model(by)) by {
            assert forall|k: Seq<char>|
                entries_model(bx).contains_key(k) == entries_model(by).contains_key(k) by {
                if entries_model(bx).contains_key(k) {
                    let i = choose|i: int| 0 <= i < bx.len() && (#[trigger] bx[i].0)@ == k;
                    assert(x[i].0@ == k);
                    assert(k != kx) by {
                        assert(x[i].0@ != x[x.len() - 1].0@);
                    }
                    assert(entries_model(x).contains_key(k));
                    assert(entries_model(y).contains_key(k));
                    let j = choose|j: int| 0 <= j < y.len() && (#[trigger] y[j].0)@ == k;
                    assert(j != y.len() - 1);
                    assert(by[j].0@ == k);
                    assert(entries_model(by).contains_key(k));
                }
                if entries_model(by).contains_key(k) {
                    let i = choose|i: int| 0 <= i < by.len() && (#[trigger] by[i].0)@ == k;
                    assert(y[i].0@ == k);
                    assert(k != ky) by {
                        assert(y[i].0@ != y[y.len() - 1].0@);
                    }
                    assert(entries_model(y).contains_key(k));
                    assert(entries_model(x).contains_key(k));
                    let j = choose|j: int| 0 <= j < x.len() && (#[trigger] x[j].0)@ == k;
                    assert(j != x.len() - 1);
                    assert(bx[j].0@ == k);
                    assert(entries_model(bx).contains_key(k));
                }
            }
            assert forall|k: Seq<char>|
                entries_model(bx).contains_key(k) implies entries_model(bx)[k] == entries_model(
                by,
            )[k] by {
                let i = choose|i: int| 0 <= i < bx.len() && (#[trigger] bx[i].0)@ == k;
                assert(entries_model(bx)[bx[i].0@] == value_model(bx[i].1));
                assert(bx[i] == x[i]);
                assert(k != kx) by {
                    assert(x[i].0@ != x[x.len() - 1].0@);
                }
                assert(entries_model(x)[k] == value_model(x[i].1)) by {
                    assert(entries_model(x)[x[i].0@] == value_model(x[i].1));
                }
                let j = choose|j: int| 0 <= j < by.len() && (#[trigger] by[j].0)@ == k;
                assert(entries_model(by)[by[j].0@] == value_model(by[j].1));
                assert(by[j] == y[j]);
                assert(entries_model(y)[k] == value_model(y[j].1)) by {
                    assert(entries_model(y)[y[j].0@] == value_model(y[j].1));
                }
            }
            assert(entries_model(bx) =~= entries_model(by));
        }
        lemma_sorted_entries_canonical(bx, by);
        assert forall|i: int|
            0 <= i < x.len() implies (#[trigger] x[i]).0@ == y[i].0@ && value_model(x[i].1)
            == value_model(y[i].1) by {
            if i < x.len() - 1 {
                assert(bx[i] == x[i] && by[i] == y[i]);
                assert(bx[i].0@ == by[i].0@ && value_model(bx[i].1) == value_model(by[i].1));
            }
        }
    }
}

impl Table {
    /// Create a new, empty table.
    pub fn new() -> (t: Table)
        ensures
            t@ == Map::<Seq<char>, Toml>::empty(),
            t.entries@.len() == 0,
            table_wf(t),
    {
        Table { entries: Vec::new() }
    }

    /// The number of entries.
    pub fn len(&self) -> (n: usize)
        ensures
            n == self.entries@.len(),
    {
        self.entries.len()
    }

    /// Whether the table holds no entry.
    pub fn is_empty(&self) -> (r: bool)
        ensures
            r == (self.entries@.len() == 0),
            r ==> self@ == Map::<Seq<char>, Toml>::empty(),
    {
        self.entries.len() == 0
    }

    /// The entry at the given position of the iteration order: entries are
    /// sorted by key, smallest first.
    pub fn entry_at(&self, index: usize) -> (r: &(String, Value))
        requires
            index < self.entries@.len(),
        ensures
            *r == self.entries@[index as int],
            table_wf(*self) ==> self@.contains_key(r.0@) && self@[r.0@] == value_model(r.1),
            table_wf(*self) ==> value_wf(r.1),
    {
        proof {
            if table_wf(*self) {
                lemma_sorted_distinct(self.entries@);
                lemma_entries_model(self.entries@);
            }
        }
        &self.entries[index]
    }

    /// Look a key up.
    pub fn get(&self, key: &str) -> (r: Option<&Value>)
        requires
            table_wf(*self),
        ensures
            match r {
                Some(v) => self@.contains_key(key@) && value_model(*v) == self@[key@] && value_wf(
                    *v,
                ),
                None => !self@.contains_key(key@),
            },
    {
        proof {
            lemma_sorted_distinct(self.entries@);
            lemma_entries_model(self.entries@);
        }
        let n = self.entries.len();
        let mut i: usize = 0;
        while i < n
            invariant
                i <= n,
                n == self.entries@.len(),
                table_wf(*self),
                forall|k: int| 0 <= k < i ==> (#[trigger] self.entries@[k].0)@ != key@,
            decreases n - i,
        {
            if str_eq(self.entries[i].0.as_str(), key) {
                proof {
                    lemma_sorted_distinct(self.entries@);
                    lemma_entries_model(self.entries@);
                }
                return Some(&self.entries[i].1);
            }
            i = i + 1;
        }
        proof {
            lemma_sorted_distinct(self.entries@);
            lemma_entries_model(self.entries@);
            if self@.contains_key(key@) {
                let j = choose|j: int|
                    0 <= j < self.entries@.len() && (#[trigger] self.entries@[j].0)@ == key@;
                assert(false);
            }
        }
        None
    }

    /// Remove a key and hand its value out.
    pub fn take(&mut self, key: &str) -> (r: Option<Value>)
        requires
            table_wf(*old(self)),
        ensures
            table_wf(*final (self)),
            match r {
                Some(v) => old(self)@.contains_key(key@) && value_model(v) == old(self)@[key@]
                    && value_wf(v) && final (self)@ == old(self)@.remove(key@) && final (self).entries@.len()
                    + 1 == old(self).entries@.len(),
                None => !old(self)@.contains_key(key@) && *final (self) == *old(self),
            },
    {
        proof {
            lemma_sorted_distinct(self.entries@);
            lemma_entries_model(self.entries@);
        }
        let n = self.entries.len();
        let mut i: usize = 0;
        while i < n
            invariant
                i <= n,
                n == self.entries@.len(),
                table_wf(*self),
                self == old(self),
                forall|k: int| 0 <= k < i ==> (#[trigger] self.entries@[k].0)@ != key@,
            decreases n - i,
        {
            if str_eq(self.entries[i].0.as_str(), key) {
                proof {
                    lemma_sorted_distinct(self.entries@);
                    lemma_entries_model(self.entries@);
                }
                let ghost olds = self.entries@;
                let (_, v) = self.entries.remove(i);
                proof {
                    lemma_remove_preserves(olds, i as int);
                    lemma_sorted_distinct(olds);
                    lemma_entries_model(olds);
                    lemma_model_after_remove(olds, i as int);
                }
                return Some(v);
            }
            i = i + 1;
        }
        proof {
            if self@.contains_key(key@) {
                let j = choose|j: int|
                    0 <= j < self.entries@.len() && (#[trigger] self.entries@[j].0)@ == key@;
                assert(false);
            }
        }
        None
    }

    /// Bind a key to a value: an existing binding of the same key is
    /// replaced, any other binding is kept, and the entries stay sorted.
    pub fn insert(&mut self, key: String, value: Value)
        requires
            table_wf(*old(self)),
            value_wf(value),
        ensures
            table_wf(*final (self)),
            final (self)@ == old(self)@.insert(key@, value_model(value)),
    {
        proof {
            lemma_sorted_distinct(self.entries@);
            lemma_entries_model(self.entries@);
        }
        let n = self.entries.len();
        let mut i: usize = 0;
        while i < n && str_less(self.entries[i].0.as_str(), key.as_str())
            invariant
                i <= n,
                n == self.entries@.len(),
                table_wf(*self),
                self == old(self),
                forall|k: int| 0 <= k < i ==> str_lt((#[trigger] self.entries@[k].0)@, key@),
            decreases n - i,
        {
            i = i + 1;
        }
        let ghost olds = self.entries@;
        if i < n && str_eq(self.entries[i].0.as_str(), key.as_str()) {
            let ghost e = (key, value);
            self.entries.remove(i);
            self.entries.insert(i, (key, value));
            proof {
                assert(self.entries@ =~= olds.update(i as int, e));
                lemma_update_same_key(olds, i as int, e);
                lemma_sorted_distinct(olds);
                lemma_model_after_update(olds, i as int, e);
            }
        } else {
            proof {
                assert forall|k: int| i <= k < olds.len() implies str_lt(
                    key@,
                    (#[trigger] olds[k].0)@,
                ) by {
                    lemma_str_lt_trichotomy(key@, olds[i as int].0@);
                    if k > i {
                        lemma_str_lt_trans(key@, olds[i as int].0@, olds[k].0@);
                    }
                }
            }
            let ghost e = (key, value);
            self.entries.insert(i, (key, value));
            proof {
                lemma_insert_sorted(olds, i as int, e);
                lemma_sorted_distinct(olds);
                assert forall|j: int| 0 <= j < olds.len() implies (#[trigger] olds[j].0)@
                    != e.0@ by {
                    lemma_str_lt_trichotomy(olds[j].0@, e.0@);
                }
                lemma_model_after_insert(olds, i as int, e);
            }
        }
    }
}

/// Pairwise-distinct keys, stated of an entry list.
pub open spec fn entries_distinct(s: Seq<(String, Value)>) -> bool {
    forall|i: int, j: int| 0 <= i < j < s.len() ==> (#[trigger] s[i].0)@ != (#[trigger] s[j].0)@
}

/// Removing the entry at `i` removes exactly its key from the model map.
proof fn lemma_model_after_remove(s: Seq<(String, Value)>, i: int)
    requires
        entries_distinct(s),
        0 <= i < s.len(),
    ensures
        entries_model(s.remove(i)) == entries_model(s).remove(s[i].0@),
{
    let t = s.remove(i);
    let key = s[i].0@;
    assert forall|a: int, b: int|
        0 <= a < b < t.len() implies (#[trigger] t[a].0)@ != (#[trigger] t[b].0)@ by {
        let sa = if a < i {
            a
        } else {
            a + 1
        };
        let sb = if b < i {
            b
        } else {
            b + 1
        };
        assert(t[a] == s[sa] && t[b] == s[sb]);
    }
    lemma_entries_model(s);
    lemma_entries_model(t);
    assert forall|k: Seq<char>|
        entries_model(t).contains_key(k) == entries_model(s).remove(key).contains_key(k) by {
        if entries_model(t).contains_key(k) {
            let j = choose|j: int| 0 <= j < t.len() && (#[trigger] t[j].0)@ == k;
            let sj = if j < i {
                j
            } else {
                j + 1
            };
            assert(t[j] == s[sj]);
            assert(s[sj].0@ == k);
            if sj < i {
                assert(s[sj].0@ != s[i].0@);
            } else if sj > i {
                assert(s[i].0@ != s[sj].0@);
            }
        }
        if entries_model(s).remove(key).contains_key(k) {
            let j = choose|j: int| 0 <= j < s.len() && (#[trigger] s[j].0)@ == k;
            assert(j != i);
            let tj = if j < i {
                j
            } else {
                j - 1
            };
            assert(t[tj] == s[j]);
            assert(t[tj].0@ == k);
        }
    }
    assert forall|k: Seq<char>| entries_model(t).contains_key(k) implies entries_model(t)[k]
        == entries_model(s).remove(key)[k] by {
        let j = choose|j: int| 0 <= j < t.len() && (#[trigger] t[j].0)@ == k;
        let sj = if j < i {
            j
        } else {
            j + 1
        };
        assert(t[j] == s[sj]);
        assert(entries_model(t)[t[j].0@] == value_model(t[j].1));
        assert(entries_model(s)[s[sj].0@] == value_model(s[sj].1));
    }
    assert(entries_model(t) =~= entries_model(s).remove(key));
}

/// Replacing the entry at `i`, key kept, binds that key to the new value
/// and keeps every other binding.
proof fn lemma_model_after_update(s: Seq<(String, Value)>, i: int, e: (String, Value))
    requires
        entries_distinct(s),
        0 <= i < s.len(),
        e.0@ == s[i].0@,
    ensures
        entries_model(s.update(i, e)) == entries_model(s).insert(e.0@, value_model(e.1)),
{
    let t = s.update(i, e);
    assert forall|a: int, b: int|
        0 <= a < b < t.len() implies (#[trigger] t[a].0)@ != (#[trigger] t[b].0)@ by {
        assert(s[a].0@ != s[b].0@);
        assert(t[a].0@ == s[a].0@ && t[b].0@ == s[b].0@);
    }
    lemma_entries_model(s);
    lemma_entries_model(t);
    assert forall|k: Seq<char>|
        entries_model(t).contains_key(k) == entries_model(s).insert(
            e.0@,
            value_model(e.1),
        ).contains_key(k) by {
        if entries_model(t).contains_key(k) {
            let j = choose|j: int| 0 <= j < t.len() && (#[trigger] t[j].0)@ == k;
            assert(t[j].0@ == s[j].0@);
            assert(s[j].0@ == k);
        }
        if k != e.0@ && entries_model(s).contains_key(k) {
            let j = choose|j: int| 0 <= j < s.len() && (#[trigger] s[j].0)@ == k;
            assert(t[j].0@ == s[j].0@);
            assert(t[j].0@ == k);
        }
        if k == e.0@ {
            assert(t[i].0@ == k);
        }
    }
    assert forall|k: Seq<char>| entries_model(t).contains_key(k) implies entries_model(t)[k]
        == entries_model(s).insert(e.0@, value_model(e.1))[k] by {
        let j = choose|j: int| 0 <= j < t.len() && (#[trigger] t[j].0)@ == k;
        assert(entries_model(t)[t[j].0@] == value_model(t[j].1));
        if k == e.0@ {
            if j != i {
                assert(t[j].0@ == s[j].0@ && t[i].0@ == s[i].0@);
                assert(s[j].0@ != s[i].0@);
                assert(false);
            }
            assert(t[j].1 == e.1);
        } else {
            assert(j != i);
            assert(t[j] == s[j]);
            assert(entries_model(s)[s[j].0@] == value_model(s[j].1));
        }
    }
    assert(entries_model(t) =~= entries_model(s).insert(e.0@, value_model(e.1)));
}

/// Inserting an entry with a fresh key at `i` adds exactly that binding to
/// the model map.
proof fn lemma_model_after_insert(s: Seq<(String, Value)>, i: int, e: (String, Value))
    requires
        entries_distinct(s),
        0 <= i <= s.len(),
        forall|j: int| 0 <= j < s.len() ==> (#[trigger] s[j].0)@ != e.0@,
    ensures
        entries_model(s.insert(i, e)) == entries_model(s).insert(e.0@, value_model(e.1)),
{
    let t = s.insert(i, e);
    assert forall|a: int, b: int|
        0 <= a < b < t.len() implies (#[trigger] t[a].0)@ != (#[trigger] t[b].0)@ by {
        if a == i {
            let sb = b - 1;
            assert(t[b] == s[sb]);
        } else if b == i {
            let sa = if a < i {
                a
            } else {
                a - 1
            };
            assert(t[a] == s[sa]);
        } else {
            let sa = if a < i {
                a
            } else {
                a - 1
            };
            let sb = if b < i {
                b
            } else {
                b - 1
            };
            assert(t[a] == s[sa] && t[b] == s[sb]);
        }
    }
    lemma_entries_model(s);
    lemma_entries_model(t);
    assert forall|k: Seq<char>|
        entries_model(t).contains_key(k) == entries_model(s).insert(
            e.0@,
            value_model(e.1),
        ).contains_key(k) by {
        if entries_model(t).contains_key(k) {
            let j = choose|j: int| 0 <= j < t.len() && (#[trigger] t[j].0)@ == k;
            if j != i {
                let sj = if j < i {
                    j
                } else {
                    j - 1
                };
                assert(t[j] == s[sj]);
                assert(s[sj].0@ == k);
            }
        }
        if k != e.0@ && entries_model(s).contains_key(k) {
            let j = choose|j: int| 0 <= j < s.len() && (#[trigger] s[j].0)@ == k;
            let tj = if j < i {
                j
            } else {
                j + 1
            };
            assert(t[tj] == s[j]);
            assert(t[tj].0@ == k);
        }
        if k == e.0@ {
            assert(t[i].0@ == k);
        }
    }
    assert forall|k: Seq<char>| entries_model(t).contains_key(k) implies entries_model(t)[k]
        == entries_model(s).insert(e.0@, value_model(e.1))[k] by {
        let j = choose|j: int| 0 <= j < t.len() && (#[trigger] t[j].0)@ == k;
        assert(entries_model(t)[t[j].0@] == value_model(t[j].1));
        if j == i {
            assert(t[j].1 == e.1);
        } else {
            let sj = if j < i {
                j
            } else {
                j - 1
            };
            assert(t[j] == s[sj]);
            assert(s[sj].0@ != e.0@);
            assert(entries_model(s)[s[sj].0@] == value_model(s[sj].1));
        }
    }
    assert(entries_model(t) =~= entries_model(s).insert(e.0@, value_model(e.1)));
}

/// Removing an entry keeps the remaining entries sorted and well formed.
proof fn lemma_remove_preserves(s: Seq<(String, Value)>, i: int)
    requires
        crate::value::table_entries_wf(s),
        0 <= i < s.len(),
    ensures
        crate::value::table_entries_wf(s.remove(i)),
{
    let t = s.remove(i);
    assert forall|a: int, b: int| 0 <= a < b < t.len() implies str_lt(
        (#[trigger] t[a].0)@,
        (#[trigger] t[b].0)@,
    ) by {
        let sa = if a < i {
            a
        } else {
            a + 1
        };
        let sb = if b < i {
            b
        } else {
            b + 1
        };
        assert(t[a] == s[sa] && t[b] == s[sb]);
    }
    assert forall|a: int| 0 <= a < t.len() implies value_wf(#[trigger] t[a].1) by {
        let sa = if a < i {
            a
        } else {
            a + 1
        };
        assert(t[a] == s[sa]);
    }
}

/// Replacing the value of an entry, key kept, keeps the list sorted and
/// well formed.
proof fn lemma_update_same_key(s: Seq<(String, Value)>, i: int, e: (String, Value))
    requires
        crate::value::table_entries_wf(s),
        0 <= i < s.len(),
        e.0@ == s[i].0@,
        value_wf(e.1),
    ensures
        crate::value::table_entries_wf(s.update(i, e)),
{
    let t = s.update(i, e);
    assert forall|a: int, b: int| 0 <= a < b < t.len() implies str_lt(
        (#[trigger] t[a].0)@,
        (#[trigger] t[b].0)@,
    ) by {
        assert(str_lt(s[a].0@, s[b].0@));
    }
}

/// Inserting an entry between the smaller and the larger keys keeps the
/// list sorted and well formed.
proof fn lemma_insert_sorted(s: Seq<(String, Value)>, i: int, e: (String, Value))
    requires
        crate::value::table_entries_wf(s),
        0 <= i <= s.len(),
        forall|k: int| 0 <= k < i ==> str_lt((#[trigger] s[k].0)@, e.0@),
        forall|k: int| i <= k < s.len() ==> str_lt(e.0@, (#[trigger] s[k].0)@),
        value_wf(e.1),
    ensures
        crate::value::table_entries_wf(s.insert(i, e)),
{
    let t = s.insert(i, e);
    assert forall|a: int, b: int| 0 <= a < b < t.len() implies str_lt(
        (#[trigger] t[a].0)@,
        (#[trigger] t[b].0)@,
    ) by {
        if a < i && b == i {
            assert(t[a] == s[a]);
        } else if a == i && b > i {
            assert(t[b] == s[b - 1]);
        } else if a < i && b > i {
            assert(t[a] == s[a] && t[b] == s[b - 1]);
        } else if b < i {
            assert(t[a] == s[a] && t[b] == s[b]);
        } else if a > i {
            assert(t[a] == s[a - 1] && t[b] == s[b - 1]);
        }
    }
    assert forall|a: int| 0 <= a < t.len() implies value_wf(#[trigger] t[a].1) by {
        if a < i {
            assert(t[a] == s[a]);
        } else if a > i {
            assert(t[a] == s[a - 1]);
        }
    }
}

} // verus!
