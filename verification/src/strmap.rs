use vstd::prelude::*;

use crate::order::{compare_strs, lemma_lt_asym, lemma_lt_irrefl, lemma_lt_total, lemma_lt_trans, seq_lt};
use crate::text::chars_of;

verus! {

/// Keys of an entry sequence are strictly increasing.
pub open spec fn keys_sorted<X>(s: Seq<(Seq<char>, X)>) -> bool {
    forall|i: int, j: int| 0 <= i < j < s.len() ==> seq_lt(#[trigger] s[i].0, #[trigger] s[j].0)
}

/// What `BTreeMap::insert` does to the ordered entries: a present key gets the
/// new value, an absent key is placed where the order puts it.
pub open spec fn seq_insert<X>(s: Seq<(Seq<char>, X)>, k: Seq<char>, v: X) -> Seq<(Seq<char>, X)>
    decreases s.len(),
{
    if s.len() == 0 {
        seq![(k, v)]
    } else if s[0].0 == k {
        s.update(0, (k, v))
    } else if seq_lt(k, s[0].0) {
        seq![(k, v)] + s
    } else {
        seq![s[0]] + seq_insert(s.drop_first(), k, v)
    }
}

/// The value stored under `k`, if any.
pub open spec fn seq_get<X>(s: Seq<(Seq<char>, X)>, k: Seq<char>) -> Option<X>
    decreases s.len(),
{
    if s.len() == 0 {
        None
    } else if s[0].0 == k {
        Some(s[0].1)
    } else {
        seq_get(s.drop_first(), k)
    }
}

pub open spec fn seq_has_key<X>(s: Seq<(Seq<char>, X)>, k: Seq<char>) -> bool {
    exists|i: int| 0 <= i < s.len() && #[trigger] s[i].0 == k
}

pub proof fn lemma_insert_at<X>(s: Seq<(Seq<char>, X)>, k: Seq<char>, v: X, i: int)
    requires
        0 <= i <= s.len(),
        forall|j: int| 0 <= j < i ==> seq_lt(#[trigger] s[j].0, k),
        i < s.len() ==> !seq_lt(s[i].0, k),
    ensures
        i < s.len() && s[i].0 == k ==> seq_insert(s, k, v) == s.update(i, (k, v)),
        !(i < s.len() && s[i].0 == k) ==> seq_insert(s, k, v) == s.insert(i, (k, v)),
    decreases i,
{
    if i == 0 {
        if s.len() == 0 {
            assert(s.insert(0, (k, v)) =~= seq![(k, v)]);
        } else if s[0].0 == k {
        } else {
            lemma_lt_total(s[0].0, k);
            assert(s.insert(0, (k, v)) =~= seq![(k, v)] + s);
        }
    } else {
        lemma_lt_irrefl(k);
        assert(s[0].0 != k);
        lemma_lt_asym(s[0].0, k);
        let t = s.drop_first();
        assert forall|j: int| 0 <= j < i - 1 implies seq_lt(#[trigger] t[j].0, k) by {
            assert(t[j] == s[j + 1]);
        }
        lemma_insert_at(t, k, v, i - 1);
        if i < s.len() && s[i].0 == k {
            assert(seq![s[0]] + t.update(i - 1, (k, v)) =~= s.update(i, (k, v)));
        } else {
            assert(seq![s[0]] + t.insert(i - 1, (k, v)) =~= s.insert(i, (k, v)));
        }
    }
}

pub proof fn lemma_get_at<X>(s: Seq<(Seq<char>, X)>, k: Seq<char>, i: int)
    requires
        0 <= i <= s.len(),
        forall|j: int| 0 <= j < i ==> #[trigger] s[j].0 != k,
    ensures
        i < s.len() && s[i].0 == k ==> seq_get(s, k) == Some(s[i].1),
        i == s.len() ==> seq_get(s, k) is None,
    decreases i,
{
    if i > 0 {
        let t = s.drop_first();
        assert forall|j: int| 0 <= j < i - 1 implies #[trigger] t[j].0 != k by {
            assert(t[j] == s[j + 1]);
        }
        lemma_get_at(t, k, i - 1);
    }
}

pub proof fn lemma_sorted_insert<X>(s: Seq<(Seq<char>, X)>, k: Seq<char>, v: X)
    requires
        keys_sorted(s),
    ensures
        keys_sorted(seq_insert(s, k, v)),
        forall|i: int|
            0 <= i < seq_insert(s, k, v).len() ==> (#[trigger] seq_insert(s, k, v)[i].0 == k
                || seq_has_key(s, seq_insert(s, k, v)[i].0)),
    decreases s.len(),
{
    let r = seq_insert(s, k, v);
    if s.len() == 0 {
    } else if s[0].0 == k {
        assert forall|i: int| 0 <= i < r.len() implies (#[trigger] r[i].0 == k || seq_has_key(
            s,
            r[i].0,
        )) by {
            assert(s[i].0 == r[i].0 || i == 0);
        }
    } else if seq_lt(k, s[0].0) {
        assert forall|i: int, j: int| 0 <= i < j < r.len() implies seq_lt(
            #[trigger] r[i].0,
            #[trigger] r[j].0,
        ) by {
            if i == 0 {
                if j > 1 {
                    lemma_lt_trans(k, s[0].0, s[j - 1].0);
                }
            } else {
                assert(r[i] == s[i - 1] && r[j] == s[j - 1]);
            }
        }
        assert forall|i: int| 0 <= i < r.len() implies (#[trigger] r[i].0 == k || seq_has_key(
            s,
            r[i].0,
        )) by {
            if i > 0 {
                assert(r[i] == s[i - 1]);
            }
        }
    } else {
        let t = s.drop_first();
        assert(keys_sorted(t)) by {
            assert forall|i: int, j: int| 0 <= i < j < t.len() implies seq_lt(
                #[trigger] t[i].0,
                #[trigger] t[j].0,
            ) by {
                assert(t[i] == s[i + 1] && t[j] == s[j + 1]);
            }
        }
        lemma_sorted_insert(t, k, v);
        let rt = seq_insert(t, k, v);
        assert(r == seq![s[0]] + rt);
        lemma_lt_total(s[0].0, k);
        assert forall|i: int| 0 <= i < r.len() implies (#[trigger] r[i].0 == k || seq_has_key(
            s,
            r[i].0,
        )) by {
            if i > 0 {
                assert(r[i] == rt[i - 1]);
                if rt[i - 1].0 != k {
                    let w = choose|w: int| 0 <= w < t.len() && #[trigger] t[w].0 == rt[i - 1].0;
                    assert(s[w + 1] == t[w]);
                }
            }
        }
        assert forall|i: int, j: int| 0 <= i < j < r.len() implies seq_lt(
            #[trigger] r[i].0,
            #[trigger] r[j].0,
        ) by {
            if i == 0 {
                assert(r[j] == rt[j - 1]);
                if rt[j - 1].0 != k {
                    let w = choose|w: int| 0 <= w < t.len() && #[trigger] t[w].0 == rt[j - 1].0;
                    assert(s[w + 1] == t[w]);
                }
            } else {
                assert(r[i] == rt[i - 1] && r[j] == rt[j - 1]);
            }
        }
    }
}

/// Every entry after an insertion is the inserted one or one that was there.
pub proof fn lemma_insert_elements<X>(s: Seq<(Seq<char>, X)>, k: Seq<char>, v: X)
    ensures
        forall|i: int|
            0 <= i < seq_insert(s, k, v).len() ==> #[trigger] seq_insert(s, k, v)[i] == (k, v)
                || s.contains(seq_insert(s, k, v)[i]),
    decreases s.len(),
{
    let r = seq_insert(s, k, v);
    if s.len() == 0 {
    } else if s[0].0 == k {
        assert forall|i: int| 0 <= i < r.len() implies #[trigger] r[i] == (k, v) || s.contains(
            r[i],
        ) by {
            if i > 0 {
                assert(r[i] == s[i]);
            }
        }
    } else if seq_lt(k, s[0].0) {
        assert forall|i: int| 0 <= i < r.len() implies #[trigger] r[i] == (k, v) || s.contains(
            r[i],
        ) by {
            if i > 0 {
                assert(r[i] == s[i - 1]);
            }
        }
    } else {
        let t = s.drop_first();
        lemma_insert_elements(t, k, v);
        let rt = seq_insert(t, k, v);
        assert(r == seq![s[0]] + rt);
        assert forall|i: int| 0 <= i < r.len() implies #[trigger] r[i] == (k, v) || s.contains(
            r[i],
        ) by {
            if i == 0 {
                assert(s[0] == r[0]);
            } else {
                assert(r[i] == rt[i - 1]);
                if rt[i - 1] != (k, v) {
                    let j = choose|j: int| 0 <= j < t.len() && t[j] == rt[i - 1];
                    assert(s[j + 1] == t[j]);
                }
            }
        }
    }
}

/// The view of stored entries.
pub open spec fn entries_view<V: View>(e: Seq<(String, V)>) -> Seq<(Seq<char>, V::V)> {
    e.map_values(|x: (String, V)| (x.0@, x.1@))
}

fn insert_entry<V: View>(entries: &mut Vec<(String, V)>, key: String, value: V)
    requires
        keys_sorted(entries_view(old(entries)@)),
    ensures
        keys_sorted(entries_view(final(entries)@)),
        entries_view(final(entries)@) == seq_insert(entries_view(old(entries)@), key@, value@),
{
    let ghost s = entries_view(entries@);
    let ghost kv = key@;
    let ghost vv = value@;
    let mut i: usize = 0;
    while i < entries.len()
        invariant
            entries_view(entries@) == s,
            s == entries_view(old(entries)@),
            keys_sorted(s),
            kv == key@,
            vv == value@,
            i <= s.len(),
            forall|j: int| 0 <= j < i ==> seq_lt(#[trigger] s[j].0, kv),
        decreases s.len() - i,
    {
        let c = compare_strs(entries[i].0.as_str(), key.as_str());
        assert(s[i as int] == (entries@[i as int].0@, entries@[i as int].1@));
        if c >= 0 {
            proof {
                lemma_lt_irrefl(kv);
                lemma_lt_asym(kv, s[i as int].0);
                lemma_insert_at(s, kv, vv, i as int);
                lemma_sorted_insert(s, kv, vv);
            }
            if c == 0 {
                entries.set(i, (key, value));
                assert(entries_view(entries@) =~= s.update(i as int, (kv, vv)));
            } else {
                entries.insert(i, (key, value));
                assert(entries_view(entries@) =~= s.insert(i as int, (kv, vv)));
            }
            return ;
        }
        i += 1;
    }
    proof {
        lemma_insert_at(s, kv, vv, i as int);
        lemma_sorted_insert(s, kv, vv);
    }
    entries.push((key, value));
    assert(entries_view(entries@) =~= s.insert(i as int, (kv, vv)));
}

/// A map from strings to values, ordered by key like `BTreeMap<String, V>`.
#[derive(Debug)]
pub struct StrMap<V> {
    entries: Vec<(String, V)>,
}

impl<V: View> View for StrMap<V> {
    type V = Seq<(Seq<char>, V::V)>;

    closed spec fn view(&self) -> Self::V {
        entries_view(self.entries@)
    }
}

impl<V: View> StrMap<V> {
    /// Keys are kept in strictly increasing order.
    pub open spec fn wf(&self) -> bool {
        keys_sorted(self@)
    }

    pub fn new() -> (m: Self)
        ensures
            m@ == Seq::<(Seq<char>, V::V)>::empty(),
            m.wf(),
    {
        let m = StrMap { entries: Vec::new() };
        assert(m@ =~= Seq::<(Seq<char>, V::V)>::empty());
        m
    }

    pub fn len(&self) -> (n: usize)
        ensures
            n == self@.len(),
    {
        self.entries.len()
    }

    /// Inserts `value` under `key`, replacing an earlier value of that key.
    pub fn insert(&mut self, key: String, value: V)
        requires
            old(self).wf(),
        ensures
            final(self).wf(),
            final(self)@ == seq_insert(old(self)@, key@, value@),
    {
        insert_entry(&mut self.entries, key, value);
    }

    /// Position of `key`, if present.
    fn find(&self, key: &str) -> (r: Option<usize>)
        ensures
            match r {
                Some(i) => i < self@.len() && self@[i as int].0 == key@ && seq_get(self@, key@)
                    == Some(self@[i as int].1),
                None => seq_get(self@, key@) is None,
            },
    {
        let mut i: usize = 0;
        while i < self.entries.len()
            invariant
                i <= self@.len(),
                forall|j: int| 0 <= j < i ==> #[trigger] self@[j].0 != key@,
            decreases self@.len() - i,
        {
            let c = compare_strs(self.entries[i].0.as_str(), key);
            assert(self@[i as int] == (self.entries@[i as int].0@, self.entries@[i as int].1@));
            if c == 0 {
                proof {
                    lemma_get_at(self@, key@, i as int);
                }
                return Some(i);
            }
            i += 1;
        }
        proof {
            lemma_get_at(self@, key@, i as int);
        }
        None
    }

    pub fn get(&self, key: &str) -> (r: Option<&V>)
        ensures
            match r {
                Some(v) => seq_get(self@, key@) == Some(v@),
                None => seq_get(self@, key@) is None,
            },
    {
        match self.find(key) {
            Some(i) => {
                assert(self@[i as int].1 == self.entries@[i as int].1@);
                Some(&self.entries[i].1)
            },
            None => None,
        }
    }

    /// A mutable handle on the value stored under `key`.
    pub fn get_mut(&mut self, key: &str) -> (r: Option<&mut V>)
        requires
            old(self).wf(),
        ensures
            r is Some <==> seq_get(old(self)@, key@) is Some,
            r matches Some(v) ==> seq_get(old(self)@, key@) == Some((*v)@),
            r matches Some(v) ==> final(self)@ == seq_insert(old(self)@, key@, (*final(v))@),
            r matches Some(v) ==> keys_sorted(seq_insert(old(self)@, key@, (*final(v))@)),
            r is None ==> final(self)@ == old(self)@,
    {
        match self.find(key) {
            Some(i) => {
                let ghost s = self@;
                let ghost k = key@;
                assert(self@[i as int].1 == self.entries@[i as int].1@);
                proof {
                    assert forall|j: int| 0 <= j < i implies seq_lt(#[trigger] s[j].0, k) by {
                        assert(seq_lt(s[j].0, s[i as int].0));
                    }
                    assert forall|x: V::V| #[trigger] seq_insert(s, k, x) == s.update(
                        i as int,
                        (k, x),
                    ) && keys_sorted(seq_insert(s, k, x)) by {
                        lemma_lt_irrefl(k);
                        lemma_insert_at(s, k, x, i as int);
                        lemma_sorted_insert(s, k, x);
                    }
                }
                let e = &mut self.entries[i];
                Some(&mut e.1)
            },
            None => None,
        }
    }

    /// A mutable handle on the value at position `i` in key order.
    pub fn value_at_mut(&mut self, i: usize) -> (r: &mut V)
        requires
            i < old(self)@.len(),
        ensures
            (*r)@ == old(self)@[i as int].1,
            final(self)@ == old(self)@.update(i as int, (old(self)@[i as int].0, (*final(r))@)),
    {
        assert(self@[i as int].1 == self.entries@[i as int].1@);
        let e = &mut self.entries[i];
        &mut e.1
    }

    /// The key and value at position `i` in key order.
    pub fn entry(&self, i: usize) -> (r: (&String, &V))
        requires
            i < self@.len(),
        ensures
            (r.0@, r.1@) == self@[i as int],
    {
        let e = &self.entries[i];
        (&e.0, &e.1)
    }
}

} // verus!
