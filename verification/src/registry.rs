//! A table of values, each under a name of its own, kept in the order in which the
//! names first came.
use vstd::prelude::*;
use crate::text::same_text;

verus! {

/// The value under the name `k` in the list of pairs `s`.
pub open spec fn lookup<T>(s: Seq<(Seq<char>, T)>, k: Seq<char>) -> Option<T>
    decreases s.len(),
{
    if s.len() == 0 {
        None
    } else if s[0].0 == k {
        Some(s[0].1)
    } else {
        lookup(s.drop_first(), k)
    }
}

/// The list `s` with the value `v` under the name `k`: in the place of the pair
/// that had the name, or behind all the others.
pub open spec fn put<T>(s: Seq<(Seq<char>, T)>, k: Seq<char>, v: T) -> Seq<(Seq<char>, T)>
    decreases s.len(),
{
    if s.len() == 0 {
        seq![(k, v)]
    } else if s[0].0 == k {
        seq![(k, v)] + s.drop_first()
    } else {
        seq![s[0]] + put(s.drop_first(), k, v)
    }
}

/// No two pairs have the same name.
pub open spec fn distinct<T>(s: Seq<(Seq<char>, T)>) -> bool {
    forall|i: int, j: int| 0 <= i < j < s.len() ==> s[i].0 != s[j].0
}

/// The values of the pairs.
pub open spec fn values<T>(s: Seq<(Seq<char>, T)>) -> Seq<T> {
    s.map_values(|e: (Seq<char>, T)| e.1)
}

/// Where the name `k` first stands at `i`, `put` updates that place.
pub proof fn lemma_put_at<T>(s: Seq<(Seq<char>, T)>, k: Seq<char>, v: T, i: int)
    requires
        0 <= i < s.len(),
        s[i].0 == k,
        forall|j: int| 0 <= j < i ==> s[j].0 != k,
    ensures
        put(s, k, v) == s.update(i, (k, v)),
        lookup(s, k) == Some(s[i].1),
    decreases s.len(),
{
    if i == 0 {
        assert(put(s, k, v) =~= s.update(i, (k, v)));
    } else {
        assert(s[0].0 != k);
        let t = s.drop_first();
        assert forall|j: int| 0 <= j < i - 1 implies t[j].0 != k by {
            assert(t[j] == s[j + 1]);
        }
        lemma_put_at(t, k, v, i - 1);
        assert(put(s, k, v) =~= s.update(i, (k, v)));
    }
}

/// Where the name `k` does not stand, `put` appends.
pub proof fn lemma_put_new<T>(s: Seq<(Seq<char>, T)>, k: Seq<char>, v: T)
    requires
        forall|j: int| 0 <= j < s.len() ==> s[j].0 != k,
    ensures
        put(s, k, v) == s.push((k, v)),
        lookup(s, k) is None,
    decreases s.len(),
{
    if s.len() > 0 {
        assert(s[0].0 != k);
        let t = s.drop_first();
        assert forall|j: int| 0 <= j < t.len() implies t[j].0 != k by {
            assert(t[j] == s[j + 1]);
        }
        lemma_put_new(t, k, v);
    }
    assert(put(s, k, v) =~= s.push((k, v)));
}

/// A name is found exactly where a pair has it.
pub proof fn lemma_lookup_place<T>(s: Seq<(Seq<char>, T)>, k: Seq<char>)
    ensures
        lookup(s, k) is Some ==> exists|i: int| #[trigger]
            place(s, k, i) && lookup(s, k) == Some(s[i].1),
        lookup(s, k) is None ==> forall|i: int| 0 <= i < s.len() ==> s[i].0 != k,
    decreases s.len(),
{
    if s.len() > 0 {
        if s[0].0 == k {
            assert(place(s, k, 0));
        } else {
            let t = s.drop_first();
            lemma_lookup_place(t, k);
            if lookup(t, k) is Some {
                let i = choose|i: int| #[trigger] place(t, k, i) && lookup(t, k) == Some(t[i].1);
                assert(s[i + 1] == t[i]);
                assert forall|j: int| 0 <= j < i + 1 implies s[j].0 != k by {
                    if j > 0 {
                        assert(s[j] == t[j - 1]);
                    }
                }
                assert(place(s, k, i + 1));
            } else {
                assert forall|i: int| 0 <= i < s.len() implies s[i].0 != k by {
                    if i > 0 {
                        assert(s[i] == t[i - 1]);
                    }
                }
            }
        }
    }
}

/// `i` is the first place of the name `k`.
pub open spec fn place<T>(s: Seq<(Seq<char>, T)>, k: Seq<char>, i: int) -> bool {
    &&& 0 <= i < s.len()
    &&& s[i].0 == k
    &&& forall|j: int| 0 <= j < i ==> s[j].0 != k
}

/// What was put under a name is found under it, and every other name keeps what
/// it had.
pub proof fn law_lookup_put<T>(s: Seq<(Seq<char>, T)>, k: Seq<char>, v: T, other: Seq<char>)
    ensures
        lookup(put(s, k, v), k) == Some(v),
        other != k ==> lookup(put(s, k, v), other) == lookup(s, other),
    decreases s.len(),
{
    if s.len() == 0 {
        assert(put(s, k, v).drop_first() =~= Seq::<(Seq<char>, T)>::empty());
        assert(lookup(Seq::<(Seq<char>, T)>::empty(), other) is None);
    } else if s[0].0 == k {
        assert(put(s, k, v).drop_first() =~= s.drop_first());
    } else {
        law_lookup_put(s.drop_first(), k, v, other);
        assert(put(s, k, v).drop_first() =~= put(s.drop_first(), k, v));
    }
}

/// Putting a value keeps the names distinct.
pub proof fn lemma_put_distinct<T>(s: Seq<(Seq<char>, T)>, k: Seq<char>, v: T)
    requires
        distinct(s),
    ensures
        distinct(put(s, k, v)),
{
    lemma_lookup_place(s, k);
    if lookup(s, k) is Some {
        let i = choose|i: int| #[trigger] place(s, k, i) && lookup(s, k) == Some(s[i].1);
        lemma_put_at(s, k, v, i);
    } else {
        lemma_put_new(s, k, v);
    }
}

/// A table of values, each under a name of its own.
#[derive(Debug)]
pub struct Registry<V> {
    pub entries: Vec<(String, V)>,
}

impl<V: View> View for Registry<V> {
    type V = Seq<(Seq<char>, V::V)>;

    open spec fn view(&self) -> Seq<(Seq<char>, V::V)> {
        self.entries@.map_values(|e: (String, V)| (e.0@, e.1@))
    }
}

impl<V: View> Registry<V> {
    /// No two entries have the same name.
    pub open spec fn wf(&self) -> bool {
        distinct(self@)
    }

    /// A table without entries.
    pub fn new() -> (r: Self)
        ensures
            r.wf(),
            r@ == Seq::<(Seq<char>, V::V)>::empty(),
    {
        let r = Registry { entries: Vec::new() };
        assert(r@ =~= Seq::<(Seq<char>, V::V)>::empty());
        r
    }

    /// The place of the entry named `key`.
    pub fn find(&self, key: &str) -> (r: Option<usize>)
        ensures
            (match r {
                Some(i) => place(self@, key@, i as int) && lookup(self@, key@) == Some(
                    self.entries@[i as int].1@,
                ),
                None => lookup(self@, key@) is None && forall|j: int|
                    0 <= j < self@.len() ==> self@[j].0 != key@,
            }),
    {
        let n: usize = self.entries.len();
        let mut i: usize = 0;
        while i < n
            invariant
                i <= n,
                n == self.entries@.len(),
                forall|j: int| 0 <= j < i ==> self@[j].0 != key@,
            decreases n - i,
        {
            assert(self@[i as int].0 == self.entries@[i as int].0@);
            if same_text(self.entries[i].0.as_str(), key) {
                proof {
                    lemma_put_at(self@, key@, self@[i as int].1, i as int);
                }
                return Some(i);
            }
            i = i + 1;
        }
        proof {
            if self@.len() > 0 {
                lemma_put_new(self@, key@, self@[0].1);
            }
        }
        None
    }

    /// The value under the name `key`.
    pub fn get(&self, key: &str) -> (r: Option<&V>)
        ensures
            (match r {
                Some(v) => lookup(self@, key@) == Some(v@),
                None => lookup(self@, key@) is None,
            }),
    {
        match self.find(key) {
            Some(i) => Some(&self.entries[i].1),
            None => None,
        }
    }

    /// Puts `value` under the name `key`.
    pub fn insert(&mut self, key: String, value: V)
        requires
            old(self).wf(),
        ensures
            final(self).wf(),
            final(self)@ == put(old(self)@, key@, value@),
    {
        proof {
            lemma_put_distinct(self@, key@, value@);
        }
        match self.find(key.as_str()) {
            Some(i) => {
                let ghost s = self@;
                self.entries[i] = (key, value);
                proof {
                    lemma_put_at(s, key@, value@, i as int);
                    assert(self@ =~= s.update(i as int, (key@, value@)));
                }
            },
            None => {
                let ghost s = self@;
                self.entries.push((key, value));
                proof {
                    lemma_put_new(s, key@, value@);
                    assert(self@ =~= s.push((key@, value@)));
                }
            },
        }
    }
}

/// Where a value is put: in the place of the one that has the name, or behind all the
/// others, so that the names keep their order.
pub proof fn law_names_keep_their_order<T>(s: Seq<(Seq<char>, T)>, k: Seq<char>, v: T, i: int)
    requires
        0 <= i < s.len(),
    ensures
        put(s, k, v)[i].0 == s[i].0,
        s[i].0 != k ==> put(s, k, v)[i] == s[i],
        lookup(s, k) is Some ==> put(s, k, v).len() == s.len(),
        lookup(s, k) is None ==> put(s, k, v).len() == s.len() + 1 && put(s, k, v)[s.len() as int]
            == (k, v),
{
    lemma_lookup_place(s, k);
    if lookup(s, k) is Some {
        let j = choose|j: int| #[trigger] place(s, k, j) && lookup(s, k) == Some(s[j].1);
        lemma_put_at(s, k, v, j);
    } else {
        lemma_put_new(s, k, v);
    }
}

/// What a registry says: its entries in turn, each name with its value.
pub proof fn law_entries_of_a_registry<V: View>(r: Registry<V>, i: int)
    ensures
        r@.len() == r.entries@.len(),
        0 <= i < r.entries@.len() ==> r@[i].0 == r.entries@[i].0@ && r@[i].1 == r.entries@[i].1@,
{
}

/// The names are told apart exactly where no two places have the same one; one more pair
/// keeps that exactly where its name is new.
pub proof fn law_names_are_told_apart<T>(s: Seq<(Seq<char>, T)>, i: int, j: int, k: Seq<char>, v: T)
    requires
        0 <= i < s.len(),
        0 <= j < s.len(),
        distinct(s),
    ensures
        i != j ==> s[i].0 != s[j].0,
        distinct(s.push((k, v))) <==> lookup(s, k) is None,
{
    lemma_lookup_place(s, k);
    let t = s.push((k, v));
    if lookup(s, k) is Some {
        let n = choose|n: int| #[trigger] place(s, k, n) && lookup(s, k) == Some(s[n].1);
        assert(t[n].0 == t[s.len() as int].0);
    } else {
        assert forall|a: int, b: int| 0 <= a < b < t.len() implies t[a].0 != t[b].0 by {
            if b == s.len() {
                assert(s[a].0 != k);
            } else {
                assert(s[a].0 != s[b].0);
            }
        }
    }
}

} // verus!
