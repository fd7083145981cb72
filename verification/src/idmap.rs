//! A small verified map keyed by 128-bit ids, kept as an association list
//! with unique keys. The in-process registries (sessions, channel
//! subscribers, presence, voice, token results) are built on it.

use vstd::prelude::*;

verus! {

/// First value bound to `k` in `s`, if any.
pub open spec fn spec_lookup<V>(s: Seq<(u128, V)>, k: u128) -> Option<V>
    decreases s.len(),
{
    if s.len() == 0 {
        None
    } else if s[0].0 == k {
        Some(s[0].1)
    } else {
        spec_lookup(s.skip(1), k)
    }
}

/// The keys of `s`, in order.
pub open spec fn spec_keys<V>(s: Seq<(u128, V)>) -> Seq<u128> {
    s.map_values(|p: (u128, V)| p.0)
}

/// No key occurs twice.
pub open spec fn unique_keys<V>(s: Seq<(u128, V)>) -> bool {
    forall|i: int, j: int| 0 <= i < j < s.len() ==> s[i].0 != s[j].0
}

/// A lookup hits exactly when some entry carries the key.
pub proof fn lemma_lookup_some<V>(s: Seq<(u128, V)>, k: u128)
    ensures
        spec_lookup(s, k) is Some <==> exists|i: int| 0 <= i < s.len() && s[i].0 == k,
        spec_lookup(s, k) is Some ==> exists|i: int|
            0 <= i < s.len() && s[i].0 == k && spec_lookup(s, k) == Some(s[i].1),
    decreases s.len(),
{
    if s.len() > 0 {
        lemma_lookup_some(s.skip(1), k);
        if s[0].0 != k {
            if spec_lookup(s.skip(1), k) is Some {
                let i = choose|i: int|
                    0 <= i < s.skip(1).len() && s.skip(1)[i].0 == k && spec_lookup(s.skip(1), k)
                        == Some(s.skip(1)[i].1);
                assert(s[i + 1].0 == k && spec_lookup(s, k) == Some(s[i + 1].1));
            }
            if exists|i: int| 0 <= i < s.len() && s[i].0 == k {
                let i = choose|i: int| 0 <= i < s.len() && s[i].0 == k;
                assert(s.skip(1)[i - 1].0 == k);
            }
        }
    }
}

/// When keys are unique, the entry at any index is what lookup returns for
/// its key.
pub proof fn lemma_lookup_index<V>(s: Seq<(u128, V)>, i: int)
    requires
        unique_keys(s),
        0 <= i < s.len(),
    ensures
        spec_lookup(s, s[i].0) == Some(s[i].1),
    decreases s.len(),
{
    if i > 0 {
        assert(s[0].0 != s[i].0);
        assert(s.skip(1)[i - 1] == s[i]);
        lemma_lookup_index(s.skip(1), i - 1);
    }
}

/// A map from 128-bit ids to values, with each key bound at most once.
pub struct IdMap<V> {
    pub entries: Vec<(u128, V)>,
}

impl<V> IdMap<V> {
    pub open spec fn wf(&self) -> bool {
        unique_keys(self.entries@)
    }

    pub open spec fn spec_get(&self, k: u128) -> Option<V> {
        spec_lookup(self.entries@, k)
    }

    pub open spec fn contains(&self, k: u128) -> bool {
        self.spec_get(k) is Some
    }

    pub fn new() -> (r: Self)
        ensures
            r.wf(),
            forall|k: u128| r.spec_get(k) is None,
            r.entries@.len() == 0,
    {
        IdMap { entries: Vec::new() }
    }

    pub fn len(&self) -> (r: usize)
        ensures
            r == self.entries@.len(),
    {
        self.entries.len()
    }

    fn index_of(&self, k: u128) -> (r: Option<usize>)
        ensures
            match r {
                Some(i) => i < self.entries@.len() && self.entries@[i as int].0 == k
                    && (forall|j: int| 0 <= j < i ==> self.entries@[j].0 != k),
                None => forall|j: int| 0 <= j < self.entries@.len() ==> self.entries@[j].0 != k,
            },
    {
        let mut i: usize = 0;
        while i < self.entries.len()
            invariant
                i <= self.entries@.len(),
                forall|j: int| 0 <= j < i ==> self.entries@[j].0 != k,
            decreases self.entries@.len() - i,
        {
            if self.entries[i].0 == k {
                return Some(i);
            }
            i = i + 1;
        }
        None
    }

    pub fn get(&self, k: u128) -> (r: Option<&V>)
        requires
            self.wf(),
        ensures
            match r {
                Some(v) => self.spec_get(k) == Some(*v),
                None => self.spec_get(k) is None,
            },
    {
        proof {
            lemma_lookup_some(self.entries@, k);
        }
        match self.index_of(k) {
            Some(i) => {
                proof {
                    lemma_lookup_index(self.entries@, i as int);
                }
                Some(&self.entries[i].1)
            },
            None => None,
        }
    }

    pub fn contains_key(&self, k: u128) -> (r: bool)
        requires
            self.wf(),
        ensures
            r == self.contains(k),
    {
        self.get(k).is_some()
    }

    /// Bind `k` to `v`, replacing any earlier binding.
    pub fn insert(&mut self, k: u128, v: V)
        requires
            old(self).wf(),
        ensures
            final(self).wf(),
            final(self).spec_get(k) == Some(v),
            forall|k2: u128| k2 != k ==> final(self).spec_get(k2) == old(self).spec_get(k2),
            final(self).entries@.len() <= old(self).entries@.len() + 1,
    {
        let ghost pre = self.entries@;
        match self.index_of(k) {
            Some(i) => {
                self.entries.remove(i);
                proof {
                    lemma_remove_preserves(pre, i as int, k);
                }
                self.push_new(k, v);
            },
            None => {
                proof {
                    lemma_lookup_some(pre, k);
                }
                self.push_new(k, v);
            },
        }
    }

    /// Append an entry whose key is absent.
    fn push_new(&mut self, k: u128, v: V)
        requires
            old(self).wf(),
            forall|j: int| 0 <= j < old(self).entries@.len() ==> old(self).entries@[j].0 != k,
        ensures
            final(self).wf(),
            final(self).spec_get(k) == Some(v),
            forall|k2: u128| k2 != k ==> final(self).spec_get(k2) == old(self).spec_get(k2),
            final(self).entries@.len() == old(self).entries@.len() + 1,
    {
        let ghost pre = self.entries@;
        self.entries.push((k, v));
        proof {
            assert(self.entries@.drop_last() =~= pre);
            lemma_push_lookup(pre, k, v);
        }
    }

    /// Remove the binding of `k`, returning its value.
    pub fn take(&mut self, k: u128) -> (r: Option<V>)
        requires
            old(self).wf(),
        ensures
            final(self).wf(),
            r == old(self).spec_get(k),
            final(self).spec_get(k) is None,
            forall|k2: u128| k2 != k ==> final(self).spec_get(k2) == old(self).spec_get(k2),
            final(self).entries@.len() <= old(self).entries@.len(),
            r is None ==> *final(self) == *old(self),
    {
        let ghost pre = self.entries@;
        match self.index_of(k) {
            Some(i) => {
                proof {
                    lemma_lookup_index(pre, i as int);
                    lemma_remove_preserves(pre, i as int, k);
                }
                let (_, v) = self.entries.remove(i);
                proof {
                    lemma_lookup_some(self.entries@, k);
                }
                Some(v)
            },
            None => {
                proof {
                    lemma_lookup_some(pre, k);
                }
                None
            },
        }
    }

    /// The keys currently bound, in insertion order.
    pub fn keys(&self) -> (r: Vec<u128>)
        ensures
            r@ == spec_keys(self.entries@),
    {
        let mut out: Vec<u128> = Vec::new();
        let mut i: usize = 0;
        while i < self.entries.len()
            invariant
                i <= self.entries@.len(),
                out@ =~= spec_keys(self.entries@.take(i as int)),
            decreases self.entries@.len() - i,
        {
            out.push(self.entries[i].0);
            proof {
                assert(self.entries@.take(i + 1 as int).drop_last() =~= self.entries@.take(
                    i as int,
                ));
                assert(out@ =~= spec_keys(self.entries@.take(i + 1 as int)));
            }
            i = i + 1;
        }
        proof {
            assert(self.entries@.take(self.entries@.len() as int) =~= self.entries@);
        }
        out
    }
}

/// Walking a unique-keyed list one entry further: the lookup of the entry's
/// own key becomes that entry; every other lookup is unchanged.
pub proof fn lemma_lookup_take_next<V>(s: Seq<(u128, V)>, i: int)
    requires
        unique_keys(s),
        0 <= i < s.len(),
    ensures
        forall|u: u128|
            spec_lookup(s.take(i + 1), u) == (if u == s[i].0 {
                Some(s[i].1)
            } else {
                spec_lookup(s.take(i), u)
            }),
{
    let t = s.take(i);
    assert(s.take(i + 1) =~= t.push(s[i]));
    assert(forall|a: int, b: int| 0 <= a < b < t.len() ==> t[a].0 != t[b].0);
    assert forall|j: int| 0 <= j < t.len() implies t[j].0 != s[i].0 by {
        assert(t[j] == s[j]);
    }
    assert(s[i] == (s[i].0, s[i].1));
    lemma_push_lookup(t, s[i].0, s[i].1);
}

/// Removing the sole entry of a key makes lookups of it miss and leaves every
/// other key's lookup unchanged.
proof fn lemma_remove_preserves<V>(s: Seq<(u128, V)>, i: int, k: u128)
    requires
        unique_keys(s),
        0 <= i < s.len(),
        s[i].0 == k,
    ensures
        unique_keys(s.remove(i)),
        forall|k2: u128| k2 != k ==> spec_lookup(s.remove(i), k2) == spec_lookup(s, k2),
        forall|j: int| 0 <= j < s.remove(i).len() ==> s.remove(i)[j].0 != k,
    decreases s.len(),
{
    let t = s.remove(i);
    assert forall|j: int| 0 <= j < t.len() implies t[j].0 != k by {
        if j < i {
            assert(t[j] == s[j]);
        } else {
            assert(t[j] == s[j + 1]);
        }
    }
    assert forall|k2: u128| k2 != k implies spec_lookup(t, k2) == spec_lookup(s, k2) by {
        lemma_remove_lookup_other(s, i, k2);
    }
}

proof fn lemma_remove_lookup_other<V>(s: Seq<(u128, V)>, i: int, k2: u128)
    requires
        0 <= i < s.len(),
        s[i].0 != k2,
    ensures
        spec_lookup(s.remove(i), k2) == spec_lookup(s, k2),
    decreases s.len(),
{
    if i == 0 {
        assert(s.remove(0) =~= s.skip(1));
    } else {
        if s[0].0 == k2 {
            assert(s.remove(i)[0] == s[0]);
        } else {
            assert(s.remove(i).skip(1) =~= s.skip(1).remove(i - 1));
            lemma_remove_lookup_other(s.skip(1), i - 1, k2);
        }
    }
}

/// Appending a fresh key binds it and leaves the other keys' lookups alone.
proof fn lemma_push_lookup<V>(s: Seq<(u128, V)>, k: u128, v: V)
    requires
        forall|j: int| 0 <= j < s.len() ==> s[j].0 != k,
        unique_keys(s),
    ensures
        unique_keys(s.push((k, v))),
        spec_lookup(s.push((k, v)), k) == Some(v),
        forall|k2: u128| k2 != k ==> spec_lookup(s.push((k, v)), k2) == spec_lookup(s, k2),
    decreases s.len(),
{
    let t = s.push((k, v));
    if s.len() == 0 {
        assert(t[0] == (k, v));
        assert(t.skip(1) =~= Seq::<(u128, V)>::empty());
        assert forall|k2: u128| k2 != k implies spec_lookup(t, k2) == spec_lookup(s, k2) by {
            assert(spec_lookup(t, k2) == spec_lookup(t.skip(1), k2));
            assert(spec_lookup(t.skip(1), k2) == None::<V>);
            assert(spec_lookup(s, k2) == None::<V>);
        }
    } else {
        assert(t[0] == s[0]);
        assert(t.skip(1) =~= s.skip(1).push((k, v)));
        lemma_push_lookup(s.skip(1), k, v);
        lemma_lookup_some(s.skip(1).push((k, v)), k);
        assert forall|k2: u128| k2 != k implies spec_lookup(t, k2) == spec_lookup(s, k2) by {
            if s[0].0 != k2 {
                assert(spec_lookup(t, k2) == spec_lookup(t.skip(1), k2));
                assert(spec_lookup(t.skip(1), k2) == spec_lookup(s.skip(1), k2));
            }
        }
    }
}

} // verus!
