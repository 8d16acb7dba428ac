//! A key-value store with per-entry expiry: the working-memory cache that
//! holds embedding entries, session contexts, the mental state and the daily
//! reflection markers.
//!
//! The store is modelled as a map from key to value and optional expiry
//! instant. An entry with an expiry is visible to `get` only strictly before
//! that instant; an entry without one never expires. Writes are last-writer-
//! wins, matching the accepted policy for the shared mental state.

use vstd::prelude::*;

verus! {


/// One stored binding: a key, its value, and the instant (UTC seconds) at
/// which it stops being visible, if any.
pub struct KvEntry {
    pub key: String,
    pub value: String,
    pub expires_at: Option<i64>,
}

/// A key occurs somewhere in the entry list.
pub open spec fn has_key(s: Seq<KvEntry>, k: Seq<char>) -> bool {
    exists|i: int| 0 <= i < s.len() && (#[trigger] s[i].key@) == k
}

/// No two entries share a key.
pub open spec fn unique_keys(s: Seq<KvEntry>) -> bool {
    forall|i: int, j: int|
        #![trigger s[i].key, s[j].key]
        0 <= i < j < s.len() ==> s[i].key@ != s[j].key@
}

/// The map described by an entry list, later entries winning.
pub open spec fn view_of(s: Seq<KvEntry>) -> Map<Seq<char>, (Seq<char>, Option<i64>)>
    decreases s.len(),
{
    if s.len() == 0 {
        Map::empty()
    } else {
        view_of(s.drop_last()).insert(s.last().key@, (s.last().value@, s.last().expires_at))
    }
}

/// An entry that is visible at instant `now`.
pub open spec fn entry_live(e: (Seq<char>, Option<i64>), now: i64) -> bool {
    match e.1 {
        None => true,
        Some(exp) => now < exp,
    }
}

proof fn lemma_view_contains(s: Seq<KvEntry>, k: Seq<char>)
    ensures
        view_of(s).contains_key(k) <==> has_key(s, k),
    decreases s.len(),
{
    if s.len() > 0 {
        lemma_view_contains(s.drop_last(), k);
        if s.last().key@ == k {
            assert(s[s.len() - 1].key@ == k);
        } else {
            if has_key(s.drop_last(), k) {
                let i = choose|i: int|
                    0 <= i < s.drop_last().len() && (#[trigger] s.drop_last()[i].key@) == k;
                assert(s[i].key@ == k);
            }
            if has_key(s, k) {
                let i = choose|i: int| 0 <= i < s.len() && (#[trigger] s[i].key@) == k;
                assert(i < s.len() - 1);
                assert(s.drop_last()[i].key@ == k);
            }
        }
    }
}

proof fn lemma_view_at(s: Seq<KvEntry>, i: int)
    requires
        0 <= i < s.len(),
        forall|j: int| i < j < s.len() ==> (#[trigger] s[j].key@) != s[i].key@,
    ensures
        view_of(s).contains_key(s[i].key@),
        view_of(s)[s[i].key@] == (s[i].value@, s[i].expires_at),
    decreases s.len(),
{
    if i == s.len() - 1 {
        assert(s.last() == s[i]);
    } else {
        assert(s.drop_last()[i] == s[i]);
        lemma_view_at(s.drop_last(), i);
        assert(s.last().key@ != s[i].key@);
    }
}

proof fn lemma_view_update(s: Seq<KvEntry>, i: int, e: KvEntry)
    requires
        unique_keys(s),
        0 <= i < s.len(),
        s[i].key@ == e.key@,
    ensures
        unique_keys(s.update(i, e)),
        view_of(s.update(i, e)) == view_of(s).insert(e.key@, (e.value@, e.expires_at)),
    decreases s.len(),
{
    let s2 = s.update(i, e);
    assert forall|p: int, q: int|
        #![trigger s2[p].key, s2[q].key]
        0 <= p < q < s2.len() implies s2[p].key@ != s2[q].key@ by {
        assert(s[p].key@ != s[q].key@);
    }
    if i == s.len() - 1 {
        assert(s2.drop_last() =~= s.drop_last());
        assert(s2.last() == e);
        assert(view_of(s2) == view_of(s.drop_last()).insert(e.key@, (e.value@, e.expires_at)));
        assert(view_of(s).insert(e.key@, (e.value@, e.expires_at)) == view_of(
            s.drop_last(),
        ).insert(s.last().key@, (s.last().value@, s.last().expires_at)).insert(
            e.key@,
            (e.value@, e.expires_at),
        ));
        assert(view_of(s.drop_last()).insert(s.last().key@, (
            s.last().value@,
            s.last().expires_at,
        )).insert(e.key@, (e.value@, e.expires_at)) =~= view_of(s.drop_last()).insert(
            e.key@,
            (e.value@, e.expires_at),
        ));
    } else {
        assert(s2.drop_last() =~= s.drop_last().update(i, e));
        assert(s2.last() == s.last());
        assert forall|p: int, q: int|
            #![trigger s.drop_last()[p].key, s.drop_last()[q].key]
            0 <= p < q < s.drop_last().len() implies s.drop_last()[p].key@ != s.drop_last()[q].key@ by {
            assert(s[p].key@ != s[q].key@);
        }
        assert(s.drop_last()[i] == s[i]);
        lemma_view_update(s.drop_last(), i, e);
        assert(s.last().key@ != e.key@) by {
            assert(s[i].key@ != s[s.len() - 1].key@);
        }
        assert(view_of(s2) == view_of(s.drop_last()).insert(e.key@, (
            e.value@,
            e.expires_at,
        )).insert(s.last().key@, (s.last().value@, s.last().expires_at)));
        assert(view_of(s.drop_last()).insert(e.key@, (e.value@, e.expires_at)).insert(
            s.last().key@,
            (s.last().value@, s.last().expires_at),
        ) =~= view_of(s).insert(e.key@, (e.value@, e.expires_at)));
    }
}

proof fn lemma_view_remove(s: Seq<KvEntry>, i: int)
    requires
        unique_keys(s),
        0 <= i < s.len(),
    ensures
        unique_keys(s.remove(i)),
        view_of(s.remove(i)) == view_of(s).remove(s[i].key@),
    decreases s.len(),
{
    let k = s[i].key@;
    let s2 = s.remove(i);
    assert forall|p: int, q: int|
        #![trigger s2[p].key, s2[q].key]
        0 <= p < q < s2.len() implies s2[p].key@ != s2[q].key@ by {
        let p0: int = if p < i {
            p
        } else {
            p + 1
        };
        let q0: int = if q < i {
            q
        } else {
            q + 1
        };
        assert(s2[p] == s[p0] && s2[q] == s[q0]);
        assert(s[p0].key@ != s[q0].key@);
    }
    if i == s.len() - 1 {
        assert(s2 =~= s.drop_last());
        assert(!has_key(s.drop_last(), k)) by {
            if has_key(s.drop_last(), k) {
                let j = choose|j: int|
                    0 <= j < s.drop_last().len() && (#[trigger] s.drop_last()[j].key@) == k;
                assert(s[j].key@ == s[i].key@);
                assert(false);
            }
        }
        lemma_view_contains(s.drop_last(), k);
        assert(view_of(s).remove(k) == view_of(s.drop_last()).insert(k, (
            s.last().value@,
            s.last().expires_at,
        )).remove(k));
        assert(view_of(s.drop_last()).insert(k, (s.last().value@, s.last().expires_at)).remove(k)
            =~= view_of(s.drop_last()));
    } else {
        assert(s2.drop_last() =~= s.drop_last().remove(i));
        assert(s2.last() == s.last());
        assert forall|p: int, q: int|
            #![trigger s.drop_last()[p].key, s.drop_last()[q].key]
            0 <= p < q < s.drop_last().len() implies s.drop_last()[p].key@ != s.drop_last()[q].key@ by {
            assert(s[p].key@ != s[q].key@);
        }
        assert(s.drop_last()[i] == s[i]);
        lemma_view_remove(s.drop_last(), i);
        assert(s.last().key@ != k) by {
            assert(s[i].key@ != s[s.len() - 1].key@);
        }
        assert(view_of(s2) == view_of(s.drop_last()).remove(k).insert(s.last().key@, (
            s.last().value@,
            s.last().expires_at,
        )));
        assert(view_of(s.drop_last()).remove(k).insert(s.last().key@, (
            s.last().value@,
            s.last().expires_at,
        )) =~= view_of(s).remove(k));
    }
}

/// The cache store itself. Its abstract value is the map of live and expired
/// bindings; expiry is judged at lookup time against the caller's clock.
pub struct KvStore {
    entries: Vec<KvEntry>,
}

impl View for KvStore {
    type V = Map<Seq<char>, (Seq<char>, Option<i64>)>;

    closed spec fn view(&self) -> Map<Seq<char>, (Seq<char>, Option<i64>)> {
        view_of(self.entries@)
    }
}

impl KvStore {
    /// Internal well-formedness: no two entries share a key. Constructors
    /// establish it and every method preserves it.
    pub closed spec fn wf(self) -> bool {
        unique_keys(self.entries@)
    }

    /// An empty store.
    pub fn new() -> (s: KvStore)
        ensures
            s@ == Map::<Seq<char>, (Seq<char>, Option<i64>)>::empty(),
            s.wf(),
    {
        KvStore { entries: Vec::new() }
    }

    fn find_index(&self, key: &String) -> (r: Option<usize>)
        ensures
            match r {
                Some(i) => i < self.entries@.len() && self.entries@[i as int].key@ == key@,
                None => !has_key(self.entries@, key@),
            },
    {
        let n = self.entries.len();
        for i in it: 0..n
            invariant
                n == self.entries@.len(),
                forall|j: int| 0 <= j < i ==> (#[trigger] self.entries@[j].key@) != key@,
        {
            if self.entries[i].key == *key {
                return Some(i);
            }
        }
        None
    }

    /// Looks a key up at instant `now`: the stored value comes back exactly
    /// when the key is bound and its binding has not expired.
    pub fn get(&self, key: &str, now: i64) -> (r: Option<String>)
        requires
            self.wf(),
        ensures
            r is Some <==> self@.contains_key(key@) && entry_live(self@[key@], now),
            r matches Some(v) ==> v@ == self@[key@].0,
    {
        proof {
            lemma_view_contains(self.entries@, key@);
        }
        let k = key.to_owned();
        match self.find_index(&k) {
            Some(i) => {
                proof {
                    assert forall|j: int|
                        i < j < self.entries@.len() implies (#[trigger] self.entries@[j].key@)
                        != self.entries@[i as int].key@ by {
                        assert(self.entries@[i as int].key@ != self.entries@[j].key@);
                    }
                    lemma_view_at(self.entries@, i as int);
                }
                let e = &self.entries[i];
                match e.expires_at {
                    None => Some(e.value.clone()),
                    Some(exp) => {
                        if now < exp {
                            Some(e.value.clone())
                        } else {
                            None
                        }
                    },
                }
            },
            None => None,
        }
    }

    fn put(&mut self, key: &String, value: String, expires_at: Option<i64>)
        requires
            old(self).wf(),
        ensures
            final(self).wf(),
            final(self)@ == old(self)@.insert(key@, (value@, expires_at)),
    {
        let entry = KvEntry { key: key.clone(), value, expires_at };
        let ghost v0 = self.entries@;
        match self.find_index(key) {
            Some(i) => {
                proof {
                    lemma_view_update(v0, i as int, entry);
                }
                self.entries.set(i, entry);
            },
            None => {
                self.entries.push(entry);
                proof {
                    assert(self.entries@.drop_last() =~= v0);
                    assert forall|p: int, q: int|
                        #![trigger self.entries@[p].key, self.entries@[q].key]
                        0 <= p < q < self.entries@.len() implies self.entries@[p].key@
                        != self.entries@[q].key@ by {
                        if q < self.entries@.len() - 1 {
                            assert(v0[p].key@ != v0[q].key@);
                        } else {
                            assert(self.entries@[q].key@ == key@);
                            assert(v0[p].key@ != key@);
                        }
                    }
                }
            },
        }
    }

    /// Binds `key` to `value` until `now + ttl_secs`: the write is visible to
    /// every lookup strictly before that instant and to none at or after it.
    pub fn set(&mut self, key: &str, value: String, ttl_secs: i64, now: i64)
        requires
            old(self).wf(),
            0 <= ttl_secs,
            now <= i64::MAX - ttl_secs,
        ensures
            final(self).wf(),
            final(self)@ == old(self)@.insert(key@, (value@, Some((now + ttl_secs) as i64))),
    {
        let k = key.to_owned();
        self.put(&k, value, Some(now + ttl_secs));
    }

    /// Binds `key` to `value` with no expiry.
    pub fn set_persistent(&mut self, key: &str, value: String)
        requires
            old(self).wf(),
        ensures
            final(self).wf(),
            final(self)@ == old(self)@.insert(key@, (value@, None)),
    {
        let k = key.to_owned();
        self.put(&k, value, None);
    }

    /// Removes a binding; removing an absent key leaves the store unchanged.
    pub fn del(&mut self, key: &str)
        requires
            old(self).wf(),
        ensures
            final(self).wf(),
            final(self)@ == old(self)@.remove(key@),
    {
        proof {
            lemma_view_contains(self.entries@, key@);
        }
        let k = key.to_owned();
        let ghost v0 = self.entries@;
        match self.find_index(&k) {
            Some(i) => {
                proof {
                    lemma_view_remove(v0, i as int);
                }
                self.entries.remove(i);
            },
            None => {
                proof {
                    assert(view_of(v0).remove(key@) =~= view_of(v0));
                }
            },
        }
    }
}

/// A cache write is visible unchanged until its expiry: after binding `key`
/// for `ttl_secs` seconds at `now`, a lookup at any instant strictly before
/// `now + ttl_secs` finds exactly the stored value.
pub proof fn lemma_set_then_get(
    m: Map<Seq<char>, (Seq<char>, Option<i64>)>,
    key: Seq<char>,
    value: Seq<char>,
    ttl_secs: i64,
    now: i64,
    later: i64,
)
    requires
        0 <= ttl_secs,
        now <= i64::MAX - ttl_secs,
        later < now + ttl_secs,
    ensures
        ({
            let m2 = m.insert(key, (value, Some((now + ttl_secs) as i64)));
            &&& m2.contains_key(key)
            &&& entry_live(m2[key], later)
            &&& m2[key].0 == value
        }),
{
}

} // verus!
