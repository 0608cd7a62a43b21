use vstd::prelude::*;
use crate::session::{Session, SessionView};
use crate::strutil;
use crate::strutil::is_prefix_of;

verus! {

/// Spec-level image of one stored entry: the record and the instant from
/// which the store itself may physically evict it.
pub struct EntryView {
    pub record: SessionView,
    pub store_expires_at: int,
}

struct Entry {
    key: String,
    record: Session,
    store_expires_at: i64,
}

spec fn e_view(e: Entry) -> EntryView {
    EntryView { record: e.record@, store_expires_at: e.store_expires_at as int }
}

spec fn to_map(s: Seq<Entry>) -> Map<Seq<char>, EntryView>
    decreases s.len(),
{
    if s.len() == 0 {
        Map::empty()
    } else {
        to_map(s.drop_last()).insert(s.last().key@, e_view(s.last()))
    }
}

spec fn distinct_keys(s: Seq<Entry>) -> bool {
    forall|i: int, j: int| 0 <= i < j < s.len() ==> s[i].key@ != s[j].key@
}

proof fn lemma_to_map_contains(s: Seq<Entry>, k: Seq<char>)
    ensures
        to_map(s).contains_key(k) <==> exists|i: int| 0 <= i < s.len() && s[i].key@ == k,
    decreases s.len(),
{
    if s.len() > 0 {
        lemma_to_map_contains(s.drop_last(), k);
        if s.last().key@ == k {
            assert(s[s.len() - 1].key@ == k);
        } else {
            if exists|i: int| 0 <= i < s.len() && s[i].key@ == k {
                let i = choose|i: int| 0 <= i < s.len() && s[i].key@ == k;
                assert(s.drop_last()[i].key@ == k);
            }
            if exists|i: int| 0 <= i < s.drop_last().len() && s.drop_last()[i].key@ == k {
                let i = choose|i: int| 0 <= i < s.drop_last().len() && s.drop_last()[i].key@ == k;
                assert(s[i].key@ == k);
            }
        }
    }
}

proof fn lemma_to_map_index(s: Seq<Entry>, i: int)
    requires
        distinct_keys(s),
        0 <= i < s.len(),
    ensures
        to_map(s).contains_key(s[i].key@),
        to_map(s)[s[i].key@] == e_view(s[i]),
    decreases s.len(),
{
    if i < s.len() - 1 {
        assert(distinct_keys(s.drop_last()));
        lemma_to_map_index(s.drop_last(), i);
        assert(s.drop_last()[i] == s[i]);
        assert(s.last().key@ != s[i].key@);
    }
}

proof fn lemma_to_map_remove_at(s: Seq<Entry>, i: int)
    requires
        distinct_keys(s),
        0 <= i < s.len(),
    ensures
        to_map(s.remove(i)) =~= to_map(s).remove(s[i].key@),
    decreases s.len(),
{
    if i == s.len() - 1 {
        assert(s.remove(i) =~= s.drop_last());
        lemma_to_map_contains(s.drop_last(), s[i].key@);
        assert(forall|j: int| 0 <= j < s.drop_last().len() ==> s.drop_last()[j].key@ != s[i].key@);
        assert(!to_map(s.drop_last()).contains_key(s[i].key@));
        assert(to_map(s.remove(i)) =~= to_map(s).remove(s[i].key@));
    } else {
        let t = s.remove(i);
        assert(distinct_keys(s.drop_last()));
        lemma_to_map_remove_at(s.drop_last(), i);
        assert(t.last() == s.last());
        assert(t.drop_last() =~= s.drop_last().remove(i));
        assert(s.last().key@ != s[i].key@);
        assert(to_map(t) == to_map(t.drop_last()).insert(t.last().key@, e_view(t.last())));
        assert(to_map(t) =~= to_map(s).remove(s[i].key@));
    }
}

/// The store contents after the store's own TTL pass at instant `now`:
/// every entry whose eviction deadline lies strictly before `now` is
/// gone, and nothing else changes.
pub open spec fn after_eviction(m: Map<Seq<char>, EntryView>, now: int) -> Map<
    Seq<char>,
    EntryView,
> {
    Map::new(
        |k: Seq<char>| m.contains_key(k) && now <= m[k].store_expires_at,
        |k: Seq<char>| m[k],
    )
}

/// Nothing appears in the store out of thin air: every current entry was
/// already there, unchanged.
spec fn ev_frame(cur: Map<Seq<char>, EntryView>, m0: Map<Seq<char>, EntryView>) -> bool {
    forall|k: Seq<char>| #[trigger] cur.contains_key(k) ==> m0.contains_key(k) && cur[k] == m0[k]
}

/// Every entry whose eviction deadline has not passed survives.
spec fn ev_keeps(cur: Map<Seq<char>, EntryView>, m0: Map<Seq<char>, EntryView>, now: int) -> bool {
    forall|k: Seq<char>| m0.contains_key(k) && now <= m0[k].store_expires_at
        ==> #[trigger] cur.contains_key(k)
}

/// A key-value store of session records with per-key expiry: the single
/// source of truth for which sessions exist. Its view is the map from key
/// to stored entry. The store remembers, for each entry, the instant from
/// which it may evict it physically; readers see an entry until it is
/// overwritten or deleted, so logical expiry must be re-checked by every
/// reader above it.
pub struct ExpiringStore {
    entries: Vec<Entry>,
}

impl View for ExpiringStore {
    type V = Map<Seq<char>, EntryView>;

    closed spec fn view(&self) -> Map<Seq<char>, EntryView> {
        to_map(self.entries@)
    }
}

impl ExpiringStore {
    /// Internal shape: no key is stored twice.
    pub closed spec fn wf(self) -> bool {
        distinct_keys(self.entries@)
    }

    /// An empty store.
    pub fn new() -> (r: ExpiringStore)
        ensures
            r.wf(),
            r@ == Map::<Seq<char>, EntryView>::empty(),
    {
        let r = ExpiringStore { entries: Vec::new() };
        proof {
            assert(r@ =~= Map::<Seq<char>, EntryView>::empty());
        }
        r
    }

    fn find_index(&self, key: &String) -> (r: Option<usize>)
        ensures
            match r {
                Some(i) => i < self.entries@.len() && self.entries@[i as int].key@ == key@,
                None => forall|i: int| 0 <= i < self.entries@.len()
                    ==> self.entries@[i].key@ != key@,
            },
    {
        let mut i: usize = 0;
        while i < self.entries.len()
            invariant
                i <= self.entries@.len(),
                forall|j: int| 0 <= j < i ==> self.entries@[j].key@ != key@,
            decreases self.entries@.len() - i,
        {
            if self.entries[i].key == *key {
                return Some(i);
            }
            i += 1;
        }
        None
    }

    /// Writes the record under the key, replacing whatever was there, and
    /// arms the store's own eviction for `ttl_seconds` from now.
    pub fn set_with_ttl(&mut self, key: String, value: Session, ttl_seconds: u64, now: i64)
        requires
            old(self).wf(),
            ttl_seconds <= i64::MAX as u64,
            now as int + ttl_seconds as int <= i64::MAX as int,
        ensures
            final(self).wf(),
            final(self)@ == old(self)@.insert(
                key@,
                EntryView { record: value@, store_expires_at: now as int + ttl_seconds as int },
            ),
    {
        let store_expires_at: i64 = now + (ttl_seconds as i64);
        let ghost s0 = self.entries@;
        match self.find_index(&key) {
            Some(i) => {
                proof {
                    lemma_to_map_remove_at(s0, i as int);
                }
                self.entries.remove(i);
                proof {
                    assert forall|j1: int, j2: int|
                        0 <= j1 < j2 < self.entries@.len() implies
                        self.entries@[j1].key@ != self.entries@[j2].key@ by {
                        assert(self.entries@[j1] == if j1 < i as int { s0[j1] } else { s0[j1 + 1] });
                        assert(self.entries@[j2] == if j2 < i as int { s0[j2] } else { s0[j2 + 1] });
                    }
                    assert forall|j: int| 0 <= j < self.entries@.len() implies
                        self.entries@[j].key@ != key@ by {
                        assert(self.entries@[j] == if j < i as int { s0[j] } else { s0[j + 1] });
                    }
                }
                let ghost s1 = self.entries@;
                self.entries.push(Entry { key, record: value, store_expires_at });
                proof {
                    assert(self.entries@.drop_last() =~= s1);
                    assert(self@ =~= old(self)@.insert(
                        key@,
                        EntryView {
                            record: value@,
                            store_expires_at: now as int + ttl_seconds as int,
                        },
                    ));
                }
            }
            None => {
                self.entries.push(Entry { key, record: value, store_expires_at });
                proof {
                    assert(self.entries@.drop_last() =~= s0);
                    assert(self@ =~= old(self)@.insert(
                        key@,
                        EntryView {
                            record: value@,
                            store_expires_at: now as int + ttl_seconds as int,
                        },
                    ));
                }
            }
        }
    }

    /// Reads the record stored under the key, if any. The store does not
    /// re-check expiry here: an entry not yet evicted is handed out as is.
    pub fn get(&self, key: &String) -> (r: Option<&Session>)
        requires
            self.wf(),
        ensures
            match r {
                Some(rec) => self@.contains_key(key@) && rec@ == self@[key@].record,
                None => !self@.contains_key(key@),
            },
    {
        proof {
            lemma_to_map_contains(self.entries@, key@);
        }
        match self.find_index(key) {
            Some(i) => {
                proof {
                    lemma_to_map_index(self.entries@, i as int);
                }
                Some(&self.entries[i].record)
            }
            None => None,
        }
    }

    /// Deletes the key. Deleting an absent key is not an error and changes
    /// nothing.
    pub fn delete(&mut self, key: &String)
        requires
            old(self).wf(),
        ensures
            final(self).wf(),
            final(self)@ == old(self)@.remove(key@),
    {
        let ghost s0 = self.entries@;
        match self.find_index(key) {
            Some(i) => {
                proof {
                    lemma_to_map_remove_at(s0, i as int);
                }
                self.entries.remove(i);
                proof {
                    assert forall|j1: int, j2: int|
                        0 <= j1 < j2 < self.entries@.len() implies
                        self.entries@[j1].key@ != self.entries@[j2].key@ by {
                        assert(self.entries@[j1] == if j1 < i as int { s0[j1] } else { s0[j1 + 1] });
                        assert(self.entries@[j2] == if j2 < i as int { s0[j2] } else { s0[j2 + 1] });
                    }
                }
            }
            None => {
                proof {
                    lemma_to_map_contains(s0, key@);
                    assert(self@ =~= old(self)@.remove(key@));
                }
            }
        }
    }

    /// The store's own eviction pass: physically drops every entry whose
    /// TTL deadline lies strictly before `now`. No reader above the store
    /// relies on when this runs — logical expiry is re-checked on every
    /// fetch.
    pub fn evict_expired(&mut self, now: i64)
        requires
            old(self).wf(),
        ensures
            final(self).wf(),
            final(self)@ == after_eviction(old(self)@, now as int),
    {
        let ghost m0 = self@;
        let mut i: usize = 0;
        while i < self.entries.len()
            invariant
                distinct_keys(self.entries@),
                i <= self.entries@.len(),
                ev_frame(to_map(self.entries@), m0),
                ev_keeps(to_map(self.entries@), m0, now as int),
                forall|j: int| 0 <= j < i
                    ==> now as int <= #[trigger] self.entries@[j].store_expires_at as int,
            decreases self.entries@.len() - i,
        {
            if now > self.entries[i].store_expires_at {
                let ghost pre = self.entries@;
                let ghost kv = pre[i as int].key@;
                proof {
                    lemma_to_map_index(pre, i as int);
                    lemma_to_map_remove_at(pre, i as int);
                }
                self.entries.remove(i);
                proof {
                    assert forall|j1: int, j2: int|
                        0 <= j1 < j2 < self.entries@.len() implies
                        self.entries@[j1].key@ != self.entries@[j2].key@ by {
                        assert(self.entries@[j1] == if j1 < i as int { pre[j1] } else {
                            pre[j1 + 1]
                        });
                        assert(self.entries@[j2] == if j2 < i as int { pre[j2] } else {
                            pre[j2 + 1]
                        });
                    }
                    assert(to_map(self.entries@) == to_map(pre).remove(kv));
                    assert(ev_frame(to_map(self.entries@), m0)) by {
                        assert forall|k: Seq<char>|
                            #[trigger] to_map(self.entries@).contains_key(k) implies
                            m0.contains_key(k) && to_map(self.entries@)[k] == m0[k] by {
                            assert(ev_frame(to_map(pre), m0));
                            assert(to_map(pre).contains_key(k));
                        }
                    }
                    assert(ev_keeps(to_map(self.entries@), m0, now as int)) by {
                        assert(to_map(pre)[kv] == e_view(pre[i as int]));
                        assert(m0[kv] == e_view(pre[i as int]));
                        assert(m0[kv].store_expires_at < now as int);
                        assert forall|k: Seq<char>| m0.contains_key(k)
                            && now as int <= m0[k].store_expires_at implies
                            #[trigger] to_map(self.entries@).contains_key(k) by {
                            assert(ev_keeps(to_map(pre), m0, now as int));
                            assert(to_map(pre).contains_key(k));
                            assert(k != kv);
                        }
                    }
                    assert forall|j: int| 0 <= j < i implies
                        now as int <= #[trigger] self.entries@[j].store_expires_at as int by {
                        assert(self.entries@[j] == pre[j]);
                    }
                }
            } else {
                i += 1;
            }
        }
        proof {
            assert forall|k: Seq<char>| self@.contains_key(k) implies
                m0.contains_key(k) && now as int <= m0[k].store_expires_at
                && self@[k] == m0[k] by {
                assert(ev_frame(self@, m0));
                assert(m0.contains_key(k) && self@[k] == m0[k]);
                lemma_to_map_contains(self.entries@, k);
                let j = choose|j: int| 0 <= j < self.entries@.len()
                    && self.entries@[j].key@ == k;
                lemma_to_map_index(self.entries@, j);
                assert(self@[k] == e_view(self.entries@[j]));
                assert(now as int <= self.entries@[j].store_expires_at as int);
            }
            assert forall|k: Seq<char>| m0.contains_key(k)
                && now as int <= m0[k].store_expires_at implies
                #[trigger] self@.contains_key(k) by {
                assert(ev_keeps(self@, m0, now as int));
            }
            assert(self@ =~= after_eviction(m0, now as int));
        }
    }

    /// Lists every stored key that begins with the prefix, each exactly
    /// once.
    pub fn keys_matching(&self, prefix: &String) -> (r: Vec<String>)
        requires
            self.wf(),
        ensures
            forall|j: int| 0 <= j < r@.len()
                ==> self@.contains_key(#[trigger] r@[j]@) && is_prefix_of(prefix@, r@[j]@),
            forall|k: Seq<char>| self@.contains_key(k) && is_prefix_of(prefix@, k)
                ==> exists|j: int| 0 <= j < r@.len() && #[trigger] r@[j]@ == k,
            forall|j1: int, j2: int| 0 <= j1 < j2 < r@.len() ==> r@[j1]@ != r@[j2]@,
    {
        let mut r: Vec<String> = Vec::new();
        let mut i: usize = 0;
        while i < self.entries.len()
            invariant
                self.wf(),
                i <= self.entries@.len(),
                forall|j: int| 0 <= j < r@.len()
                    ==> exists|e: int| 0 <= e < i && #[trigger] r@[j]@ == self.entries@[e].key@,
                forall|j: int| 0 <= j < r@.len() ==> is_prefix_of(prefix@, #[trigger] r@[j]@),
                forall|e: int| 0 <= e < i && is_prefix_of(prefix@, #[trigger] self.entries@[e].key@)
                    ==> exists|j: int| 0 <= j < r@.len() && r@[j]@ == self.entries@[e].key@,
                forall|j1: int, j2: int| 0 <= j1 < j2 < r@.len() ==> r@[j1]@ != r@[j2]@,
            decreases self.entries@.len() - i,
        {
            if strutil::starts_with_prefix(&self.entries[i].key, prefix) {
                let ghost r0 = r@;
                proof {
                    assert forall|j: int| 0 <= j < r0.len() implies
                        r0[j]@ != self.entries@[i as int].key@ by {
                        let e = choose|e: int| 0 <= e < i && r0[j]@ == self.entries@[e].key@;
                        assert(self.entries@[e].key@ != self.entries@[i as int].key@);
                    }
                }
                r.push(self.entries[i].key.clone());
                proof {
                    assert forall|e: int| 0 <= e <= i
                        && is_prefix_of(prefix@, #[trigger] self.entries@[e].key@) implies
                        exists|j: int| 0 <= j < r@.len() && r@[j]@ == self.entries@[e].key@ by {
                        if e < i {
                            let j = choose|j: int| 0 <= j < r0.len()
                                && r0[j]@ == self.entries@[e].key@;
                            assert(r@[j]@ == self.entries@[e].key@);
                        } else {
                            assert(r@[r@.len() - 1]@ == self.entries@[i as int].key@);
                        }
                    }
                }
            }
            i += 1;
        }
        proof {
            lemma_to_map_contains(self.entries@, prefix@);
            assert forall|k: Seq<char>| self@.contains_key(k) && is_prefix_of(prefix@, k)
                implies exists|j: int| 0 <= j < r@.len() && #[trigger] r@[j]@ == k by {
                lemma_to_map_contains(self.entries@, k);
                let e = choose|e: int| 0 <= e < self.entries@.len()
                    && self.entries@[e].key@ == k;
                assert(is_prefix_of(prefix@, self.entries@[e].key@));
            }
            assert forall|j: int| 0 <= j < r@.len() implies
                self@.contains_key(#[trigger] r@[j]@) by {
                let e = choose|e: int| 0 <= e < self.entries@.len()
                    && r@[j]@ == self.entries@[e].key@;
                lemma_to_map_contains(self.entries@, r@[j]@);
            }
        }
        r
    }
}

} // verus!
