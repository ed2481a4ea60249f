//! The search cache: recent search results keyed by the raw query text, each
//! entry expiring a fixed time after it was stored. Writes to the document
//! store never purge entries; staleness until expiry is the accepted
//! trade-off.

use vstd::prelude::*;
use crate::models::RAGChunk;
use crate::models::clone_chunks;
use crate::text::str_eq;

verus! {

/// One memoized search: the exact query text, its results, and when it was
/// stored (Unix seconds).
pub struct CacheEntry {
    pub query: String,
    pub results: Vec<RAGChunk>,
    pub stored_at: i64,
}

/// An entry is fresh at `now` when less than `ttl` seconds have passed since
/// it was stored.
pub open spec fn entry_fresh(e: CacheEntry, ttl: int, now: int) -> bool {
    e.stored_at <= now < e.stored_at + ttl
}

/// Some entry carries this exact query text.
pub open spec fn has_key(entries: Seq<CacheEntry>, q: Seq<char>) -> bool {
    exists|i: int| 0 <= i < entries.len() && (#[trigger] entries[i]).query@ == q
}

/// The position of the entry with this query text.
pub open spec fn key_index(entries: Seq<CacheEntry>, q: Seq<char>) -> int {
    choose|i: int| 0 <= i < entries.len() && (#[trigger] entries[i]).query@ == q
}

/// When the entry with this query text was stored.
pub open spec fn stored_time(c: SearchCache, q: Seq<char>) -> int {
    c.entries@[key_index(c.entries@, q)].stored_at as int
}

/// The memoized results for byte-identical query text, keyed with no
/// normalization whatsoever, expiring `ttl` seconds after being stored.
pub struct SearchCache {
    /// Seconds an entry stays usable.
    pub ttl: i64,
    /// The entries; at most one per query text.
    pub entries: Vec<CacheEntry>,
}

/// What a lookup must return: the stored results exactly when an entry with
/// byte-identical query text exists and is still fresh, nothing otherwise.
pub open spec fn lookup(c: SearchCache, q: Seq<char>, now: int) -> Option<Seq<RAGChunk>> {
    if has_key(c.entries@, q) && entry_fresh(c.entries@[key_index(c.entries@, q)], c.ttl as int, now) {
        Some(c.entries@[key_index(c.entries@, q)].results@)
    } else {
        None
    }
}

impl SearchCache {
    /// Validity: positive expiry, non-negative store times, unique keys.
    pub open spec fn wf(self) -> bool {
        &&& self.ttl > 0
        &&& forall|i: int| 0 <= i < self.entries@.len() ==> (#[trigger] self.entries@[i]).stored_at >= 0
        &&& forall|i: int, j: int|
            0 <= i < j < self.entries@.len() ==> (#[trigger] self.entries@[i]).query@
                != (#[trigger] self.entries@[j]).query@
    }

    /// An empty cache with the given expiry.
    pub fn new(ttl: i64) -> (r: Self)
        requires
            ttl > 0,
        ensures
            r.wf(),
            r.ttl == ttl,
            r.entries@.len() == 0,
    {
        SearchCache { ttl, entries: Vec::new() }
    }

    /// If some entry has this exact key, it is the one `key_index` picks.
    proof fn lemma_key_at(self, q: Seq<char>, i: int)
        requires
            self.wf(),
            0 <= i < self.entries@.len(),
            self.entries@[i].query@ == q,
        ensures
            has_key(self.entries@, q),
            key_index(self.entries@, q) == i,
    {
        let j = key_index(self.entries@, q);
        if j != i {
            if j < i {
                assert(self.entries@[j].query@ != self.entries@[i].query@);
            } else {
                assert(self.entries@[i].query@ != self.entries@[j].query@);
            }
        }
    }

    /// Returns the memoized results exactly when a fresh entry with
    /// byte-identical query text exists.
    pub fn get(&self, query: &str, now: i64) -> (r: Option<Vec<RAGChunk>>)
        requires
            self.wf(),
            now >= 0,
        ensures
            match r {
                Some(v) => lookup(*self, query@, now as int) == Some(v@),
                None => lookup(*self, query@, now as int) is None,
            },
    {
        let n = self.entries.len();
        let mut i: usize = 0;
        while i < n
            invariant
                self.wf(),
                now >= 0,
                n == self.entries@.len(),
                i <= n,
                forall|j: int| 0 <= j < i ==> (#[trigger] self.entries@[j]).query@ != query@,
            decreases n - i,
        {
            let e = &self.entries[i];
            if str_eq(e.query.as_str(), query) {
                proof {
                    self.lemma_key_at(query@, i as int);
                }
                if e.stored_at <= now && now - e.stored_at < self.ttl {
                    return Some(clone_chunks(&e.results));
                } else {
                    return None;
                }
            }
            i = i + 1;
        }
        proof {
            if has_key(self.entries@, query@) {
                let j = key_index(self.entries@, query@);
                assert(0 <= j < self.entries@.len() && self.entries@[j].query@ == query@);
            }
        }
        None
    }

    /// Memoizes results for this query text as of `now`, replacing any
    /// previous entry with the same key. Entries under other keys are
    /// untouched, so their lookups are unchanged.
    pub fn put(&mut self, query: &str, results: Vec<RAGChunk>, now: i64)
        requires
            old(self).wf(),
            now >= 0,
        ensures
            final(self).wf(),
            final(self).ttl == old(self).ttl,
            lookup(*final(self), query@, now as int) == Some(results@),
            has_key(final(self).entries@, query@),
            stored_time(*final(self), query@) == now as int,
            forall|q2: Seq<char>, t: int|
                q2 != query@ ==> #[trigger] lookup(*final(self), q2, t) == lookup(*old(self), q2, t),
    {
        let n = self.entries.len();
        let mut i: usize = 0;
        while i < n
            invariant
                old(self).wf(),
                now >= 0,
                *self == *old(self),
                n == self.entries@.len(),
                i <= n,
                forall|j: int| 0 <= j < i ==> (#[trigger] self.entries@[j]).query@ != query@,
            decreases n - i,
        {
            if str_eq(self.entries[i].query.as_str(), query) {
                let entry = CacheEntry { query: query.to_owned(), results, stored_at: now };
                self.entries.set(i, entry);
                proof {
                    let post = *self;
                    assert forall|a: int, b: int| 0 <= a < b < post.entries@.len() implies (
                    #[trigger] post.entries@[a]).query@ != (#[trigger] post.entries@[b]).query@ by {
                        assert(old(self).entries@[a].query@ != old(self).entries@[b].query@);
                    }
                    post.lemma_key_at(query@, i as int);
                    assert(entry_fresh(post.entries@[i as int], post.ttl as int, now as int));
                    assert forall|q2: Seq<char>, t: int| q2 != query@ implies #[trigger] lookup(
                        post,
                        q2,
                        t,
                    ) == lookup(*old(self), q2, t) by {
                        self.lemma_put_other_keys(*old(self), q2, t, i as int);
                    }
                }
                return ;
            }
            i = i + 1;
        }
        let entry = CacheEntry { query: query.to_owned(), results, stored_at: now };
        self.entries.push(entry);
        proof {
            let post = *self;
            assert forall|a: int, b: int| 0 <= a < b < post.entries@.len() implies (
            #[trigger] post.entries@[a]).query@ != (#[trigger] post.entries@[b]).query@ by {
                if b < n {
                    assert(old(self).entries@[a].query@ != old(self).entries@[b].query@);
                } else {
                    assert(post.entries@[a].query@ != query@);
                }
            }
            post.lemma_key_at(query@, n as int);
            assert forall|q2: Seq<char>, t: int| q2 != query@ implies #[trigger] lookup(
                post,
                q2,
                t,
            ) == lookup(*old(self), q2, t) by {
                self.lemma_put_other_keys(*old(self), q2, t, n as int);
            }
        }
    }

    /// A cache that changed at one position only, where the new key differs
    /// from `q2`, answers `q2` lookups as before.
    proof fn lemma_put_other_keys(self, pre: SearchCache, q2: Seq<char>, t: int, at: int)
        requires
            self.wf(),
            pre.wf(),
            self.ttl == pre.ttl,
            0 <= at < self.entries@.len(),
            self.entries@.len() == pre.entries@.len() || self.entries@.len() == pre.entries@.len()
                + 1,
            at == self.entries@.len() - 1 || self.entries@.len() == pre.entries@.len(),
            forall|j: int|
                0 <= j < pre.entries@.len() && j != at ==> #[trigger] self.entries@[j]
                    == pre.entries@[j],
            self.entries@[at].query@ != q2,
            self.entries@.len() == pre.entries@.len() ==> pre.entries@[at].query@ != q2,
        ensures
            lookup(self, q2, t) == lookup(pre, q2, t),
    {
        if has_key(self.entries@, q2) {
            let i = key_index(self.entries@, q2);
            assert(self.entries@[i].query@ == q2);
            assert(i != at);
            assert(pre.entries@[i].query@ == q2);
            pre.lemma_key_at(q2, i);
            self.lemma_key_at(q2, i);
        } else {
            if has_key(pre.entries@, q2) {
                let i = key_index(pre.entries@, q2);
                assert(pre.entries@[i].query@ == q2);
                assert(i != at);
                assert(self.entries@[i].query@ == q2);
                assert(has_key(self.entries@, q2));
            }
        }
    }
}

} // verus!
