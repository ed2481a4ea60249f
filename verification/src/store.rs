//! The vector document store: an ordered collection of documents with unique
//! ids and fixed-dimension bounded embeddings. Supports insertion, in-place
//! update with re-embedding, idempotent deletion, newest-first paginated
//! listing, similarity search, and the lexical fallback search.

use vstd::prelude::*;
use crate::DIM_MAX;
use crate::LEXICAL_SCORE;
use crate::errors::RagError;
use crate::models::Document;
use crate::models::DocumentSummary;
use crate::models::RAGChunk;
use crate::models::clone_opt_string;
use crate::outside::lower_of;
use crate::outside::lowercase;
use crate::rank::bounded;
use crate::rank::dot;
use crate::rank::ranked_selection;
use crate::rank::dot_product;
use crate::rank::select_ranked;
use crate::text::chars_vec;
use crate::text::contains_chars;
use crate::text::contains_seq;
use crate::text::min_int;
use crate::text::str_eq;

verus! {

/// A document fits the store: right dimension, bounded components.
pub open spec fn doc_wf(d: Document, dim: int) -> bool {
    &&& d.embedding@.len() == dim
    &&& bounded(d.embedding@)
}

/// Some stored document carries this id.
pub open spec fn contains_id(docs: Seq<Document>, id: Seq<char>) -> bool {
    exists|i: int| 0 <= i < docs.len() && (#[trigger] docs[i]).id@ == id
}

/// The listing row of a document.
pub open spec fn summary_of(d: Document) -> DocumentSummary {
    DocumentSummary { id: d.id, content: d.content, metadata: d.metadata }
}

/// A document matches a lexical query when the lowercased query occurs in
/// its lowercased content.
pub open spec fn lex_match(d: Document, query: Seq<char>) -> bool {
    contains_seq(lower_of(d.content@), lower_of(query))
}

/// The lexical search hit for a document: the fixed constant score.
pub open spec fn lex_chunk_of(d: Document) -> RAGChunk {
    RAGChunk { id: d.id, content: d.content, score: LEXICAL_SCORE }
}

/// What a lexical search must return: the matching documents in store order,
/// capped at `limit`, each with the constant score.
pub open spec fn lexical_results(docs: Seq<Document>, query: Seq<char>, limit: int, r: Seq<
    RAGChunk,
>) -> bool {
    let f = docs.filter(|d: Document| lex_match(d, query));
    r == f.take(min_int(limit, f.len() as int)).map_values(|d: Document| lex_chunk_of(d))
}

/// The returned chunk reports some stored document faithfully: same id and
/// content, and the score is that document's dot product with the query.
pub open spec fn chunk_from(docs: Seq<Document>, q: Seq<i64>, c: RAGChunk) -> bool {
    exists|j: int|
        0 <= j < docs.len() && c.id@ == (#[trigger] docs[j]).id@ && c.content@ == docs[j].content@
            && c.score as int == dot(q, docs[j].embedding@)
}

/// What a similarity search must return: as many hits as fit, sound, ranked
/// by descending score, without duplicate ids, and complete in the sense
/// that every document left out scores no higher than any hit returned.
pub open spec fn vector_results(docs: Seq<Document>, q: Seq<i64>, limit: int, r: Seq<
    RAGChunk,
>) -> bool {
    &&& r.len() == min_int(limit, docs.len() as int)
    &&& forall|i: int| 0 <= i < r.len() ==> chunk_from(docs, q, #[trigger] r[i])
    &&& forall|i: int, j: int|
        0 <= i < j < r.len() ==> (#[trigger] r[i]).score as int >= (#[trigger] r[j]).score as int
    &&& forall|i: int, j: int|
        0 <= i < j < r.len() ==> (#[trigger] r[i]).id@ != (#[trigger] r[j]).id@
    &&& forall|jd: int, i: int|
        0 <= jd < docs.len() && 0 <= i < r.len() && (forall|i2: int|
            0 <= i2 < r.len() ==> (#[trigger] r[i2]).id@ != docs[jd].id@) ==> dot(
            q,
            (#[trigger] docs[jd]).embedding@,
        ) <= (#[trigger] r[i]).score as int
}

/// Every element passing the predicate, filtering changes nothing.
pub proof fn lemma_filter_all_pass<A>(s: Seq<A>, pred: spec_fn(A) -> bool)
    requires
        forall|i: int| 0 <= i < s.len() ==> pred(#[trigger] s[i]),
    ensures
        s.filter(pred) == s,
    decreases s.len(),
{
    reveal(Seq::filter);
    if s.len() == 0 {
        assert(s.filter(pred) =~= s);
    } else {
        assert(forall|i: int|
            0 <= i < s.drop_last().len() ==> pred(#[trigger] s.drop_last()[i]));
        lemma_filter_all_pass(s.drop_last(), pred);
        assert(s.filter(pred) =~= s);
    }
}

/// Every element of a filtered sequence occurs in the original.
pub proof fn lemma_filter_member<A>(s: Seq<A>, pred: spec_fn(A) -> bool, a: int)
    requires
        0 <= a < s.filter(pred).len(),
    ensures
        exists|i0: int| 0 <= i0 < s.len() && #[trigger] s[i0] == s.filter(pred)[a],
    decreases s.len(),
{
    reveal(Seq::filter);
    if s.len() == 0 {
    } else {
        let rest = s.drop_last();
        let f = s.filter(pred);
        let fr = rest.filter(pred);
        if pred(s.last()) {
            if a < f.len() - 1 {
                lemma_filter_member(rest, pred, a);
                let i0 = choose|i0: int| 0 <= i0 < rest.len() && #[trigger] rest[i0] == fr[a];
                assert(s[i0] == f[a]);
            } else {
                assert(s[s.len() - 1] == f[a]);
            }
        } else {
            lemma_filter_member(rest, pred, a);
            let i0 = choose|i0: int| 0 <= i0 < rest.len() && #[trigger] rest[i0] == fr[a];
            assert(s[i0] == f[a]);
        }
    }
}

/// Removing the one failing element is the same as filtering.
pub proof fn lemma_remove_single_fail<A>(s: Seq<A>, i: int, pred: spec_fn(A) -> bool)
    requires
        0 <= i < s.len(),
        !pred(s[i]),
        forall|j: int| 0 <= j < s.len() && j != i ==> pred(#[trigger] s[j]),
    ensures
        s.remove(i) == s.filter(pred),
{
    reveal(Seq::filter);
    let a = s.subrange(0, i);
    let b = s.subrange(i, i + 1);
    let c = s.subrange(i + 1, s.len() as int);
    assert(s =~= (a + b) + c);
    Seq::<A>::filter_distributes_over_add(a + b, c, pred);
    Seq::<A>::filter_distributes_over_add(a, b, pred);
    assert(forall|j: int| 0 <= j < a.len() ==> pred(#[trigger] a[j]));
    lemma_filter_all_pass(a, pred);
    assert(forall|j: int| 0 <= j < c.len() ==> pred(#[trigger] c[j]));
    lemma_filter_all_pass(c, pred);
    assert(b.len() == 1 && b.last() == s[i]);
    assert(b.drop_last().len() == 0);
    assert(b.drop_last().filter(pred) =~= Seq::<A>::empty());
    assert(b.filter(pred) =~= Seq::<A>::empty());
    assert(s.filter(pred) == (a.filter(pred) + b.filter(pred)) + c.filter(pred));
    assert(s.remove(i) =~= (a + b.filter(pred)) + c);
    assert(s.remove(i) =~= s.filter(pred));
}

/// The ordered store of documents.
pub struct DocumentStore {
    /// The embedding dimension, fixed at construction.
    pub dim: usize,
    /// The documents, oldest first.
    pub docs: Vec<Document>,
}

impl DocumentStore {
    /// Validity: sensible dimension, well-formed embeddings, unique ids.
    pub open spec fn wf(self) -> bool {
        &&& 0 < self.dim <= DIM_MAX
        &&& forall|i: int|
            0 <= i < self.docs@.len() ==> doc_wf(#[trigger] self.docs@[i], self.dim as int)
        &&& forall|i: int, j: int|
            0 <= i < j < self.docs@.len() ==> (#[trigger] self.docs@[i]).id@
                != (#[trigger] self.docs@[j]).id@
    }

    /// An empty store of the given dimension.
    pub fn new(dim: usize) -> (r: Self)
        requires
            0 < dim <= DIM_MAX,
        ensures
            r.wf(),
            r.dim == dim,
            r.docs@.len() == 0,
    {
        DocumentStore { dim, docs: Vec::new() }
    }

    /// How many documents are stored.
    pub fn count(&self) -> (r: usize)
        ensures
            r == self.docs@.len(),
    {
        self.docs.len()
    }

    /// Finds the position of the document with this id, if any.
    fn find_index(&self, id: &str) -> (r: Option<usize>)
        ensures
            match r {
                Some(i) => i < self.docs@.len() && self.docs@[i as int].id@ == id@,
                None => !contains_id(self.docs@, id@),
            },
    {
        let n = self.docs.len();
        let mut i: usize = 0;
        while i < n
            invariant
                n == self.docs@.len(),
                i <= n,
                forall|j: int| 0 <= j < i ==> (#[trigger] self.docs@[j]).id@ != id@,
            decreases n - i,
        {
            if str_eq(self.docs[i].id.as_str(), id) {
                return Some(i);
            }
            i = i + 1;
        }
        None
    }

    /// Appends a new document under a caller-supplied fresh id. Fails with a
    /// storage error, changing nothing, exactly when the id is already taken.
    pub fn add_doc(&mut self, id: String, content: String, metadata: Option<String>, embedding: Vec<
        i64,
    >) -> (r: Result<(), RagError>)
        requires
            old(self).wf(),
            embedding@.len() == old(self).dim,
            bounded(embedding@),
        ensures
            final(self).wf(),
            final(self).dim == old(self).dim,
            match r {
                Ok(()) => !contains_id(old(self).docs@, id@) && final(self).docs@ == old(
                    self).docs@.push((Document { id, content, metadata, embedding })),
                Err(e) => e == RagError::Storage && contains_id(old(self).docs@, id@) && final(
                    self).docs == old(self).docs,
            },
    {
        match self.find_index(id.as_str()) {
            Some(_) => Err(RagError::Storage),
            None => {
                self.docs.push(Document { id, content, metadata, embedding });
                Ok(())
            },
        }
    }

    /// Overwrites content, metadata and embedding of the document with this
    /// id, keeping its id and position. Fails with `NotFound`, changing
    /// nothing, exactly when no document has the id.
    pub fn update_doc(&mut self, id: &str, content: String, metadata: Option<String>, embedding: Vec<
        i64,
    >) -> (r: Result<(), RagError>)
        requires
            old(self).wf(),
            embedding@.len() == old(self).dim,
            bounded(embedding@),
        ensures
            final(self).wf(),
            final(self).dim == old(self).dim,
            r is Ok <==> contains_id(old(self).docs@, id@),
            match r {
                Ok(()) => {
                    &&& final(self).docs@.len() == old(self).docs@.len()
                    &&& forall|j: int|
                        0 <= j < old(self).docs@.len() && (#[trigger] old(self).docs@[j]).id@ != id@
                            ==> final(self).docs@[j] == old(self).docs@[j]
                    &&& forall|j: int|
                        0 <= j < old(self).docs@.len() && (#[trigger] old(self).docs@[j]).id@ == id@
                            ==> final(self).docs@[j] == (Document {
                            id: old(self).docs@[j].id,
                            content: content,
                            metadata: metadata,
                            embedding: embedding,
                        })
                },
                Err(e) => e == RagError::NotFound && final(self).docs == old(self).docs,
            },
    {
        match self.find_index(id) {
            Some(i) => {
                let new_doc = Document {
                    id: self.docs[i].id.clone(),
                    content,
                    metadata,
                    embedding,
                };
                self.docs.set(i, new_doc);
                proof {
                    assert forall|j: int|
                        0 <= j < old(self).docs@.len() && (#[trigger] old(self).docs@[j]).id@ == id@
                        implies j == i as int by {
                        if j != i as int {
                            assert(old(self).docs@[j].id@ != old(self).docs@[i as int].id@);
                        }
                    }
                }
                Ok(())
            },
            None => Err(RagError::NotFound),
        }
    }

    /// Removes the document with this id; removing an absent id is a no-op.
    pub fn delete_doc(&mut self, id: &str)
        requires
            old(self).wf(),
        ensures
            final(self).wf(),
            final(self).dim == old(self).dim,
            final(self).docs@ == old(self).docs@.filter(|d: Document| d.id@ != id@),
    {
        let ghost pred = |d: Document| d.id@ != id@;
        match self.find_index(id) {
            Some(i) => {
                self.docs.remove(i);
                proof {
                    assert forall|j: int|
                        0 <= j < old(self).docs@.len() && j != i as int implies pred(
                        #[trigger] old(self).docs@[j],
                    ) by {
                        if j < i as int {
                            assert(old(self).docs@[j].id@ != old(self).docs@[i as int].id@);
                        } else {
                            assert(old(self).docs@[i as int].id@ != old(self).docs@[j].id@);
                        }
                    }
                    lemma_remove_single_fail(old(self).docs@, i as int, pred);
                    old(self).docs@.remove_ensures(i as int);
                }
            },
            None => {
                proof {
                    assert forall|j: int| 0 <= j < old(self).docs@.len() implies pred(
                        #[trigger] old(self).docs@[j],
                    ) by {
                        if old(self).docs@[j].id@ == id@ {
                            assert(contains_id(old(self).docs@, id@));
                        }
                    }
                    lemma_filter_all_pass(old(self).docs@, pred);
                }
            },
        }
    }

    /// One page of the listing, newest first, with the total count.
    /// The page holds the documents at positions `offset`, `offset + 1`, ...
    /// counted from the newest, at most `limit` of them.
    pub fn list(&self, limit: usize, offset: usize) -> (r: (Vec<DocumentSummary>, usize))
        ensures
            r.1 == self.docs@.len(),
            r.0@.len() == if offset < self.docs@.len() {
                min_int(limit as int, self.docs@.len() - offset)
            } else {
                0
            },
            forall|k: int|
                0 <= k < r.0@.len() ==> #[trigger] r.0@[k] == summary_of(
                    self.docs@[self.docs@.len() - 1 - offset - k],
                ),
    {
        let n = self.docs.len();
        let mut page: Vec<DocumentSummary> = Vec::new();
        let mut k: usize = 0;
        while k < limit && offset + k < n
            invariant
                n == self.docs@.len(),
                k <= limit,
                k > 0 ==> offset + k <= n,
                page@.len() == k,
                forall|k2: int|
                    0 <= k2 < k ==> #[trigger] page@[k2] == summary_of(
                        self.docs@[n - 1 - offset - k2],
                    ),
            decreases n - offset - k,
        {
            let idx = n - 1 - offset - k;
            let d = &self.docs[idx];
            page.push(DocumentSummary {
                id: d.id.clone(),
                content: d.content.clone(),
                metadata: clone_opt_string(&d.metadata),
            });
            k = k + 1;
        }
        (page, n)
    }

    /// Case-insensitive substring search: every document whose content holds
    /// the query (both lowercased), in store order, capped at `limit`, each
    /// hit carrying the constant lexical score.
    pub fn lexical_search(&self, query: &str, limit: usize) -> (r: Vec<RAGChunk>)
        ensures
            lexical_results(self.docs@, query@, limit as int, r@),
    {
        let ghost pred = |d: Document| lex_match(d, query@);
        let ghost to_chunk = |d: Document| lex_chunk_of(d);
        let lowered_query = lowercase(query);
        let needle = chars_vec(lowered_query.as_str());
        let n = self.docs.len();
        let mut out: Vec<RAGChunk> = Vec::new();
        let mut i: usize = 0;
        proof {
            assert(self.docs@.take(0) =~= Seq::<Document>::empty());
            reveal(Seq::filter);
        }
        while i < n && out.len() < limit
            invariant
                n == self.docs@.len(),
                i <= n,
                out@.len() <= limit,
                needle@ == lower_of(query@),
                out@ == self.docs@.take(i as int).filter(pred).map_values(to_chunk),
                pred == (|d: Document| lex_match(d, query@)),
                to_chunk == (|d: Document| lex_chunk_of(d)),
            decreases n - i,
        {
            let d = &self.docs[i];
            let lowered = lowercase(d.content.as_str());
            let hay = chars_vec(lowered.as_str());
            proof {
                self.docs@.take(i as int).lemma_filter_push(self.docs@[i as int], pred);
                assert(self.docs@.take(i + 1) =~= self.docs@.take(i as int).push(
                    self.docs@[i as int],
                ));
            }
            if contains_chars(&hay, &needle) {
                out.push(RAGChunk {
                    id: d.id.clone(),
                    content: d.content.clone(),
                    score: LEXICAL_SCORE,
                });
                proof {
                    assert(out@ =~= self.docs@.take(i + 1).filter(pred).map_values(to_chunk));
                }
            } else {
                proof {
                    assert(out@ =~= self.docs@.take(i + 1).filter(pred).map_values(to_chunk));
                }
            }
            i = i + 1;
        }
        proof {
            let f = self.docs@.filter(pred);
            let fi = self.docs@.take(i as int).filter(pred);
            assert(self.docs@ =~= self.docs@.take(i as int) + self.docs@.skip(i as int));
            Seq::<Document>::filter_distributes_over_add(
                self.docs@.take(i as int),
                self.docs@.skip(i as int),
                pred,
            );
            if i < n {
                // stopped because the page is full
                assert(out@.len() == limit);
                assert(fi.map_values(to_chunk).len() == limit);
                assert(f.take(min_int(limit as int, f.len() as int)) =~= fi);
            } else {
                assert(self.docs@.skip(i as int) =~= Seq::<Document>::empty());
                assert(f =~= fi);
                assert(f.take(min_int(limit as int, f.len() as int)) =~= fi);
            }
        }
        out
    }

    /// Similarity search: the `limit` best documents by dot product with the
    /// query embedding, best first.
    pub fn vector_search(&self, query_embedding: &Vec<i64>, limit: usize) -> (r: Vec<RAGChunk>)
        requires
            self.wf(),
            query_embedding@.len() == self.dim,
            bounded(query_embedding@),
        ensures
            vector_results(self.docs@, query_embedding@, limit as int, r@),
    {
        let n = self.docs.len();
        let mut scores: Vec<i64> = Vec::new();
        let mut i: usize = 0;
        while i < n
            invariant
                n == self.docs@.len(),
                i <= n,
                self.wf(),
                query_embedding@.len() == self.dim,
                bounded(query_embedding@),
                scores@.len() == i,
                forall|j: int|
                    0 <= j < i ==> #[trigger] scores@[j] as int == dot(
                        query_embedding@,
                        self.docs@[j].embedding@,
                    ),
            decreases n - i,
        {
            let s = dot_product(query_embedding, &self.docs[i].embedding);
            scores.push(s);
            i = i + 1;
        }
        let order = select_ranked(&scores, limit);
        let mut out: Vec<RAGChunk> = Vec::new();
        let mut k: usize = 0;
        while k < order.len()
            invariant
                n == self.docs@.len(),
                self.wf(),
                scores@.len() == n,
                forall|j: int|
                    0 <= j < n ==> #[trigger] scores@[j] as int == dot(
                        query_embedding@,
                        self.docs@[j].embedding@,
                    ),
                ranked_selection(scores@, order@),
                k <= order@.len(),
                out@.len() == k,
                forall|k2: int|
                    0 <= k2 < k ==> #[trigger] out@[k2] == (RAGChunk {
                        id: self.docs@[order@[k2] as int].id,
                        content: self.docs@[order@[k2] as int].content,
                        score: scores@[order@[k2] as int],
                    }),
            decreases order@.len() - k,
        {
            let idx = order[k];
            let d = &self.docs[idx];
            out.push(RAGChunk { id: d.id.clone(), content: d.content.clone(), score: scores[idx] });
            k = k + 1;
        }
        proof {
            let docs = self.docs@;
            let q = query_embedding@;
            let r = out@;
            assert forall|i2: int| 0 <= i2 < r.len() implies chunk_from(docs, q, #[trigger] r[i2]) by {
                let j = order@[i2] as int;
                assert(r[i2].id@ == docs[j].id@ && r[i2].content@ == docs[j].content@
                    && r[i2].score as int == dot(q, docs[j].embedding@));
            }
            assert forall|i2: int, j2: int| 0 <= i2 < j2 < r.len() implies (#[trigger] r[i2]).id@
                != (#[trigger] r[j2]).id@ by {
                let a = order@[i2] as int;
                let b = order@[j2] as int;
                assert(order@[i2] != order@[j2]);
                if a < b {
                    assert(docs[a].id@ != docs[b].id@);
                } else {
                    assert(docs[b].id@ != docs[a].id@);
                }
            }
            assert forall|jd: int, i2: int|
                0 <= jd < docs.len() && 0 <= i2 < r.len() && (forall|i3: int|
                    0 <= i3 < r.len() ==> (#[trigger] r[i3]).id@ != docs[jd].id@) implies dot(
                q,
                (#[trigger] docs[jd]).embedding@,
            ) <= (#[trigger] r[i2]).score as int by {
                assert(!order@.contains(jd as usize)) by {
                    if order@.contains(jd as usize) {
                        let w = choose|w: int|
                            0 <= w < order@.len() && order@[w] == jd as usize;
                        assert(r[w].id@ == docs[jd].id@);
                    }
                }
                assert(scores@[jd] as int <= scores@[order@[i2] as int] as int);
            }
        }
        out
    }
}

} // verus!
