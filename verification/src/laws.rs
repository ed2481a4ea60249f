//! The engine's laws: properties relating several operations, stated over
//! the same spec functions the operations' own contracts use, and proved
//! once and for all.

use vstd::prelude::*;
use crate::cache::SearchCache;
use crate::cache::has_key;
use crate::cache::key_index;
use crate::cache::lookup;
use crate::cache::stored_time;
use crate::models::Document;
use crate::models::DocumentSummary;
use crate::models::RAGChunk;
use crate::rank::dot;
use crate::rank::norm2;
use crate::store::chunk_from;
use crate::store::lex_chunk_of;
use crate::store::lex_match;
use crate::store::lexical_results;
use crate::store::lemma_filter_all_pass;
use crate::store::lemma_filter_member;
use crate::store::summary_of;
use crate::store::vector_results;
use crate::text::min_int;

verus! {

/// Twice a dot product never exceeds the sum of the squared norms
/// (each component satisfies `2ab <= a^2 + b^2`).
pub proof fn lemma_dot_le_norms(a: Seq<i64>, b: Seq<i64>)
    requires
        a.len() == b.len(),
    ensures
        2 * dot(a, b) <= norm2(a) + norm2(b),
    decreases a.len(),
{
    if a.len() == 0 {
    } else {
        lemma_dot_le_norms(a.drop_last(), b.drop_last());
        let x = a.last() as int;
        let y = b.last() as int;
        assert(2 * (x * y) <= x * x + y * y) by (nonlinear_arith);
    }
}

/// Relevance of an exact match: when some stored document carries the query
/// embedding itself and no stored embedding has a larger squared norm, a
/// similarity search ranks maximal relevance first: the top hit scores the
/// query's squared norm, and no hit scores more.
pub proof fn lemma_exact_match_ranks_first(
    docs: Seq<Document>,
    q: Seq<i64>,
    limit: int,
    r: Seq<RAGChunk>,
)
    requires
        vector_results(docs, q, limit, r),
        limit >= 1,
        forall|i: int, j: int|
            0 <= i < j < docs.len() ==> (#[trigger] docs[i]).id@ != (#[trigger] docs[j]).id@,
        forall|j: int| 0 <= j < docs.len() ==> (#[trigger] docs[j]).embedding@.len() == q.len(),
        forall|j: int| 0 <= j < docs.len() ==> norm2((#[trigger] docs[j]).embedding@) <= norm2(q),
        exists|j: int| 0 <= j < docs.len() && (#[trigger] docs[j]).embedding@ == q,
    ensures
        r.len() >= 1,
        r[0].score as int == norm2(q),
        forall|i: int| 0 <= i < r.len() ==> (#[trigger] r[i]).score as int <= norm2(q),
{
    let js = choose|j: int| 0 <= j < docs.len() && (#[trigger] docs[j]).embedding@ == q;
    assert(r.len() == min_int(limit, docs.len() as int));
    // no hit can score above the query's squared norm
    assert forall|i: int| 0 <= i < r.len() implies (#[trigger] r[i]).score as int <= norm2(q) by {
        assert(chunk_from(docs, q, r[i]));
        let j = choose|j: int|
            0 <= j < docs.len() && r[i].id@ == (#[trigger] docs[j]).id@ && r[i].content@
                == docs[j].content@ && r[i].score as int == dot(q, docs[j].embedding@);
        lemma_dot_le_norms(q, docs[j].embedding@);
    }
    // the exact match forces the top score up to the query's squared norm
    assert(dot(q, docs[js].embedding@) == norm2(q));
    if exists|i: int| 0 <= i < r.len() && (#[trigger] r[i]).id@ == docs[js].id@ {
        let i = choose|i: int| 0 <= i < r.len() && (#[trigger] r[i]).id@ == docs[js].id@;
        assert(chunk_from(docs, q, r[i]));
        let j = choose|j: int|
            0 <= j < docs.len() && r[i].id@ == (#[trigger] docs[j]).id@ && r[i].content@
                == docs[j].content@ && r[i].score as int == dot(q, docs[j].embedding@);
        assert(j == js) by {
            if j < js {
                assert(docs[j].id@ != docs[js].id@);
            } else if j > js {
                assert(docs[js].id@ != docs[j].id@);
            }
        }
        assert(r[i].score as int == norm2(q));
        if i > 0 {
            assert(r[0].score as int >= r[i].score as int);
        }
    } else {
        assert(forall|i2: int| 0 <= i2 < r.len() ==> (#[trigger] r[i2]).id@ != docs[js].id@);
        assert(dot(q, docs[js].embedding@) <= r[0].score as int);
    }
}

/// The chunk reports the id and content of some stored document.
pub open spec fn sound_at(docs: Seq<Document>, r: Seq<RAGChunk>, i: int) -> bool {
    exists|j: int|
        0 <= j < docs.len() && r[i].id@ == (#[trigger] docs[j]).id@ && r[i].content@
            == docs[j].content@
}

/// Every returned chunk reports the id and content of some stored document.
pub open spec fn results_sound(docs: Seq<Document>, r: Seq<RAGChunk>) -> bool {
    forall|i: int| 0 <= i < r.len() ==> #[trigger] sound_at(docs, r, i)
}

/// A similarity search only returns stored ids with their stored content.
pub proof fn lemma_vector_results_sound(docs: Seq<Document>, q: Seq<i64>, limit: int, r: Seq<
    RAGChunk,
>)
    requires
        vector_results(docs, q, limit, r),
    ensures
        results_sound(docs, r),
{
    assert forall|i: int| 0 <= i < r.len() implies #[trigger] sound_at(docs, r, i) by {
        assert(chunk_from(docs, q, r[i]));
        let j = choose|j: int|
            0 <= j < docs.len() && r[i].id@ == (#[trigger] docs[j]).id@ && r[i].content@
                == docs[j].content@ && r[i].score as int == dot(q, docs[j].embedding@);
        assert(0 <= j < docs.len() && r[i].id@ == docs[j].id@ && r[i].content@
            == docs[j].content@);
    }
}

/// A lexical search only returns stored ids with their stored content.
pub proof fn lemma_lexical_results_sound(docs: Seq<Document>, query: Seq<char>, limit: int, r: Seq<
    RAGChunk,
>)
    requires
        limit >= 0,
        lexical_results(docs, query, limit, r),
    ensures
        results_sound(docs, r),
{
    let pred = |d: Document| lex_match(d, query);
    let f = docs.filter(pred);
    let taken = f.take(min_int(limit, f.len() as int));
    assert(r.len() == taken.len());
    assert(taken.len() <= f.len());
    assert forall|i: int| 0 <= i < r.len() implies #[trigger] sound_at(docs, r, i) by {
        assert(r[i] == lex_chunk_of(taken[i]));
        assert(taken[i] == f[i]);
        lemma_filter_member(docs, pred, i);
        let j = choose|j: int| 0 <= j < docs.len() && #[trigger] docs[j] == f[i];
        assert(0 <= j < docs.len() && r[i].id@ == docs[j].id@ && r[i].content@
            == docs[j].content@);
    }
}

/// An update is reflected by search: once every stored document under this
/// id carries the new content (ids untouched, other documents untouched),
/// any sound search result returns, for that id, the new content and never
/// the pre-update content.
pub proof fn lemma_update_then_search(
    docs_old: Seq<Document>,
    docs_new: Seq<Document>,
    id: Seq<char>,
    new_content: Seq<char>,
    r: Seq<RAGChunk>,
)
    requires
        docs_new.len() == docs_old.len(),
        forall|j: int|
            0 <= j < docs_old.len() && (#[trigger] docs_old[j]).id@ != id ==> docs_new[j]
                == docs_old[j],
        forall|j: int|
            0 <= j < docs_old.len() && (#[trigger] docs_old[j]).id@ == id ==> (
            #[trigger] docs_new[j]).id@ == id && docs_new[j].content@ == new_content,
        results_sound(docs_new, r),
    ensures
        forall|i: int|
            0 <= i < r.len() && (#[trigger] r[i]).id@ == id ==> r[i].content@ == new_content,
{
    assert forall|i: int|
        0 <= i < r.len() && (#[trigger] r[i]).id@ == id implies r[i].content@ == new_content by {
        assert(sound_at(docs_new, r, i));
        let j = choose|j: int|
            0 <= j < docs_new.len() && r[i].id@ == (#[trigger] docs_new[j]).id@ && r[i].content@
                == docs_new[j].content@;
        if docs_old[j].id@ == id {
        } else {
            assert(docs_new[j] == docs_old[j]);
        }
    }
}

/// A deletion is reflected by listing: after the documents under this id are
/// filtered out, no page of the listing carries the id.
pub proof fn lemma_delete_then_list(
    docs_old: Seq<Document>,
    docs_new: Seq<Document>,
    id: Seq<char>,
    page: Seq<DocumentSummary>,
    offset: int,
)
    requires
        docs_new == docs_old.filter(|d: Document| d.id@ != id),
        offset >= 0,
        page.len() + offset <= docs_new.len(),
        forall|k: int|
            0 <= k < page.len() ==> #[trigger] page[k] == summary_of(
                docs_new[docs_new.len() - 1 - offset - k],
            ),
    ensures
        forall|k: int| 0 <= k < page.len() ==> (#[trigger] page[k]).id@ != id,
{
    let pred = |d: Document| d.id@ != id;
    assert forall|k: int| 0 <= k < page.len() implies (#[trigger] page[k]).id@ != id by {
        let j = docs_new.len() - 1 - offset - k;
        docs_old.lemma_filter_pred(pred, j);
        assert(pred(docs_new[j]));
    }
}

/// Deleting an id that is already gone changes nothing: filtering the same
/// id out twice equals filtering it out once.
pub proof fn lemma_delete_idempotent(docs: Seq<Document>, id: Seq<char>)
    ensures
        docs.filter(|d: Document| d.id@ != id).filter(|d: Document| d.id@ != id) == docs.filter(
            |d: Document| d.id@ != id,
        ),
{
    let pred = |d: Document| d.id@ != id;
    let once = docs.filter(pred);
    assert forall|j: int| 0 <= j < once.len() implies pred(#[trigger] once[j]) by {
        docs.lemma_filter_pred(pred, j);
    }
    lemma_filter_all_pass(once, pred);
}

/// The staleness trade-off, first half: once a search has memoized results
/// under the query text at time `t1`, a cache that document writes have left
/// alone answers byte-identical results for the identical query text at any
/// `t2` in `[t1, t1 + ttl)`, however the store changed in between.
pub proof fn lemma_second_search_within_ttl(
    c: SearchCache,
    q: Seq<char>,
    out: Seq<RAGChunk>,
    t1: int,
    t2: int,
)
    requires
        c.wf(),
        lookup(c, q, t1) == Some(out),
        stored_time(c, q) == t1,
        t1 <= t2 < t1 + c.ttl,
    ensures
        lookup(c, q, t2) == Some(out),
{
    assert(has_key(c.entries@, q));
}

/// The staleness trade-off, second half: at or past one TTL after the entry
/// was stored, the entry no longer answers, so a search recomputes from the
/// store as it then stands.
pub proof fn lemma_second_search_after_ttl(c: SearchCache, q: Seq<char>, t1: int, t2: int)
    requires
        c.wf(),
        has_key(c.entries@, q),
        stored_time(c, q) == t1,
        t2 >= t1 + c.ttl,
    ensures
        lookup(c, q, t2) is None,
{
    let i = key_index(c.entries@, q);
    assert(c.entries@[i].stored_at + c.ttl <= t2);
}

} // verus!
