//! The engine: one value holding the document store, the optional search
//! cache, the chat store and the ingestion status, with the search mode
//! fixed at construction. Methods are the verified core of every request:
//! document CRUD, cached search with graceful degradation, chat-turn
//! orchestration split around the completion call, and bulk ingestion
//! with live accounting.

use vstd::prelude::*;
use crate::DIM_MAX;
use crate::TITLE_MAX_CHARS;
use crate::TOP_K;
use crate::access::check_chat_access;
use crate::access::gate_error;
use crate::cache::SearchCache;
use crate::cache::lookup;
use crate::chat::ChatStore;
use crate::chat::build_system_prompt;
use crate::chat::context_of;
use crate::chat::has_message;
use crate::chat::has_session;
use crate::chat::history_of;
use crate::chat::join_contents;
use crate::chat::message_of;
use crate::chat::session_owned;
use crate::chat::system_prompt_of;
use crate::errors::RagError;
use crate::ingest::IngestItem;
use crate::models::ChatMessage;
use crate::models::ChatRequest;
use crate::models::ChatResponse;
use crate::models::ChatSession;
use crate::models::Document;
use crate::models::DocumentSummary;
use crate::models::ImportStatus;
use crate::models::Message;
use crate::models::RAGChunk;
use crate::models::User;
use crate::models::clone_embedding;
use crate::models::clone_opt_string;
use crate::outside::fresh_id;
use crate::rank::bounded;
use crate::store::DocumentStore;
use crate::store::contains_id;
use crate::store::lexical_results;
use crate::store::vector_results;
use crate::text::min_int;
use crate::text::truncate_chars;

verus! {

/// The capability fixed at startup: similarity search over embeddings, or
/// the lexical fallback when no embedding model could be loaded.
#[derive(Clone, Copy, Debug, PartialEq, Eq, Structural)]
pub enum SearchMode {
    Vector,
    Lexical,
}

/// The model used when a chat request names none.
pub open spec fn default_model() -> Seq<char> {
    "deepseek/deepseek-r1-0528:free"@
}

/// An all-zero embedding, stored when no embedding model is active.
pub open spec fn zero_seq(dim: int) -> Seq<i64> {
    Seq::new(dim as nat, |i: int| 0i64)
}

/// Builds the all-zero embedding of the given dimension.
pub fn zero_embedding(dim: usize) -> (r: Vec<i64>)
    ensures
        r@ == zero_seq(dim as int),
        r@.len() == dim,
        bounded(r@),
{
    let mut out: Vec<i64> = Vec::new();
    let mut i: usize = 0;
    while i < dim
        invariant
            i <= dim,
            out@.len() == i,
            forall|k: int| 0 <= k < i ==> #[trigger] out@[k] == 0i64,
        decreases dim - i,
    {
        out.push(0);
        i = i + 1;
    }
    proof {
        assert(out@ =~= zero_seq(dim as int));
    }
    out
}

/// The embedding a write stores: the provider's vector in vector mode, the
/// zero vector in lexical mode.
pub open spec fn stored_embedding(mode: SearchMode, dim: int, e: Option<Vec<i64>>) -> Seq<i64> {
    match mode {
        SearchMode::Vector => e->0@,
        SearchMode::Lexical => zero_seq(dim),
    }
}

/// A write is refused for want of an embedding: vector mode, none supplied.
pub open spec fn needs_embedding(mode: SearchMode, e: Option<Vec<i64>>) -> bool {
    mode is Vector && e is None
}

/// One assembled chat turn, ready for the completion provider: the resolved
/// session, the model to call, the retrieved chunks, and the role-tagged
/// message sequence (system prompt first, then the persisted history).
#[derive(Debug)]
pub struct PreparedTurn {
    pub session_id: String,
    pub model: String,
    pub chunks: Vec<RAGChunk>,
    pub messages: Vec<Message>,
}

/// The retrieval-augmented chat engine.
pub struct RagSystem {
    /// Fixed at startup; never re-attempted.
    pub mode: SearchMode,
    /// The vector document store.
    pub docs: DocumentStore,
    /// Whether a cache backend is configured; absence is never an error.
    pub cache_enabled: bool,
    /// The search cache (idle when disabled).
    pub cache: SearchCache,
    /// Sessions and messages.
    pub chat: ChatStore,
    /// Progress of the one in-flight or last-finished ingestion job.
    pub import_status: ImportStatus,
}

/// What a successful search returns: the fresh cache entry verbatim on a
/// hit; otherwise the mode's own ranking over the store.
pub open spec fn search_ok(pre: RagSystem, query: Seq<char>, qe: Option<Vec<i64>>, limit: int, now: int, out: Seq<RAGChunk>) -> bool {
    if pre.cache_enabled && lookup(pre.cache, query, now) is Some {
        Some(out) == lookup(pre.cache, query, now)
    } else {
        match pre.mode {
            SearchMode::Vector => qe is Some && vector_results(pre.docs.docs@, qe->0@, limit, out),
            SearchMode::Lexical => lexical_results(pre.docs.docs@, query, limit, out),
        }
    }
}

/// A search fails exactly when nothing fresh is cached and vector mode has
/// no query embedding to rank with.
pub open spec fn search_refused(pre: RagSystem, query: Seq<char>, qe: Option<Vec<i64>>, now: int) -> bool {
    &&& !(pre.cache_enabled && lookup(pre.cache, query, now) is Some)
    &&& needs_embedding(pre.mode, qe)
}

/// How a search leaves the cache: untouched on a hit or when disabled;
/// on a miss the computed results are memoized under the query text and
/// every other key answers as before.
pub open spec fn search_cache_effect(pre: RagSystem, post: RagSystem, query: Seq<char>, now: int, out: Seq<RAGChunk>) -> bool {
    if pre.cache_enabled {
        if lookup(pre.cache, query, now) is Some {
            post.cache == pre.cache
        } else {
            &&& post.cache.ttl == pre.cache.ttl
            &&& lookup(post.cache, query, now) == Some(out)
            &&& crate::cache::has_key(post.cache.entries@, query)
            &&& crate::cache::stored_time(post.cache, query) == now
            &&& forall|q2: Seq<char>, t: int|
                q2 != query ==> #[trigger] lookup(post.cache, q2, t) == lookup(pre.cache, q2, t)
        }
    } else {
        post.cache == pre.cache
    }
}

/// One message appended: everything before stays, the new last message has
/// the given id, session, role, content and time.
pub open spec fn message_pushed(pre: Seq<ChatMessage>, post: Seq<ChatMessage>, mid: String, sid: Seq<char>, role: Seq<char>, content: String, now: i64) -> bool {
    &&& post.len() == pre.len() + 1
    &&& post.take(pre.len() as int) == pre
    &&& post.last().id == mid
    &&& post.last().session_id@ == sid
    &&& post.last().role@ == role
    &&& post.last().content == content
    &&& post.last().created_at == now
}

/// One session appended for this user, titled with the message truncated to
/// the title limit, created and updated now.
pub open spec fn session_created(pre: Seq<ChatSession>, post: Seq<ChatSession>, sid: String, uid: Seq<char>, title_src: Seq<char>, now: i64) -> bool {
    &&& post.len() == pre.len() + 1
    &&& post.take(pre.len() as int) == pre
    &&& post.last().id == sid
    &&& post.last().user_id@ == uid
    &&& post.last().title is Some
    &&& post.last().title->0@ == title_src.take(
        min_int(TITLE_MAX_CHARS as int, title_src.len() as int),
    )
    &&& post.last().created_at == now
    &&& post.last().updated_at == now
}

/// How a chat turn resolves its session: a supplied id must already belong
/// to the caller and sessions stay as they were; with none supplied, a fresh
/// session is created under the fresh id.
pub open spec fn session_resolution(pre: RagSystem, post_sessions: Seq<ChatSession>, user: User, req: ChatRequest, fresh_sid: String, now: i64) -> bool {
    if req.session_id is Some {
        &&& post_sessions == pre.chat.sessions@
        &&& session_owned(pre.chat.sessions@, req.session_id->0@, user.id@)
    } else {
        session_created(pre.chat.sessions@, post_sessions, fresh_sid, user.id@, req.message@, now)
    }
}

/// The session id a chat turn uses: the supplied one, else the fresh one.
pub open spec fn resolved_session(req: ChatRequest, fresh_sid: String) -> String {
    if req.session_id is Some {
        req.session_id->0
    } else {
        fresh_sid
    }
}

/// The one reason a chat turn's assembly is refused, if any, checked in
/// order: a failed gate; a supplied session the caller does not own; a fresh
/// session id already taken; a message id already taken; no way to retrieve
/// (vector mode, no query embedding, nothing cached). Assembly succeeds
/// exactly when none applies.
pub open spec fn prepare_refusal(
    pre: RagSystem,
    user: User,
    req: ChatRequest,
    qe: Option<Vec<i64>>,
    fresh_sid: Seq<char>,
    user_msg_id: Seq<char>,
    now: int,
) -> Option<RagError> {
    if gate_error(user, now) is Some {
        gate_error(user, now)
    } else if req.session_id is Some && !session_owned(
        pre.chat.sessions@,
        req.session_id->0@,
        user.id@,
    ) {
        Some(RagError::NotFound)
    } else if req.session_id is None && has_session(pre.chat.sessions@, fresh_sid) {
        Some(RagError::Storage)
    } else if has_message(pre.chat.messages@, user_msg_id) {
        Some(RagError::Storage)
    } else if search_refused(pre, req.message@, qe, now) {
        Some(RagError::Provider)
    } else {
        None
    }
}

/// The one reason a chat turn's completion is refused, if any, checked in
/// order: the provider returned nothing; the session is gone; the assistant
/// message id is already taken. Completion succeeds exactly when none
/// applies.
pub open spec fn complete_refusal(
    pre: RagSystem,
    sid: Seq<char>,
    outcome: Option<String>,
    assistant_msg_id: Seq<char>,
) -> Option<RagError> {
    if outcome is None {
        Some(RagError::Provider)
    } else if !has_session(pre.chat.sessions@, sid) {
        Some(RagError::NotFound)
    } else if has_message(pre.chat.messages@, assistant_msg_id) {
        Some(RagError::Storage)
    } else {
        None
    }
}

/// One session's update time bumped to `now`; every other session, and all
/// other fields of this one, stay as they were.
pub open spec fn session_touched(pre: Seq<ChatSession>, post: Seq<ChatSession>, sid: Seq<char>, now: i64) -> bool {
    &&& post.len() == pre.len()
    &&& forall|j: int|
        0 <= j < pre.len() && (#[trigger] pre[j]).id@ != sid ==> post[j] == pre[j]
    &&& forall|j: int|
        0 <= j < pre.len() && (#[trigger] pre[j]).id@ == sid ==> post[j] == (ChatSession {
            updated_at: now,
            ..pre[j]
        })
}

/// A batch that cannot fail: one id per record, the ids distinct among
/// themselves and absent from the store, and (in vector mode) every record
/// carrying an embedding. Such a batch is owed full success.
pub open spec fn batch_prepared(
    docs: Seq<Document>,
    mode: SearchMode,
    items: Seq<IngestItem>,
    ids: Seq<String>,
) -> bool {
    &&& ids.len() == items.len()
    &&& forall|i: int, j: int|
        0 <= i < j < ids.len() ==> (#[trigger] ids[i])@ != (#[trigger] ids[j])@
    &&& forall|i: int| 0 <= i < ids.len() ==> !contains_id(docs, (#[trigger] ids[i])@)
    &&& (mode is Lexical || forall|i: int|
        0 <= i < items.len() ==> (#[trigger] items[i]).embedding is Some)
}

/// The terminal status message: clean, nothing read at all, or partial.
pub open spec fn final_message(processed: usize, errors: usize) -> Seq<char> {
    if errors == 0 {
        "Import complete"@
    } else if processed == 0 {
        "Import failed: no records could be read"@
    } else {
        "Import complete with errors"@
    }
}

/// What one ingestion batch does to the engine: counters advance by exactly
/// the batch (each record processed or counted as an error, parse failures
/// counted on top, missing embeddings in vector mode counted), the store
/// grows by exactly the processed records with its prior contents intact,
/// and a prepared batch (distinct fresh ids, embeddings present) is
/// processed completely, appending its records in order.
pub open spec fn ingest_batch_post(
    pre: RagSystem,
    post: RagSystem,
    items: Seq<IngestItem>,
    parse_failures: int,
    ids: Seq<String>,
) -> bool {
    &&& post.mode == pre.mode
    &&& post.docs.dim == pre.docs.dim
    &&& post.cache == pre.cache
    &&& post.cache_enabled == pre.cache_enabled
    &&& post.chat == pre.chat
    &&& post.import_status.current_file == pre.import_status.current_file
    &&& post.import_status.total_documents == pre.import_status.total_documents + items.len()
        + parse_failures
    &&& post.import_status.processed_documents >= pre.import_status.processed_documents
    &&& post.import_status.errors as int >= pre.import_status.errors + parse_failures
    &&& (pre.mode is Vector ==> post.import_status.errors as int >= pre.import_status.errors
        + parse_failures + items.filter(|it: IngestItem| it.embedding is None).len())
    &&& (post.import_status.processed_documents - pre.import_status.processed_documents) + (
    post.import_status.errors - pre.import_status.errors) == items.len() + parse_failures
    &&& post.docs.docs@.len() == pre.docs.docs@.len()
        + (post.import_status.processed_documents - pre.import_status.processed_documents)
    &&& post.docs.docs@.take(pre.docs.docs@.len() as int) == pre.docs.docs@
    &&& forall|j: int|
        pre.docs.docs@.len() <= j < post.docs.docs@.len() ==> exists|i: int|
            0 <= i < items.len() && (#[trigger] post.docs.docs@[j]).content == (
            #[trigger] items[i]).request.content && post.docs.docs@[j].metadata
                == items[i].request.metadata
    &&& (batch_prepared(pre.docs.docs@, pre.mode, items, ids) ==> {
        &&& post.import_status.processed_documents == pre.import_status.processed_documents
            + items.len()
        &&& post.import_status.errors == pre.import_status.errors + parse_failures
        &&& forall|k: int|
            0 <= k < items.len() ==> {
                let d = #[trigger] post.docs.docs@[pre.docs.docs@.len() + k];
                &&& d.id == ids[k]
                &&& d.content == items[k].request.content
                &&& d.metadata == items[k].request.metadata
                &&& d.embedding@ == stored_embedding(
                    pre.mode,
                    pre.docs.dim as int,
                    items[k].embedding,
                )
            }
    })
}

impl RagSystem {
    /// Validity of every component.
    pub open spec fn wf(self) -> bool {
        &&& self.docs.wf()
        &&& self.cache.wf()
        &&& self.chat.wf()
    }

    /// A fresh engine: the mode and embedding dimension fixed for the
    /// process lifetime, a cache when a TTL is configured, nothing stored.
    pub fn new(mode: SearchMode, dim: usize, cache_ttl: Option<i64>) -> (r: Self)
        requires
            0 < dim <= DIM_MAX,
            cache_ttl is Some ==> cache_ttl->0 > 0,
        ensures
            r.wf(),
            r.mode == mode,
            r.docs.dim == dim,
            r.docs.docs@.len() == 0,
            r.cache_enabled == cache_ttl is Some,
            r.cache.entries@.len() == 0,
            cache_ttl is Some ==> r.cache.ttl == cache_ttl->0,
            r.chat.sessions@.len() == 0,
            r.chat.messages@.len() == 0,
            !r.import_status.is_processing,
    {
        let (cache_enabled, ttl) = match cache_ttl {
            Some(t) => (true, t),
            None => (false, crate::DEFAULT_CACHE_TTL_SECS),
        };
        RagSystem {
            mode,
            docs: DocumentStore::new(dim),
            cache_enabled,
            cache: SearchCache::new(ttl),
            chat: ChatStore::new(),
            import_status: ImportStatus::default(),
        }
    }

    /// Adds a document: a fresh id is drawn, the content and metadata stored
    /// with the caller's embedding (vector mode) or the zero vector (lexical
    /// mode), and the id returned. Vector mode without an embedding is a
    /// provider error. No cached search is purged by the write.
    pub fn add_document(&mut self, content: String, metadata: Option<String>, embedding: Option<
        Vec<i64>,
    >) -> (r: Result<String, RagError>)
        requires
            old(self).wf(),
            embedding is Some ==> embedding->0@.len() == old(self).docs.dim && bounded(
                embedding->0@,
            ),
        ensures
            final(self).wf(),
            final(self).mode == old(self).mode,
            final(self).docs.dim == old(self).docs.dim,
            final(self).cache == old(self).cache,
            final(self).cache_enabled == old(self).cache_enabled,
            final(self).chat == old(self).chat,
            final(self).import_status == old(self).import_status,
            match r {
                Ok(id) => {
                    &&& !needs_embedding(old(self).mode, embedding)
                    &&& id@.len() == 36
                    &&& final(self).docs.docs@.len() == old(self).docs.docs@.len() + 1
                    &&& final(self).docs.docs@.take(old(self).docs.docs@.len() as int) == old(
                        self,
                    ).docs.docs@
                    &&& final(self).docs.docs@.last().id == id
                    &&& final(self).docs.docs@.last().content == content
                    &&& final(self).docs.docs@.last().metadata == metadata
                    &&& final(self).docs.docs@.last().embedding@ == stored_embedding(
                        old(self).mode,
                        old(self).docs.dim as int,
                        embedding,
                    )
                    &&& !contains_id(old(self).docs.docs@, id@)
                },
                Err(e) => {
                    &&& final(self).docs == old(self).docs
                    &&& (e == RagError::Provider && needs_embedding(old(self).mode, embedding)) || (
                    e == RagError::Storage && !needs_embedding(old(self).mode, embedding) && old(
                        self).docs.docs@.len() > 0)
                },
            },
    {
        let emb: Vec<i64> = match self.mode {
            SearchMode::Vector => match embedding {
                Some(e) => e,
                None => {
                    return Err(RagError::Provider);
                },
            },
            SearchMode::Lexical => zero_embedding(self.docs.dim),
        };
        let id = fresh_id();
        let id_out = id.clone();
        match self.docs.add_doc(id, content, metadata, emb) {
            Ok(()) => {
                proof {
                    assert(self.docs.docs@.take(old(self).docs.docs@.len() as int) =~= old(
                        self,
                    ).docs.docs@);
                }
                Ok(id_out)
            },
            Err(e) => Err(e),
        }
    }

    /// Re-embeds and overwrites the document with this id, in place. Fails
    /// with `NotFound` exactly when no document has the id, and with a
    /// provider error in vector mode without an embedding. No cached search
    /// is purged by the write.
    pub fn update_document(&mut self, id: &str, content: String, metadata: Option<String>, embedding: Option<
        Vec<i64>,
    >) -> (r: Result<(), RagError>)
        requires
            old(self).wf(),
            embedding is Some ==> embedding->0@.len() == old(self).docs.dim && bounded(
                embedding->0@,
            ),
        ensures
            final(self).wf(),
            final(self).mode == old(self).mode,
            final(self).docs.dim == old(self).docs.dim,
            final(self).cache == old(self).cache,
            final(self).cache_enabled == old(self).cache_enabled,
            final(self).chat == old(self).chat,
            final(self).import_status == old(self).import_status,
            match r {
                Ok(()) => {
                    &&& !needs_embedding(old(self).mode, embedding)
                    &&& contains_id(old(self).docs.docs@, id@)
                    &&& final(self).docs.docs@.len() == old(self).docs.docs@.len()
                    &&& forall|j: int|
                        0 <= j < old(self).docs.docs@.len() && (#[trigger] old(
                            self,
                        ).docs.docs@[j]).id@ != id@ ==> final(self).docs.docs@[j] == old(
                            self,
                        ).docs.docs@[j]
                    &&& forall|j: int|
                        0 <= j < old(self).docs.docs@.len() && (#[trigger] old(
                            self,
                        ).docs.docs@[j]).id@ == id@ ==> {
                            &&& final(self).docs.docs@[j].id == old(self).docs.docs@[j].id
                            &&& final(self).docs.docs@[j].content == content
                            &&& final(self).docs.docs@[j].metadata == metadata
                            &&& final(self).docs.docs@[j].embedding@ == stored_embedding(
                                old(self).mode,
                                old(self).docs.dim as int,
                                embedding,
                            )
                        }
                },
                Err(e) => {
                    &&& final(self).docs == old(self).docs
                    &&& (e == RagError::Provider && needs_embedding(old(self).mode, embedding)) || (
                    e == RagError::NotFound && !needs_embedding(old(self).mode, embedding)
                        && !contains_id(old(self).docs.docs@, id@))
                },
            },
    {
        let emb: Vec<i64> = match self.mode {
            SearchMode::Vector => match embedding {
                Some(e) => e,
                None => {
                    return Err(RagError::Provider);
                },
            },
            SearchMode::Lexical => zero_embedding(self.docs.dim),
        };
        self.docs.update_doc(id, content, metadata, emb)
    }

    /// Removes the document with this id; removing an absent id is a no-op,
    /// not an error. No cached search is purged by the write.
    pub fn delete_document(&mut self, id: &str) -> (r: Result<(), RagError>)
        requires
            old(self).wf(),
        ensures
            final(self).wf(),
            final(self).mode == old(self).mode,
            final(self).docs.dim == old(self).docs.dim,
            final(self).cache == old(self).cache,
            final(self).cache_enabled == old(self).cache_enabled,
            final(self).chat == old(self).chat,
            final(self).import_status == old(self).import_status,
            final(self).docs.docs@ == old(self).docs.docs@.filter(
                |d: crate::models::Document| d.id@ != id@,
            ),
            r is Ok,
    {
        self.docs.delete_doc(id);
        Ok(())
    }

    /// One page of the listing, newest first, with the total count.
    pub fn list_documents(&self, limit: usize, offset: usize) -> (r: (Vec<DocumentSummary>, usize))
        ensures
            r.1 == self.docs.docs@.len(),
            r.0@.len() == if offset < self.docs.docs@.len() {
                min_int(limit as int, self.docs.docs@.len() - offset)
            } else {
                0
            },
            forall|k: int|
                0 <= k < r.0@.len() ==> #[trigger] r.0@[k] == crate::store::summary_of(
                    self.docs.docs@[self.docs.docs@.len() - 1 - offset - k],
                ),
    {
        self.docs.list(limit, offset)
    }

    /// How many documents are stored.
    pub fn count_documents(&self) -> (r: usize)
        ensures
            r == self.docs.docs@.len(),
    {
        self.docs.count()
    }

    /// Retrieves the most relevant chunks for a query. A fresh cache entry
    /// under the identical query text answers verbatim, however the store
    /// has changed since; otherwise vector mode ranks by similarity of the
    /// supplied query embedding (failing as the provider did when none is
    /// supplied), lexical mode by case-insensitive containment, and the
    /// computed results are memoized.
    pub fn search(&mut self, query: &str, query_embedding: Option<Vec<i64>>, limit: usize, now: i64)
        -> (r: Result<Vec<RAGChunk>, RagError>)
        requires
            old(self).wf(),
            now >= 0,
            query_embedding is Some ==> query_embedding->0@.len() == old(self).docs.dim && bounded(
                query_embedding->0@,
            ),
        ensures
            final(self).wf(),
            final(self).mode == old(self).mode,
            final(self).docs == old(self).docs,
            final(self).cache_enabled == old(self).cache_enabled,
            final(self).chat == old(self).chat,
            final(self).import_status == old(self).import_status,
            match r {
                Ok(v) => search_ok(
                    *old(self),
                    query@,
                    query_embedding,
                    limit as int,
                    now as int,
                    v@,
                ) && search_cache_effect(*old(self), *final(self), query@, now as int, v@),
                Err(e) => e == RagError::Provider && search_refused(
                    *old(self),
                    query@,
                    query_embedding,
                    now as int,
                ) && *final(self) == *old(self),
            },
    {
        if self.cache_enabled {
            match self.cache.get(query, now) {
                Some(hit) => {
                    return Ok(hit);
                },
                None => {},
            }
        }
        let results: Vec<RAGChunk> = match self.mode {
            SearchMode::Vector => match query_embedding {
                Some(qe) => self.docs.vector_search(&qe, limit),
                None => {
                    return Err(RagError::Provider);
                },
            },
            SearchMode::Lexical => self.docs.lexical_search(query, limit),
        };
        if self.cache_enabled {
            let memo = crate::models::clone_chunks(&results);
            self.cache.put(query, memo, now);
        }
        Ok(results)
    }

    /// A snapshot of the ingestion status.
    pub fn get_import_status(&self) -> (r: ImportStatus)
        ensures
            r == self.import_status,
    {
        self.import_status.clone()
    }

    /// Marks an ingestion job as started on the named upload: processing is
    /// on, all counts are reset, and nothing else changes.
    pub fn ingest_begin(&mut self, filename: String)
        requires
            old(self).wf(),
        ensures
            final(self).wf(),
            final(self).mode == old(self).mode,
            final(self).docs == old(self).docs,
            final(self).cache == old(self).cache,
            final(self).cache_enabled == old(self).cache_enabled,
            final(self).chat == old(self).chat,
            final(self).import_status.is_processing,
            final(self).import_status.total_documents == 0,
            final(self).import_status.processed_documents == 0,
            final(self).import_status.errors == 0,
            final(self).import_status.current_file == filename,
            final(self).import_status.message@ == "Parsing file..."@,
    {
        self.import_status = ImportStatus {
            total_documents: 0,
            processed_documents: 0,
            errors: 0,
            is_processing: true,
            current_file: filename,
            message: "Parsing file...".to_owned(),
        };
    }

    /// Runs one ingestion batch, never aborting on a bad record: every
    /// record is attempted under its caller-supplied id, each failure
    /// (missing embedding in vector mode, id collision) only counts, parse
    /// failures count on top, and live counts are published as the batch
    /// runs. A prepared batch (distinct fresh ids, embeddings present) is
    /// owed full success: every record is appended, in order.
    pub fn ingest_batch(&mut self, items: Vec<IngestItem>, parse_failures: usize, ids: Vec<String>)
        requires
            old(self).wf(),
            forall|i: int|
                0 <= i < items@.len() && (#[trigger] items@[i]).embedding is Some
                    ==> items@[i].embedding->0@.len() == old(self).docs.dim && bounded(
                    items@[i].embedding->0@,
                ),
            ids@.len() == items@.len(),
            old(self).import_status.total_documents + items@.len() + parse_failures <= usize::MAX,
            old(self).import_status.processed_documents + items@.len() <= usize::MAX,
            old(self).import_status.errors + items@.len() + parse_failures <= usize::MAX,
        ensures
            final(self).wf(),
            ingest_batch_post(*old(self), *final(self), items@, parse_failures as int, ids@),
            final(self).import_status.is_processing == old(self).import_status.is_processing,
            final(self).import_status.message@ == "Importing documents..."@,
    {
        let ghost pre = *old(self);
        let n = items.len();
        let tot = self.import_status.total_documents + n + parse_failures;
        self.import_status.total_documents = tot;
        self.import_status.message = "Importing documents...".to_owned();
        let ghost none_pred = |it: IngestItem| it.embedding is None;
        let ghost prepared = batch_prepared(pre.docs.docs@, pre.mode, items@, ids@);
        let mut processed: usize = self.import_status.processed_documents;
        let mut errors: usize = self.import_status.errors + parse_failures;
        self.import_status.errors = errors;
        let mut i: usize = 0;
        proof {
            assert(items@.take(0) =~= Seq::<IngestItem>::empty());
            reveal(Seq::filter);
        }
        while i < n
            invariant
                pre.wf(),
                self.wf(),
                n == items@.len(),
                ids@.len() == n,
                i <= n,
                pre.import_status.processed_documents + n <= usize::MAX,
                pre.import_status.errors + n + parse_failures <= usize::MAX,
                processed >= pre.import_status.processed_documents,
                errors >= pre.import_status.errors + parse_failures,
                (processed - pre.import_status.processed_documents) + (errors
                    - pre.import_status.errors) == i + parse_failures,
                none_pred == (|it: IngestItem| it.embedding is None),
                prepared == batch_prepared(pre.docs.docs@, pre.mode, items@, ids@),
                self.mode is Vector ==> errors as int >= pre.import_status.errors + parse_failures
                    + items@.take(i as int).filter(none_pred).len(),
                self.mode == pre.mode,
                self.docs.dim == pre.docs.dim,
                self.cache == pre.cache,
                self.cache_enabled == pre.cache_enabled,
                self.chat == pre.chat,
                self.import_status.is_processing == pre.import_status.is_processing,
                self.import_status.current_file == pre.import_status.current_file,
                self.import_status.message@ == "Importing documents..."@,
                self.import_status.total_documents == pre.import_status.total_documents
                    + items@.len() + parse_failures,
                self.import_status.processed_documents == processed,
                self.import_status.errors == errors,
                forall|i2: int|
                    0 <= i2 < items@.len() && (#[trigger] items@[i2]).embedding is Some
                        ==> items@[i2].embedding->0@.len() == pre.docs.dim && bounded(
                        items@[i2].embedding->0@,
                    ),
                self.docs.docs@.len() == pre.docs.docs@.len() + (processed
                    - pre.import_status.processed_documents),
                self.docs.docs@.take(pre.docs.docs@.len() as int) == pre.docs.docs@,
                forall|j: int|
                    pre.docs.docs@.len() <= j < self.docs.docs@.len() ==> exists|i2: int|
                        0 <= i2 < items@.len() && (#[trigger] self.docs.docs@[j]).content == (
                        #[trigger] items@[i2]).request.content && self.docs.docs@[j].metadata
                            == items@[i2].request.metadata,
                prepared ==> processed == pre.import_status.processed_documents + i,
                prepared ==> forall|k: int|
                    0 <= k < i ==> {
                        let d = #[trigger] self.docs.docs@[pre.docs.docs@.len() + k];
                        &&& d.id == ids@[k]
                        &&& d.content == items@[k].request.content
                        &&& d.metadata == items@[k].request.metadata
                        &&& d.embedding@ == stored_embedding(
                            pre.mode,
                            pre.docs.dim as int,
                            items@[k].embedding,
                        )
                    },
            decreases n - i,
        {
            let ghost pre_docs = self.docs.docs@;
            proof {
                if prepared {
                    assert(!contains_id(self.docs.docs@, ids@[i as int]@)) by {
                        if contains_id(self.docs.docs@, ids@[i as int]@) {
                            let j = choose|j: int|
                                0 <= j < self.docs.docs@.len() && (
                                #[trigger] self.docs.docs@[j]).id@ == ids@[i as int]@;
                            if j < pre.docs.docs@.len() {
                                assert(pre.docs.docs@[j] == self.docs.docs@.take(
                                    pre.docs.docs@.len() as int,
                                )[j]);
                                assert(contains_id(pre.docs.docs@, ids@[i as int]@));
                            } else {
                                let k = j - pre.docs.docs@.len();
                                assert(0 <= k < i);
                                assert(self.docs.docs@[pre.docs.docs@.len() + k]
                                    == self.docs.docs@[j]);
                                assert(self.docs.docs@[pre.docs.docs@.len() + k].id == ids@[k]);
                                assert(ids@[k]@ != ids@[i as int]@);
                            }
                        }
                    }
                }
            }
            let item = &items[i];
            let content = item.request.content.clone();
            let metadata = clone_opt_string(&item.request.metadata);
            let emb_ok: Option<Vec<i64>> = match self.mode {
                SearchMode::Vector => match &item.embedding {
                    Some(e) => Some(clone_embedding(e)),
                    None => None,
                },
                SearchMode::Lexical => Some(zero_embedding(self.docs.dim)),
            };
            match emb_ok {
                Some(emb) => {
                    let id = ids[i].clone();
                    match self.docs.add_doc(id, content, metadata, emb) {
                        Ok(()) => {
                            processed = processed + 1;
                            proof {
                                assert(self.docs.docs@.take(pre.docs.docs@.len() as int)
                                    =~= pre_docs.take(pre.docs.docs@.len() as int));
                                assert forall|j: int|
                                    pre.docs.docs@.len() <= j < self.docs.docs@.len()
                                    implies exists|i2: int|
                                    0 <= i2 < items@.len() && (
                                    #[trigger] self.docs.docs@[j]).content == (
                                    #[trigger] items@[i2]).request.content
                                        && self.docs.docs@[j].metadata
                                        == items@[i2].request.metadata by {
                                    if j < self.docs.docs@.len() - 1 {
                                        assert(self.docs.docs@[j] == pre_docs[j]);
                                    } else {
                                        assert(self.docs.docs@[j].content == items@[i as int].request.content
                                            && self.docs.docs@[j].metadata == items@[
                                        i as int].request.metadata);
                                    }
                                }
                                if prepared {
                                    assert forall|k: int| 0 <= k < i + 1 implies {
                                        let d = #[trigger] self.docs.docs@[pre.docs.docs@.len()
                                            + k];
                                        &&& d.id == ids@[k]
                                        &&& d.content == items@[k].request.content
                                        &&& d.metadata == items@[k].request.metadata
                                        &&& d.embedding@ == stored_embedding(
                                            pre.mode,
                                            pre.docs.dim as int,
                                            items@[k].embedding,
                                        )
                                    } by {
                                        if k < i as int {
                                            assert(self.docs.docs@[pre.docs.docs@.len() + k]
                                                == pre_docs[pre.docs.docs@.len() + k]);
                                        }
                                    }
                                }
                            }
                        },
                        Err(_) => {
                            errors = errors + 1;
                            proof {
                                if prepared {
                                    assert(contains_id(pre_docs, ids@[i as int]@));
                                    assert(false);
                                }
                            }
                        },
                    }
                },
                None => {
                    errors = errors + 1;
                    proof {
                        if prepared {
                            assert(items@[i as int].embedding is Some);
                            assert(false);
                        }
                    }
                },
            }
            self.import_status.processed_documents = processed;
            self.import_status.errors = errors;
            proof {
                assert(items@.take(i + 1) =~= items@.take(i as int).push(items@[i as int]));
                items@.take(i as int).lemma_filter_push(items@[i as int], none_pred);
            }
            i = i + 1;
        }
        proof {
            assert(items@.take(n as int) =~= items@);
        }
    }

    /// Ends the ingestion job: processing is switched off, the counts stay
    /// as they are, and the terminal message names the outcome.
    pub fn ingest_finish(&mut self)
        requires
            old(self).wf(),
        ensures
            final(self).wf(),
            final(self).mode == old(self).mode,
            final(self).docs == old(self).docs,
            final(self).cache == old(self).cache,
            final(self).cache_enabled == old(self).cache_enabled,
            final(self).chat == old(self).chat,
            !final(self).import_status.is_processing,
            final(self).import_status.total_documents == old(self).import_status.total_documents,
            final(self).import_status.processed_documents == old(
                self).import_status.processed_documents,
            final(self).import_status.errors == old(self).import_status.errors,
            final(self).import_status.current_file == old(self).import_status.current_file,
            final(self).import_status.message@ == final_message(
                old(self).import_status.processed_documents,
                old(self).import_status.errors,
            ),
    {
        self.import_status.is_processing = false;
        let msg: String = if self.import_status.errors == 0 {
            "Import complete".to_owned()
        } else if self.import_status.processed_documents == 0 {
            "Import failed: no records could be read".to_owned()
        } else {
            "Import complete with errors".to_owned()
        };
        self.import_status.message = msg;
    }

    /// Runs one parsed upload to the end in a single call: the batch, then
    /// the terminal status. Chunked callers use `ingest_batch` directly and
    /// finish once, so pollers see live progress.
    pub fn ingest_records(&mut self, items: Vec<IngestItem>, parse_failures: usize, ids: Vec<
        String,
    >)
        requires
            old(self).wf(),
            forall|i: int|
                0 <= i < items@.len() && (#[trigger] items@[i]).embedding is Some
                    ==> items@[i].embedding->0@.len() == old(self).docs.dim && bounded(
                    items@[i].embedding->0@,
                ),
            ids@.len() == items@.len(),
            old(self).import_status.total_documents + items@.len() + parse_failures <= usize::MAX,
            old(self).import_status.processed_documents + items@.len() <= usize::MAX,
            old(self).import_status.errors + items@.len() + parse_failures <= usize::MAX,
        ensures
            final(self).wf(),
            ingest_batch_post(*old(self), *final(self), items@, parse_failures as int, ids@),
            !final(self).import_status.is_processing,
            final(self).import_status.message@ == final_message(
                final(self).import_status.processed_documents,
                final(self).import_status.errors,
            ),
    {
        self.ingest_batch(items, parse_failures, ids);
        self.ingest_finish();
    }

    /// Assembles one chat turn up to the completion call: gating, session
    /// resolution or creation, persisting the user turn, context retrieval
    /// through the cache, and the prompt built over the persisted history.
    /// The user turn stays persisted even when retrieval then fails.
    pub fn chat_prepare(&mut self, user: &User, req: &ChatRequest, query_embedding: Option<
        Vec<i64>,
    >, session_id_fresh: String, user_msg_id: String, now: i64) -> (r: Result<
        PreparedTurn,
        RagError,
    >)
        requires
            old(self).wf(),
            now >= 0,
            query_embedding is Some ==> query_embedding->0@.len() == old(self).docs.dim && bounded(
                query_embedding->0@,
            ),
        ensures
            final(self).wf(),
            final(self).mode == old(self).mode,
            final(self).docs == old(self).docs,
            final(self).cache_enabled == old(self).cache_enabled,
            final(self).import_status == old(self).import_status,
            r is Ok <==> prepare_refusal(
                *old(self),
                *user,
                *req,
                query_embedding,
                session_id_fresh@,
                user_msg_id@,
                now as int,
            ) is None,
            r is Err ==> Some(r->Err_0) == prepare_refusal(
                *old(self),
                *user,
                *req,
                query_embedding,
                session_id_fresh@,
                user_msg_id@,
                now as int,
            ),
            match r {
                Ok(prep) => {
                    &&& gate_error(*user, now as int) is None
                    &&& session_resolution(
                        *old(self),
                        final(self).chat.sessions@,
                        *user,
                        *req,
                        session_id_fresh,
                        now,
                    )
                    &&& prep.session_id == resolved_session(*req, session_id_fresh)
                    &&& message_pushed(
                        old(self).chat.messages@,
                        final(self).chat.messages@,
                        user_msg_id,
                        prep.session_id@,
                        "user"@,
                        req.message,
                        now,
                    )
                    &&& search_ok(
                        *old(self),
                        req.message@,
                        query_embedding,
                        TOP_K as int,
                        now as int,
                        prep.chunks@,
                    )
                    &&& search_cache_effect(
                        *old(self),
                        *final(self),
                        req.message@,
                        now as int,
                        prep.chunks@,
                    )
                    &&& prep.messages@.len() > 0
                    &&& prep.messages@[0].role@ == "system"@
                    &&& prep.messages@[0].content@ == system_prompt_of(context_of(prep.chunks@))
                    &&& prep.messages@.skip(1) == history_of(
                        final(self).chat.messages@,
                        prep.session_id@,
                    ).map_values(|m: ChatMessage| message_of(m))
                    &&& (req.model is Some ==> prep.model == req.model->0)
                    &&& (req.model is None ==> prep.model@ == default_model())
                },
                Err(e) => {
                    if e == RagError::Provider {
                        &&& final(self).cache == old(self).cache
                        &&& session_resolution(
                            *old(self),
                            final(self).chat.sessions@,
                            *user,
                            *req,
                            session_id_fresh,
                            now,
                        )
                        &&& message_pushed(
                            old(self).chat.messages@,
                            final(self).chat.messages@,
                            user_msg_id,
                            resolved_session(*req, session_id_fresh)@,
                            "user"@,
                            req.message,
                            now,
                        )
                    } else if e == RagError::Storage {
                        &&& final(self).cache == old(self).cache
                        &&& if req.session_id is None && has_session(
                            old(self).chat.sessions@,
                            session_id_fresh@,
                        ) {
                            *final(self) == *old(self)
                        } else {
                            &&& final(self).chat.messages@ == old(self).chat.messages@
                            &&& session_resolution(
                                *old(self),
                                final(self).chat.sessions@,
                                *user,
                                *req,
                                session_id_fresh,
                                now,
                            )
                        }
                    } else {
                        *final(self) == *old(self)
                    }
                },
            },
    {
        match check_chat_access(user, now) {
            Ok(()) => {},
            Err(e) => {
                return Err(e);
            },
        }
        let sid: String = match &req.session_id {
            Some(s) => {
                if self.chat.session_owned_by(s.as_str(), user.id.as_str()) {
                    s.clone()
                } else {
                    return Err(RagError::NotFound);
                }
            },
            None => {
                let title = truncate_chars(req.message.as_str(), TITLE_MAX_CHARS);
                match self.chat.create_session(
                    session_id_fresh.clone(),
                    user.id.clone(),
                    Some(title),
                    now,
                ) {
                    Ok(()) => session_id_fresh,
                    Err(e) => {
                        return Err(e);
                    },
                }
            },
        };
        match self.chat.append_message(
            user_msg_id,
            sid.clone(),
            "user".to_owned(),
            req.message.clone(),
            now,
        ) {
            Ok(()) => {},
            Err(e) => {
                proof {
                    if req.session_id is None {
                        assert(self.chat.sessions@.take(old(self).chat.sessions@.len() as int)
                            =~= old(self).chat.sessions@);
                    }
                }
                return Err(e);
            },
        }
        proof {
            assert(self.chat.messages@.take(old(self).chat.messages@.len() as int) =~= old(
                self,
            ).chat.messages@);
            if req.session_id is None {
                assert(self.chat.sessions@.take(old(self).chat.sessions@.len() as int) =~= old(
                    self,
                ).chat.sessions@);
            }
        }
        let chunks = match self.search(req.message.as_str(), query_embedding, TOP_K, now) {
            Ok(c) => c,
            Err(e) => {
                return Err(e);
            },
        };
        let context = join_contents(&chunks);
        let system_prompt = build_system_prompt(context.as_str());
        let hist = self.chat.history(sid.as_str());
        let mut messages: Vec<Message> = Vec::new();
        messages.push(Message { role: "system".to_owned(), content: system_prompt });
        let m = hist.len();
        let mut k: usize = 0;
        while k < m
            invariant
                m == hist@.len(),
                k <= m,
                messages@.len() == k + 1,
                messages@[0].role@ == "system"@,
                messages@[0].content@ == system_prompt_of(context_of(chunks@)),
                forall|k2: int| 0 <= k2 < k ==> #[trigger] messages@[k2 + 1] == hist@[k2],
            decreases m - k,
        {
            messages.push(hist[k].clone());
            k = k + 1;
        }
        proof {
            assert(messages@.skip(1) =~= hist@);
        }
        let model: String = match &req.model {
            Some(mn) => mn.clone(),
            None => "deepseek/deepseek-r1-0528:free".to_owned(),
        };
        Ok(PreparedTurn { session_id: sid, model, chunks, messages })
    }

    /// Finishes one chat turn after the completion call. A provider failure
    /// changes nothing, leaving the already-persisted user turn as the only
    /// trace. On success exactly one assistant message is appended and the
    /// session's update time advances to now.
    pub fn chat_complete(&mut self, session_id: &str, outcome: Option<String>, assistant_msg_id: String, now: i64)
        -> (r: Result<ChatResponse, RagError>)
        requires
            old(self).wf(),
        ensures
            final(self).wf(),
            final(self).mode == old(self).mode,
            final(self).docs == old(self).docs,
            final(self).cache == old(self).cache,
            final(self).cache_enabled == old(self).cache_enabled,
            final(self).import_status == old(self).import_status,
            r is Ok <==> complete_refusal(*old(self), session_id@, outcome, assistant_msg_id@)
                is None,
            r is Err ==> Some(r->Err_0) == complete_refusal(
                *old(self),
                session_id@,
                outcome,
                assistant_msg_id@,
            ),
            outcome is None ==> r == Err::<ChatResponse, RagError>(RagError::Provider)
                && *final(self) == *old(self),
            outcome is Some ==> match r {
                Ok(resp) => {
                    &&& has_session(old(self).chat.sessions@, session_id@)
                    &&& message_pushed(
                        old(self).chat.messages@,
                        final(self).chat.messages@,
                        assistant_msg_id,
                        session_id@,
                        "assistant"@,
                        outcome->0,
                        now,
                    )
                    &&& session_touched(
                        old(self).chat.sessions@,
                        final(self).chat.sessions@,
                        session_id@,
                        now,
                    )
                    &&& resp.response == outcome->0
                    &&& resp.session_id@ == session_id@
                },
                Err(_) => *final(self) == *old(self),
            },
    {
        let content = match outcome {
            Some(c) => c,
            None => {
                return Err(RagError::Provider);
            },
        };
        if !self.chat.session_exists(session_id) {
            return Err(RagError::NotFound);
        }
        let response_text = content.clone();
        match self.chat.append_message(
            assistant_msg_id,
            session_id.to_owned(),
            "assistant".to_owned(),
            content,
            now,
        ) {
            Ok(()) => {},
            Err(e) => {
                return Err(e);
            },
        }
        let _touched = self.chat.touch_session(session_id, now);
        proof {
            assert(self.chat.messages@.take(old(self).chat.messages@.len() as int) =~= old(
                self,
            ).chat.messages@);
        }
        Ok(ChatResponse { response: response_text, session_id: session_id.to_owned() })
    }

    /// The caller's sessions, most recently updated first.
    pub fn list_chat_sessions(&self, user_id: &str) -> (r: Vec<ChatSession>)
        requires
            self.wf(),
        ensures
            ({
                let f = self.chat.sessions@.filter(|s: ChatSession| s.user_id@ == user_id@);
                &&& r@.len() == f.len()
                &&& forall|a: int, b: int|
                    0 <= a < b < r@.len() ==> (#[trigger] r@[a]).updated_at >= (
                    #[trigger] r@[b]).updated_at
                &&& forall|k: int| 0 <= k < r@.len() ==> f.contains(#[trigger] r@[k])
                &&& forall|j: int| 0 <= j < f.len() ==> r@.contains(#[trigger] f[j])
            }),
    {
        self.chat.list_sessions(user_id)
    }

    /// The messages of one of the caller's sessions, in order; a session the
    /// caller does not own reads as absent.
    pub fn get_chat_session(&self, session_id: &str, user_id: &str) -> (r: Result<
        Vec<Message>,
        RagError,
    >)
        requires
            self.wf(),
        ensures
            match r {
                Ok(v) => session_owned(self.chat.sessions@, session_id@, user_id@) && v@
                    == history_of(self.chat.messages@, session_id@).map_values(
                    |m: ChatMessage| message_of(m),
                ),
                Err(e) => e == RagError::NotFound && !session_owned(
                    self.chat.sessions@,
                    session_id@,
                    user_id@,
                ),
            },
    {
        if self.chat.session_owned_by(session_id, user_id) {
            Ok(self.chat.history(session_id))
        } else {
            Err(RagError::NotFound)
        }
    }

    /// Deletes one of the caller's sessions and all its messages; a session
    /// the caller does not own reads as absent and nothing changes.
    pub fn delete_chat_session(&mut self, session_id: &str, user_id: &str) -> (r: Result<
        (),
        RagError,
    >)
        requires
            old(self).wf(),
        ensures
            final(self).wf(),
            final(self).mode == old(self).mode,
            final(self).docs == old(self).docs,
            final(self).cache == old(self).cache,
            final(self).cache_enabled == old(self).cache_enabled,
            final(self).import_status == old(self).import_status,
            match r {
                Ok(()) => {
                    &&& session_owned(old(self).chat.sessions@, session_id@, user_id@)
                    &&& final(self).chat.sessions@ == old(self).chat.sessions@.filter(
                        |s: ChatSession| s.id@ != session_id@,
                    )
                    &&& final(self).chat.messages@ == old(self).chat.messages@.filter(
                        |m: ChatMessage| m.session_id@ != session_id@,
                    )
                },
                Err(e) => e == RagError::NotFound && !session_owned(
                    old(self).chat.sessions@,
                    session_id@,
                    user_id@,
                ) && *final(self) == *old(self),
            },
    {
        if self.chat.session_owned_by(session_id, user_id) {
            self.chat.delete_session(session_id);
            Ok(())
        } else {
            Err(RagError::NotFound)
        }
    }
}

} // verus!
