//! Plain data carried through the engine. Dates and times are Unix seconds;
//! embeddings are fixed-point integer vectors; similarity scores are plain
//! integers (the dot product in vector mode, a constant in lexical mode).

use vstd::prelude::*;

verus! {

/// Copies an optional string, field for field.
pub fn clone_opt_string(o: &Option<String>) -> (r: Option<String>)
    ensures
        r == *o,
{
    match o {
        Option::Some(s) => Option::Some(s.clone()),
        Option::None => Option::None,
    }
}

/// Copies an embedding vector.
pub fn clone_embedding(v: &Vec<i64>) -> (r: Vec<i64>)
    ensures
        r@ == v@,
{
    let mut out: Vec<i64> = Vec::new();
    let mut i: usize = 0;
    while i < v.len()
        invariant
            i <= v@.len(),
            out@ == v@.take(i as int),
        decreases v@.len() - i,
    {
        out.push(v[i]);
        i = i + 1;
        proof {
            assert(out@ =~= v@.take(i as int));
        }
    }
    proof {
        assert(out@ =~= v@);
    }
    out
}

/// A stored knowledge document: opaque id, text content, optional structured
/// metadata (kept as its serialized text), and a fixed-dimension embedding.
#[derive(Debug)]
pub struct Document {
    pub id: String,
    pub content: String,
    pub metadata: Option<String>,
    pub embedding: Vec<i64>,
}

/// One page entry of a document listing: everything but the embedding.
#[derive(Debug)]
pub struct DocumentSummary {
    pub id: String,
    pub content: String,
    pub metadata: Option<String>,
}

impl Clone for DocumentSummary {
    fn clone(&self) -> (r: Self)
        ensures
            r == *self,
    {
        DocumentSummary {
            id: self.id.clone(),
            content: self.content.clone(),
            metadata: clone_opt_string(&self.metadata),
        }
    }
}

/// One search hit: the document's id and content with a similarity score
/// (higher is more relevant; scores are not comparable across search modes).
#[derive(Debug)]
pub struct RAGChunk {
    pub id: String,
    pub content: String,
    pub score: i64,
}

impl Clone for RAGChunk {
    fn clone(&self) -> (r: Self)
        ensures
            r == *self,
    {
        RAGChunk { id: self.id.clone(), content: self.content.clone(), score: self.score }
    }
}

/// Copies a list of search hits.
pub fn clone_chunks(v: &Vec<RAGChunk>) -> (r: Vec<RAGChunk>)
    ensures
        r@ == v@,
{
    let mut out: Vec<RAGChunk> = Vec::new();
    let mut i: usize = 0;
    while i < v.len()
        invariant
            i <= v@.len(),
            out@ == v@.take(i as int),
        decreases v@.len() - i,
    {
        out.push(v[i].clone());
        i = i + 1;
        proof {
            assert(out@ =~= v@.take(i as int));
        }
    }
    proof {
        assert(out@ =~= v@);
    }
    out
}

/// Live progress of the one in-flight (or last finished) bulk ingestion job.
#[derive(Debug)]
pub struct ImportStatus {
    pub total_documents: usize,
    pub processed_documents: usize,
    pub errors: usize,
    pub is_processing: bool,
    pub current_file: String,
    pub message: String,
}

impl Clone for ImportStatus {
    fn clone(&self) -> (r: Self)
        ensures
            r == *self,
    {
        ImportStatus {
            total_documents: self.total_documents,
            processed_documents: self.processed_documents,
            errors: self.errors,
            is_processing: self.is_processing,
            current_file: self.current_file.clone(),
            message: self.message.clone(),
        }
    }
}

impl Default for ImportStatus {
    /// The idle state: nothing processing, all counts zero, empty texts.
    fn default() -> (r: Self)
        ensures
            r.total_documents == 0,
            r.processed_documents == 0,
            r.errors == 0,
            !r.is_processing,
            r.current_file@ == Seq::<char>::empty(),
            r.message@ == Seq::<char>::empty(),
    {
        ImportStatus {
            total_documents: 0,
            processed_documents: 0,
            errors: 0,
            is_processing: false,
            current_file: String::new(),
            message: String::new(),
        }
    }
}

/// A record of a bulk upload or of a direct document-creation call.
#[derive(Debug)]
pub struct CreateDocumentRequest {
    pub content: String,
    pub metadata: Option<String>,
}

impl Clone for CreateDocumentRequest {
    fn clone(&self) -> (r: Self)
        ensures
            r == *self,
    {
        CreateDocumentRequest {
            content: self.content.clone(),
            metadata: clone_opt_string(&self.metadata),
        }
    }
}

/// One role-tagged message of an assembled completion request.
#[derive(Debug)]
pub struct Message {
    pub role: String,
    pub content: String,
}

impl Clone for Message {
    fn clone(&self) -> (r: Self)
        ensures
            r == *self,
    {
        Message { role: self.role.clone(), content: self.content.clone() }
    }
}

/// An incoming chat request.
#[derive(Debug)]
pub struct ChatRequest {
    pub message: String,
    pub history: Option<Vec<Message>>,
    pub model: Option<String>,
    pub session_id: Option<String>,
}

/// The reply of a finished chat turn.
#[derive(Debug)]
pub struct ChatResponse {
    pub response: String,
    pub session_id: String,
}

/// A chat session: owned by exactly one user, timestamps in Unix seconds.
#[derive(Debug)]
pub struct ChatSession {
    pub id: String,
    pub user_id: String,
    pub title: Option<String>,
    pub created_at: i64,
    pub updated_at: i64,
}

impl Clone for ChatSession {
    fn clone(&self) -> (r: Self)
        ensures
            r == *self,
    {
        ChatSession {
            id: self.id.clone(),
            user_id: self.user_id.clone(),
            title: clone_opt_string(&self.title),
            created_at: self.created_at,
            updated_at: self.updated_at,
        }
    }
}

/// One persisted chat message, append-only, in creation order.
#[derive(Debug)]
pub struct ChatMessage {
    pub id: String,
    pub session_id: String,
    pub role: String,
    pub content: String,
    pub created_at: i64,
}

impl Clone for ChatMessage {
    fn clone(&self) -> (r: Self)
        ensures
            r == *self,
    {
        ChatMessage {
            id: self.id.clone(),
            session_id: self.session_id.clone(),
            role: self.role.clone(),
            content: self.content.clone(),
            created_at: self.created_at,
        }
    }
}

/// An account as the gating rules see it.
#[derive(Debug)]
pub struct User {
    pub id: String,
    pub username: String,
    pub fullname: Option<String>,
    pub email: Option<String>,
    pub password_hash: String,
    pub role: String,
    pub email_verified: bool,
    pub subscription_end: Option<i64>,
    pub created_at: i64,
}

/// The identity extracted from a request's bearer token.
#[derive(Debug)]
pub struct AuthenticatedUser {
    pub id: String,
    pub username: String,
    pub role: String,
}

/// The claims carried by an authentication token.
#[derive(Debug)]
pub struct Claims {
    pub sub: String,
    pub username: String,
    pub role: String,
    pub exp: usize,
}

/// Registration input.
#[derive(Debug)]
pub struct RegisterRequest {
    pub username: String,
    pub password: String,
    pub fullname: String,
    pub email: String,
}

/// Login input.
#[derive(Debug)]
pub struct LoginRequest {
    pub username: String,
    pub password: String,
}

/// Login output.
#[derive(Debug)]
pub struct AuthResponse {
    pub token: String,
    pub username: String,
    pub role: String,
}

/// Email-verification input.
#[derive(Debug)]
pub struct VerifyEmailRequest {
    pub token: String,
}

/// Voucher-creation input.
#[derive(Debug)]
pub struct VoucherGenerateRequest {
    pub duration_days: i32,
    pub max_uses: Option<i32>,
}

/// Voucher-redemption input.
#[derive(Debug)]
pub struct VoucherRedeemRequest {
    pub code: String,
}

/// A user's pending or settled request for a voucher.
#[derive(Debug)]
pub struct VoucherRequest {
    pub id: String,
    pub user_id: String,
    pub message: Option<String>,
    pub status: String,
    pub created_at: i64,
    pub updated_at: i64,
}

/// A stored subscription voucher.
#[derive(Debug)]
pub struct Voucher {
    pub id: String,
    pub code: String,
    pub duration_days: i32,
    pub max_uses: i32,
    pub current_uses: i32,
    pub created_by: String,
    pub created_at: i64,
}

/// A stored completion-model entry.
#[derive(Debug)]
pub struct AIModel {
    pub id: String,
    pub api_model_name: String,
    pub display_name: String,
    pub provider: String,
    pub is_active: bool,
    pub created_at: i64,
    pub system_prompt: Option<String>,
}

impl Clone for AIModel {
    fn clone(&self) -> (r: Self)
        ensures
            r == *self,
    {
        AIModel {
            id: self.id.clone(),
            api_model_name: self.api_model_name.clone(),
            display_name: self.display_name.clone(),
            provider: self.provider.clone(),
            is_active: self.is_active,
            created_at: self.created_at,
            system_prompt: clone_opt_string(&self.system_prompt),
        }
    }
}

/// Model-creation input.
#[derive(Debug)]
pub struct CreateAIModelRequest {
    pub api_model_name: String,
    pub display_name: String,
    pub provider: Option<String>,
    pub system_prompt: Option<String>,
}

/// Model-update input: absent fields keep their stored value.
#[derive(Debug)]
pub struct UpdateAIModelRequest {
    pub api_model_name: Option<String>,
    pub display_name: Option<String>,
    pub provider: Option<String>,
    pub is_active: Option<bool>,
    pub system_prompt: Option<String>,
}

/// Pagination parameters of a document listing.
#[derive(Debug)]
pub struct ListDocsQuery {
    pub page: Option<i64>,
    pub limit: Option<i64>,
}

} // verus!
