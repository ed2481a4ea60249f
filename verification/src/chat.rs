//! Chat persistence and prompt assembly: sessions owned by one user each,
//! append-only messages in creation order, cascading session deletion, and
//! the fixed system-prompt template with retrieved context interpolated.

use vstd::prelude::*;
use vstd::string::StringExecFns;
use crate::errors::RagError;
use crate::models::ChatMessage;
use crate::models::ChatSession;
use crate::models::Message;
use crate::models::RAGChunk;
use crate::models::clone_opt_string;
use crate::rank::ranked_selection;
use crate::rank::select_ranked;
use crate::store::lemma_filter_all_pass;
use crate::store::lemma_filter_member;
use crate::store::lemma_remove_single_fail;
use crate::text::joined;
use crate::text::str_eq;

verus! {

/// Some stored session carries this id.
pub open spec fn has_session(sessions: Seq<ChatSession>, sid: Seq<char>) -> bool {
    exists|i: int| 0 <= i < sessions.len() && (#[trigger] sessions[i]).id@ == sid
}

/// Some stored session carries this id and belongs to this user.
pub open spec fn session_owned(sessions: Seq<ChatSession>, sid: Seq<char>, uid: Seq<char>) -> bool {
    exists|i: int|
        0 <= i < sessions.len() && (#[trigger] sessions[i]).id@ == sid && sessions[i].user_id@
            == uid
}

/// Some stored message carries this id.
pub open spec fn has_message(messages: Seq<ChatMessage>, mid: Seq<char>) -> bool {
    exists|i: int| 0 <= i < messages.len() && (#[trigger] messages[i]).id@ == mid
}

/// The persisted conversation of one session, in creation order.
pub open spec fn history_of(messages: Seq<ChatMessage>, sid: Seq<char>) -> Seq<ChatMessage> {
    messages.filter(|m: ChatMessage| m.session_id@ == sid)
}

/// The role-tagged form of a persisted message.
pub open spec fn message_of(m: ChatMessage) -> Message {
    Message { role: m.role, content: m.content }
}

/// Sessions and messages of all users.
pub struct ChatStore {
    /// All sessions, in creation order.
    pub sessions: Vec<ChatSession>,
    /// All messages of all sessions, in creation order.
    pub messages: Vec<ChatMessage>,
}

impl ChatStore {
    /// Validity: unique session ids, unique message ids.
    pub open spec fn wf(self) -> bool {
        &&& forall|i: int, j: int|
            0 <= i < j < self.sessions@.len() ==> (#[trigger] self.sessions@[i]).id@
                != (#[trigger] self.sessions@[j]).id@
        &&& forall|i: int, j: int|
            0 <= i < j < self.messages@.len() ==> (#[trigger] self.messages@[i]).id@
                != (#[trigger] self.messages@[j]).id@
    }

    /// An empty store.
    pub fn new() -> (r: Self)
        ensures
            r.wf(),
            r.sessions@.len() == 0,
            r.messages@.len() == 0,
    {
        ChatStore { sessions: Vec::new(), messages: Vec::new() }
    }

    /// Finds the position of the session with this id, if any.
    fn find_session(&self, sid: &str) -> (r: Option<usize>)
        ensures
            match r {
                Some(i) => i < self.sessions@.len() && self.sessions@[i as int].id@ == sid@,
                None => !has_session(self.sessions@, sid@),
            },
    {
        let n = self.sessions.len();
        let mut i: usize = 0;
        while i < n
            invariant
                n == self.sessions@.len(),
                i <= n,
                forall|j: int| 0 <= j < i ==> (#[trigger] self.sessions@[j]).id@ != sid@,
            decreases n - i,
        {
            if str_eq(self.sessions[i].id.as_str(), sid) {
                return Some(i);
            }
            i = i + 1;
        }
        None
    }

    /// Whether the session exists and belongs to the user.
    pub fn session_owned_by(&self, sid: &str, uid: &str) -> (r: bool)
        requires
            self.wf(),
        ensures
            r == session_owned(self.sessions@, sid@, uid@),
    {
        match self.find_session(sid) {
            Some(i) => {
                let owned = str_eq(self.sessions[i].user_id.as_str(), uid);
                proof {
                    if owned {
                    } else {
                        assert forall|j: int|
                            0 <= j < self.sessions@.len() && (#[trigger] self.sessions@[j]).id@
                                == sid@ implies self.sessions@[j].user_id@ != uid@ by {
                            if j < i as int {
                                assert(self.sessions@[j].id@ != self.sessions@[i as int].id@);
                            } else if j > i as int {
                                assert(self.sessions@[i as int].id@ != self.sessions@[j].id@);
                            }
                        }
                    }
                }
                owned
            },
            None => false,
        }
    }

    /// Whether a session with this id exists, whoever owns it.
    pub fn session_exists(&self, sid: &str) -> (r: bool)
        ensures
            r == has_session(self.sessions@, sid@),
    {
        match self.find_session(sid) {
            Some(_) => true,
            None => false,
        }
    }

    /// Creates a session under a caller-supplied fresh id. Fails with a
    /// storage error, changing nothing, exactly when the id is taken.
    pub fn create_session(&mut self, id: String, user_id: String, title: Option<String>, now: i64)
        -> (r: Result<(), RagError>)
        requires
            old(self).wf(),
        ensures
            final(self).wf(),
            final(self).messages@ == old(self).messages@,
            match r {
                Ok(()) => !has_session(old(self).sessions@, id@) && final(self).sessions@ == old(
                    self).sessions@.push((ChatSession {
                    id,
                    user_id,
                    title,
                    created_at: now,
                    updated_at: now,
                })),
                Err(e) => e == RagError::Storage && has_session(old(self).sessions@, id@)
                    && *final(self) == *old(self),
            },
    {
        match self.find_session(id.as_str()) {
            Some(_) => Err(RagError::Storage),
            None => {
                self.sessions.push(ChatSession {
                    id,
                    user_id,
                    title,
                    created_at: now,
                    updated_at: now,
                });
                Ok(())
            },
        }
    }

    /// Appends one message under a caller-supplied fresh id. Fails with a
    /// storage error, changing nothing, exactly when the id is taken.
    pub fn append_message(
        &mut self,
        id: String,
        session_id: String,
        role: String,
        content: String,
        now: i64,
    ) -> (r: Result<(), RagError>)
        requires
            old(self).wf(),
        ensures
            final(self).wf(),
            final(self).sessions@ == old(self).sessions@,
            match r {
                Ok(()) => !has_message(old(self).messages@, id@) && final(self).messages@ == old(
                    self).messages@.push((ChatMessage {
                    id,
                    session_id,
                    role,
                    content,
                    created_at: now,
                })),
                Err(e) => e == RagError::Storage && has_message(old(self).messages@, id@)
                    && *final(self) == *old(self),
            },
    {
        let n = self.messages.len();
        let mut i: usize = 0;
        while i < n
            invariant
                *self == *old(self),
                old(self).wf(),
                n == self.messages@.len(),
                i <= n,
                forall|j: int| 0 <= j < i ==> (#[trigger] self.messages@[j]).id@ != id@,
            decreases n - i,
        {
            if str_eq(self.messages[i].id.as_str(), id.as_str()) {
                return Err(RagError::Storage);
            }
            i = i + 1;
        }
        self.messages.push(ChatMessage { id, session_id, role, content, created_at: now });
        Ok(())
    }

    /// The session's messages in creation order, as role-tagged messages.
    pub fn history(&self, sid: &str) -> (r: Vec<Message>)
        ensures
            r@ == history_of(self.messages@, sid@).map_values(|m: ChatMessage| message_of(m)),
    {
        let ghost pred = |m: ChatMessage| m.session_id@ == sid@;
        let ghost to_msg = |m: ChatMessage| message_of(m);
        let n = self.messages.len();
        let mut out: Vec<Message> = Vec::new();
        let mut i: usize = 0;
        proof {
            assert(self.messages@.take(0) =~= Seq::<ChatMessage>::empty());
            reveal(Seq::filter);
        }
        while i < n
            invariant
                n == self.messages@.len(),
                i <= n,
                out@ == self.messages@.take(i as int).filter(pred).map_values(to_msg),
                pred == (|m: ChatMessage| m.session_id@ == sid@),
                to_msg == (|m: ChatMessage| message_of(m)),
            decreases n - i,
        {
            let m = &self.messages[i];
            proof {
                self.messages@.take(i as int).lemma_filter_push(self.messages@[i as int], pred);
                assert(self.messages@.take(i + 1) =~= self.messages@.take(i as int).push(
                    self.messages@[i as int],
                ));
            }
            if str_eq(m.session_id.as_str(), sid) {
                out.push(Message { role: m.role.clone(), content: m.content.clone() });
                proof {
                    assert(out@ =~= self.messages@.take(i + 1).filter(pred).map_values(to_msg));
                }
            } else {
                proof {
                    assert(out@ =~= self.messages@.take(i + 1).filter(pred).map_values(to_msg));
                }
            }
            i = i + 1;
        }
        proof {
            assert(self.messages@.take(n as int) =~= self.messages@);
        }
        out
    }

    /// Bumps the session's update time. Fails with `NotFound`, changing
    /// nothing, exactly when no session has the id.
    pub fn touch_session(&mut self, sid: &str, now: i64) -> (r: Result<(), RagError>)
        requires
            old(self).wf(),
        ensures
            final(self).wf(),
            final(self).messages@ == old(self).messages@,
            r is Ok <==> has_session(old(self).sessions@, sid@),
            match r {
                Ok(()) => {
                    &&& final(self).sessions@.len() == old(self).sessions@.len()
                    &&& forall|j: int|
                        0 <= j < old(self).sessions@.len() && (#[trigger] old(
                            self,
                        ).sessions@[j]).id@ != sid@ ==> final(self).sessions@[j] == old(
                            self,
                        ).sessions@[j]
                    &&& forall|j: int|
                        0 <= j < old(self).sessions@.len() && (#[trigger] old(
                            self,
                        ).sessions@[j]).id@ == sid@ ==> final(self).sessions@[j] == (ChatSession {
                            updated_at: now,
                            ..old(self).sessions@[j]
                        })
                },
                Err(e) => e == RagError::NotFound && final(self).sessions@ == old(self).sessions@,
            },
    {
        match self.find_session(sid) {
            Some(i) => {
                let s = &self.sessions[i];
                let bumped = ChatSession {
                    id: s.id.clone(),
                    user_id: s.user_id.clone(),
                    title: clone_opt_string(&s.title),
                    created_at: s.created_at,
                    updated_at: now,
                };
                self.sessions.set(i, bumped);
                proof {
                    assert forall|j: int|
                        0 <= j < old(self).sessions@.len() && (#[trigger] old(
                            self,
                        ).sessions@[j]).id@ == sid@ implies j == i as int by {
                        if j < i as int {
                            assert(old(self).sessions@[j].id@ != old(self).sessions@[i as int].id@);
                        } else if j > i as int {
                            assert(old(self).sessions@[i as int].id@ != old(self).sessions@[j].id@);
                        }
                    }
                }
                Ok(())
            },
            None => Err(RagError::NotFound),
        }
    }

    /// Removes the session and all its messages; absent ids are a no-op.
    pub fn delete_session(&mut self, sid: &str)
        requires
            old(self).wf(),
        ensures
            final(self).wf(),
            final(self).sessions@ == old(self).sessions@.filter(
                |s: ChatSession| s.id@ != sid@,
            ),
            final(self).messages@ == old(self).messages@.filter(
                |m: ChatMessage| m.session_id@ != sid@,
            ),
    {
        let ghost spred = |s: ChatSession| s.id@ != sid@;
        match self.find_session(sid) {
            Some(i) => {
                self.sessions.remove(i);
                proof {
                    assert forall|j: int|
                        0 <= j < old(self).sessions@.len() && j != i as int implies spred(
                        #[trigger] old(self).sessions@[j],
                    ) by {
                        if j < i as int {
                            assert(old(self).sessions@[j].id@ != old(self).sessions@[i as int].id@);
                        } else {
                            assert(old(self).sessions@[i as int].id@ != old(self).sessions@[j].id@);
                        }
                    }
                    lemma_remove_single_fail(old(self).sessions@, i as int, spred);
                    old(self).sessions@.remove_ensures(i as int);
                }
            },
            None => {
                proof {
                    assert forall|j: int| 0 <= j < old(self).sessions@.len() implies spred(
                        #[trigger] old(self).sessions@[j],
                    ) by {
                        if old(self).sessions@[j].id@ == sid@ {
                            assert(has_session(old(self).sessions@, sid@));
                        }
                    }
                    lemma_filter_all_pass(old(self).sessions@, spred);
                }
            },
        }
        // cascade: rebuild the message list without the session's messages
        let ghost mpred = |m: ChatMessage| m.session_id@ != sid@;
        let n = self.messages.len();
        let mut kept: Vec<ChatMessage> = Vec::new();
        let mut i: usize = 0;
        proof {
            assert(self.messages@.take(0) =~= Seq::<ChatMessage>::empty());
            reveal(Seq::filter);
        }
        while i < n
            invariant
                n == self.messages@.len(),
                i <= n,
                kept@ == self.messages@.take(i as int).filter(mpred),
                mpred == (|m: ChatMessage| m.session_id@ != sid@),
            decreases n - i,
        {
            let m = &self.messages[i];
            proof {
                self.messages@.take(i as int).lemma_filter_push(self.messages@[i as int], mpred);
                assert(self.messages@.take(i + 1) =~= self.messages@.take(i as int).push(
                    self.messages@[i as int],
                ));
            }
            if !str_eq(m.session_id.as_str(), sid) {
                kept.push(m.clone());
            }
            i = i + 1;
        }
        proof {
            assert(self.messages@.take(n as int) =~= self.messages@);
            let f = self.messages@.filter(mpred);
            assert forall|a: int, b: int| 0 <= a < b < f.len() implies (#[trigger] f[a]).id@ != (
            #[trigger] f[b]).id@ by {
                lemma_filter_unique_field(self.messages@, mpred, a, b);
            }
        }
        self.messages = kept;
    }

    /// The user's sessions, most recently updated first.
    pub fn list_sessions(&self, uid: &str) -> (r: Vec<ChatSession>)
        requires
            self.wf(),
        ensures
            ({
                let f = self.sessions@.filter(|s: ChatSession| s.user_id@ == uid@);
                &&& r@.len() == f.len()
                &&& forall|a: int, b: int|
                    0 <= a < b < r@.len() ==> (#[trigger] r@[a]).updated_at >= (
                    #[trigger] r@[b]).updated_at
                &&& forall|k: int| 0 <= k < r@.len() ==> f.contains(#[trigger] r@[k])
                &&& forall|j: int| 0 <= j < f.len() ==> r@.contains(#[trigger] f[j])
            }),
    {
        let ghost pred = |s: ChatSession| s.user_id@ == uid@;
        let n = self.sessions.len();
        let mut mine: Vec<ChatSession> = Vec::new();
        let mut i: usize = 0;
        proof {
            assert(self.sessions@.take(0) =~= Seq::<ChatSession>::empty());
            reveal(Seq::filter);
        }
        while i < n
            invariant
                n == self.sessions@.len(),
                i <= n,
                mine@ == self.sessions@.take(i as int).filter(pred),
                pred == (|s: ChatSession| s.user_id@ == uid@),
            decreases n - i,
        {
            proof {
                self.sessions@.take(i as int).lemma_filter_push(self.sessions@[i as int], pred);
                assert(self.sessions@.take(i + 1) =~= self.sessions@.take(i as int).push(
                    self.sessions@[i as int],
                ));
            }
            if str_eq(self.sessions[i].user_id.as_str(), uid) {
                mine.push(self.sessions[i].clone());
            }
            i = i + 1;
        }
        proof {
            assert(self.sessions@.take(n as int) =~= self.sessions@);
        }
        let m = mine.len();
        let mut scores: Vec<i64> = Vec::new();
        let mut j: usize = 0;
        while j < m
            invariant
                m == mine@.len(),
                j <= m,
                scores@.len() == j,
                forall|k: int| 0 <= k < j ==> #[trigger] scores@[k] == mine@[k].updated_at,
            decreases m - j,
        {
            scores.push(mine[j].updated_at);
            j = j + 1;
        }
        let order = select_ranked(&scores, m);
        let mut out: Vec<ChatSession> = Vec::new();
        let mut k: usize = 0;
        while k < order.len()
            invariant
                m == mine@.len(),
                scores@.len() == m,
                forall|k2: int| 0 <= k2 < m ==> #[trigger] scores@[k2] == mine@[k2].updated_at,
                ranked_selection(scores@, order@),
                order@.len() == m,
                forall|v: usize| v < m ==> #[trigger] order@.contains(v),
                k <= m,
                out@.len() == k,
                forall|k2: int| 0 <= k2 < k ==> #[trigger] out@[k2] == mine@[order@[k2] as int],
            decreases order@.len() - k,
        {
            let idx = order[k];
            out.push(mine[idx].clone());
            k = k + 1;
        }
        proof {
            let f = self.sessions@.filter(pred);
            assert(f == mine@);
            assert forall|k2: int| 0 <= k2 < out@.len() implies f.contains(#[trigger] out@[k2]) by {
                assert(out@[k2] == mine@[order@[k2] as int]);
            }
            assert forall|j2: int| 0 <= j2 < f.len() implies out@.contains(#[trigger] f[j2]) by {
                assert(order@.contains(j2 as usize));
                let w = choose|w: int| 0 <= w < order@.len() && order@[w] == j2 as usize;
                assert(out@[w] == mine@[j2]);
            }
        }
        out
    }
}

/// Two distinct positions of a filtered sequence come from two distinct
/// positions of the original, so a field unique in the original stays unique.
proof fn lemma_filter_unique_field(
    s: Seq<ChatMessage>,
    pred: spec_fn(ChatMessage) -> bool,
    a: int,
    b: int,
)
    requires
        forall|i: int, j: int|
            0 <= i < j < s.len() ==> (#[trigger] s[i]).id@ != (#[trigger] s[j]).id@,
        0 <= a < b < s.filter(pred).len(),
    ensures
        s.filter(pred)[a].id@ != s.filter(pred)[b].id@,
    decreases s.len(),
{
    reveal(Seq::filter);
    if s.len() == 0 {
    } else {
        let rest = s.drop_last();
        assert(forall|i: int, j: int|
            0 <= i < j < rest.len() ==> (#[trigger] rest[i]).id@ != (#[trigger] rest[j]).id@);
        if pred(s.last()) {
            let f = s.filter(pred);
            let fr = rest.filter(pred);
            assert(f == fr.push(s.last()));
            if b < f.len() - 1 {
                lemma_filter_unique_field(rest, pred, a, b);
            } else {
                // f[b] is s.last(); f[a] is an element of rest's filtering
                rest.lemma_filter_pred(pred, a);
                lemma_filter_member(rest, pred, a);
                let i0 = choose|i0: int| 0 <= i0 < rest.len() && rest[i0] == fr[a];
                assert(s[i0] == fr[a]);
                assert(s[i0].id@ != s[s.len() - 1].id@);
            }
        } else {
            lemma_filter_unique_field(rest, pred, a, b);
        }
    }
}

/// The system prompt: the fixed mentor persona with the retrieved context
/// block interpolated between the context markers.
pub open spec fn system_prompt_of(context: Seq<char>) -> Seq<char> {
    "You are Krypton, an elite cybersecurity mentor and CTF specialist guiding users through security challenges and ethical hacking scenarios.\n\nSolve CTF challenges step by step across web, crypto, pwn, reverse engineering, forensics and OSINT; explain why each vulnerability exists, not only how to exploit it; and strictly refuse illegal acts, pivoting to defense and education.\n\nUse the following retrieved context to augment your answers. If the context holds the specific flag or solution, guide the user toward it rather than handing it over unasked.\n\n[CONTEXT BEGIN]\n"@
        + context
        + "\n[CONTEXT END]\n\nAnswer with a high-level analysis, recommended tools, numbered actionable steps, code in code blocks, and remediation where it applies. Be technical but clear, use markdown, and when context is missing rely on general cybersecurity knowledge."@
}

/// Builds the system prompt around a context block.
pub fn build_system_prompt(context: &str) -> (r: String)
    ensures
        r@ == system_prompt_of(context@),
{
    let mut out = String::from_str(
        "You are Krypton, an elite cybersecurity mentor and CTF specialist guiding users through security challenges and ethical hacking scenarios.\n\nSolve CTF challenges step by step across web, crypto, pwn, reverse engineering, forensics and OSINT; explain why each vulnerability exists, not only how to exploit it; and strictly refuse illegal acts, pivoting to defense and education.\n\nUse the following retrieved context to augment your answers. If the context holds the specific flag or solution, guide the user toward it rather than handing it over unasked.\n\n[CONTEXT BEGIN]\n",
    );
    out.append(context);
    out.append(
        "\n[CONTEXT END]\n\nAnswer with a high-level analysis, recommended tools, numbered actionable steps, code in code blocks, and remediation where it applies. Be technical but clear, use markdown, and when context is missing rely on general cybersecurity knowledge.",
    );
    out
}

/// The context block: the retrieved chunk contents joined by a blank line,
/// in ranked order.
pub open spec fn context_of(chunks: Seq<RAGChunk>) -> Seq<char> {
    joined(chunks.map_values(|c: RAGChunk| c.content@), "\n\n"@)
}

/// Joins the contents of the retrieved chunks with blank lines.
pub fn join_contents(chunks: &Vec<RAGChunk>) -> (r: String)
    ensures
        r@ == context_of(chunks@),
{
    let ghost parts = chunks@.map_values(|c: RAGChunk| c.content@);
    let n = chunks.len();
    let mut out = String::new();
    let mut i: usize = 0;
    while i < n
        invariant
            n == chunks@.len(),
            i <= n,
            parts == chunks@.map_values(|c: RAGChunk| c.content@),
            out@ == joined(parts.take(i as int), "\n\n"@),
        decreases n - i,
    {
        if i > 0 {
            out.append("\n\n");
        }
        out.append(chunks[i].content.as_str());
        proof {
            assert(parts.take(i + 1).drop_last() =~= parts.take(i as int));
            assert(parts.take(i + 1).last() == parts[i as int]);
            if i == 0 {
                assert(out@ =~= parts[0]);
                assert(joined(parts.take(1), "\n\n"@) == parts.take(1)[0]);
                assert(parts.take(1)[0] == parts[0]);
            }
        }
        i = i + 1;
    }
    proof {
        assert(parts.take(n as int) =~= parts);
    }
    out
}

} // verus!
