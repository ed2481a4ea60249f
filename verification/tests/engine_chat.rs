use krypton_rag::engine::RagSystem;
use krypton_rag::engine::SearchMode;
use krypton_rag::errors::RagError;
use krypton_rag::models::ChatRequest;
use krypton_rag::models::User;

fn subscriber(id: &str) -> User {
    User {
        id: id.to_string(),
        username: format!("user-{}", id),
        fullname: None,
        email: Some(format!("{}@example.net", id)),
        password_hash: "hash".to_string(),
        role: "user".to_string(),
        email_verified: true,
        subscription_end: Some(1_000_000),
        created_at: 0,
    }
}

fn request(message: &str) -> ChatRequest {
    ChatRequest {
        message: message.to_string(),
        history: None,
        model: None,
        session_id: None,
    }
}

fn engine() -> RagSystem {
    RagSystem::new(SearchMode::Lexical, 3, None)
}

#[test]
fn unverified_user_is_gated() {
    let mut rag = engine();
    let mut user = subscriber("u1");
    user.email_verified = false;
    let err = rag
        .chat_prepare(&user, &request("hi"), None, "s1".to_string(), "m1".to_string(), 10)
        .unwrap_err();
    assert_eq!(err, RagError::Unverified);
}

#[test]
fn unverified_admin_passes_the_email_gate() {
    let mut rag = engine();
    let mut user = subscriber("u1");
    user.email_verified = false;
    user.role = "admin".to_string();
    assert!(rag
        .chat_prepare(&user, &request("hi"), None, "s1".to_string(), "m1".to_string(), 10)
        .is_ok());
}

#[test]
fn missing_subscription_is_gated() {
    let mut rag = engine();
    let mut user = subscriber("u1");
    user.subscription_end = None;
    let err = rag
        .chat_prepare(&user, &request("hi"), None, "s1".to_string(), "m1".to_string(), 10)
        .unwrap_err();
    assert_eq!(err, RagError::SubscriptionRequired);
}

#[test]
fn expired_subscription_is_gated() {
    let mut rag = engine();
    let mut user = subscriber("u1");
    user.subscription_end = Some(5);
    let err = rag
        .chat_prepare(&user, &request("hi"), None, "s1".to_string(), "m1".to_string(), 10)
        .unwrap_err();
    assert_eq!(err, RagError::SubscriptionExpired);
}

#[test]
fn successful_turn_persists_exactly_one_assistant_message() {
    let mut rag = engine();
    rag.add_document("the flag is in the exif data".to_string(), None, None)
        .unwrap();
    let user = subscriber("u1");
    let prep = rag
        .chat_prepare(&user, &request("flag"), None, "s1".to_string(), "m1".to_string(), 10)
        .unwrap();
    assert_eq!(prep.session_id, "s1");
    assert_eq!(prep.model, "deepseek/deepseek-r1-0528:free");
    assert_eq!(prep.messages[0].role, "system");
    assert!(prep.messages[0].content.contains("[CONTEXT BEGIN]"));
    assert!(prep.messages[0].content.contains("the flag is in the exif data"));
    assert_eq!(prep.messages.len(), 2);
    assert_eq!(prep.messages[1].role, "user");
    assert_eq!(prep.messages[1].content, "flag");

    let resp = rag
        .chat_complete(&prep.session_id, Some("try exiftool".to_string()), "m2".to_string(), 20)
        .unwrap();
    assert_eq!(resp.response, "try exiftool");
    assert_eq!(resp.session_id, "s1");

    let history = rag.get_chat_session("s1", "u1").unwrap();
    assert_eq!(history.len(), 2);
    assert_eq!(history[0].role, "user");
    assert_eq!(history[1].role, "assistant");
    assert_eq!(history[1].content, "try exiftool");

    let sessions = rag.list_chat_sessions("u1");
    assert_eq!(sessions.len(), 1);
    assert_eq!(sessions[0].updated_at, 20);
}

#[test]
fn failed_completion_keeps_user_turn_and_adds_no_assistant_message() {
    let mut rag = engine();
    let user = subscriber("u1");
    let prep = rag
        .chat_prepare(&user, &request("hello there"), None, "s1".to_string(), "m1".to_string(), 10)
        .unwrap();

    let err = rag
        .chat_complete(&prep.session_id, None, "m2".to_string(), 20)
        .unwrap_err();
    assert_eq!(err, RagError::Provider);

    let history = rag.get_chat_session("s1", "u1").unwrap();
    assert_eq!(history.len(), 1);
    assert_eq!(history[0].role, "user");
    assert_eq!(history[0].content, "hello there");

    let sessions = rag.list_chat_sessions("u1");
    assert_eq!(sessions[0].updated_at, 10);
}

#[test]
fn supplied_session_must_belong_to_the_caller() {
    let mut rag = engine();
    let alice = subscriber("alice");
    let bob = subscriber("bob");
    rag.chat_prepare(&alice, &request("first"), None, "s1".to_string(), "m1".to_string(), 10)
        .unwrap();

    let mut req = request("second");
    req.session_id = Some("s1".to_string());
    let err = rag
        .chat_prepare(&bob, &req, None, "s2".to_string(), "m2".to_string(), 11)
        .unwrap_err();
    assert_eq!(err, RagError::NotFound);

    let mut req2 = request("third");
    req2.session_id = Some("s1".to_string());
    let prep = rag
        .chat_prepare(&alice, &req2, None, "s3".to_string(), "m3".to_string(), 12)
        .unwrap();
    assert_eq!(prep.session_id, "s1");
}

#[test]
fn unknown_session_id_is_rejected() {
    let mut rag = engine();
    let user = subscriber("u1");
    let mut req = request("hi");
    req.session_id = Some("missing".to_string());
    let err = rag
        .chat_prepare(&user, &req, None, "s1".to_string(), "m1".to_string(), 10)
        .unwrap_err();
    assert_eq!(err, RagError::NotFound);
}

#[test]
fn session_title_is_the_truncated_first_message() {
    let mut rag = engine();
    let user = subscriber("u1");
    let long = "abcdefghij".repeat(4);
    rag.chat_prepare(&user, &request(&long), None, "s1".to_string(), "m1".to_string(), 10)
        .unwrap();
    let sessions = rag.list_chat_sessions("u1");
    let title = sessions[0].title.clone().unwrap();
    assert_eq!(title.chars().count(), 30);
    assert!(long.starts_with(&title));
}

#[test]
fn caller_supplied_model_wins_over_the_default() {
    let mut rag = engine();
    let user = subscriber("u1");
    let mut req = request("hi");
    req.model = Some("meta-llama/llama-3-8b".to_string());
    let prep = rag
        .chat_prepare(&user, &req, None, "s1".to_string(), "m1".to_string(), 10)
        .unwrap();
    assert_eq!(prep.model, "meta-llama/llama-3-8b");
}

#[test]
fn deleting_a_session_cascades_to_its_messages() {
    let mut rag = engine();
    let user = subscriber("u1");
    let prep = rag
        .chat_prepare(&user, &request("hi"), None, "s1".to_string(), "m1".to_string(), 10)
        .unwrap();
    rag.chat_complete(&prep.session_id, Some("hello".to_string()), "m2".to_string(), 11)
        .unwrap();

    let err = rag.delete_chat_session("s1", "someone-else").unwrap_err();
    assert_eq!(err, RagError::NotFound);

    rag.delete_chat_session("s1", "u1").unwrap();
    assert_eq!(rag.list_chat_sessions("u1").len(), 0);
    assert_eq!(rag.get_chat_session("s1", "u1").unwrap_err(), RagError::NotFound);
}

#[test]
fn sessions_list_most_recently_updated_first() {
    let mut rag = engine();
    let user = subscriber("u1");
    let p1 = rag
        .chat_prepare(&user, &request("one"), None, "s1".to_string(), "m1".to_string(), 10)
        .unwrap();
    rag.chat_prepare(&user, &request("two"), None, "s2".to_string(), "m2".to_string(), 20)
        .unwrap();
    // an assistant turn bumps the older session past the newer one
    rag.chat_complete(&p1.session_id, Some("pong".to_string()), "m3".to_string(), 30)
        .unwrap();
    let sessions = rag.list_chat_sessions("u1");
    assert_eq!(sessions.len(), 2);
    assert_eq!(sessions[0].id, "s1");
    assert_eq!(sessions[1].id, "s2");
}

#[test]
fn retrieval_uses_top_three_chunks_in_ranked_order() {
    let mut rag = RagSystem::new(SearchMode::Vector, 3, None);
    rag.add_document("north".to_string(), None, Some(vec![1000, 0, 0]))
        .unwrap();
    rag.add_document("east".to_string(), None, Some(vec![0, 1000, 0]))
        .unwrap();
    rag.add_document("up".to_string(), None, Some(vec![0, 0, 1000]))
        .unwrap();
    rag.add_document("north-east".to_string(), None, Some(vec![700, 700, 0]))
        .unwrap();
    let user = subscriber("u1");
    let prep = rag
        .chat_prepare(
            &user,
            &request("which way"),
            Some(vec![1000, 100, 0]),
            "s1".to_string(),
            "m1".to_string(),
            10,
        )
        .unwrap();
    assert_eq!(prep.chunks.len(), 3);
    assert_eq!(prep.chunks[0].content, "north");
    assert_eq!(prep.chunks[1].content, "north-east");
    assert_eq!(prep.chunks[2].content, "east");
    let context_block = prep.chunks.iter().map(|c| c.content.clone()).collect::<Vec<_>>().join("\n\n");
    assert!(prep.messages[0].content.contains(&context_block));
}
