use krypton_rag::access::RedeemRefusal;
use krypton_rag::access::TokenCheck;
use krypton_rag::access::bearer_token;
use krypton_rag::access::check_verification_token;
use krypton_rag::access::claims_for;
use krypton_rag::access::page_offset;
use krypton_rag::access::redeem_decision;
use krypton_rag::access::role_is_admin;
use krypton_rag::access::role_is_editor_or_admin;
use krypton_rag::access::verified_gate;
use krypton_rag::catalog::ModelCatalog;
use krypton_rag::errors::RagError;
use krypton_rag::models::CreateAIModelRequest;
use krypton_rag::models::UpdateAIModelRequest;
use krypton_rag::text::str_contains;
use krypton_rag::text::str_eq;

#[test]
fn claims_carry_identity_and_one_day_expiry() {
    let c = claims_for("id-1", "alice", "editor", 1000);
    assert_eq!(c.sub, "id-1");
    assert_eq!(c.username, "alice");
    assert_eq!(c.role, "editor");
    assert_eq!(c.exp, 1000 + 86400);
}

#[test]
fn bearer_tokens_are_extracted_from_the_header() {
    assert_eq!(bearer_token("Bearer abc.def"), Some("abc.def".to_string()));
    assert_eq!(bearer_token("Bearer "), Some("".to_string()));
    assert_eq!(bearer_token("Basic abc"), None);
    assert_eq!(bearer_token("Bear"), None);
}

#[test]
fn verification_token_checks_consumed_then_expired() {
    assert_eq!(check_verification_token(true, 100, 50), TokenCheck::AlreadyUsed);
    assert_eq!(check_verification_token(false, 100, 150), TokenCheck::Expired);
    assert_eq!(check_verification_token(false, 100, 100), TokenCheck::Valid);
    assert_eq!(check_verification_token(false, 100, 50), TokenCheck::Valid);
}

#[test]
fn redeem_decision_enforces_limits_and_sets_the_window() {
    assert_eq!(redeem_decision(3, 3, false, 30, 1000).unwrap_err(), RedeemRefusal::LimitReached);
    assert_eq!(redeem_decision(1, 3, true, 30, 1000).unwrap_err(), RedeemRefusal::AlreadyRedeemed);
    let g = redeem_decision(1, 3, false, 30, 1000).unwrap();
    assert_eq!(g.new_uses, 2);
    assert_eq!(g.new_subscription_end, 1000 + 30 * 86400);
}

#[test]
fn role_gates() {
    assert!(role_is_admin("admin"));
    assert!(!role_is_admin("editor"));
    assert!(role_is_editor_or_admin("editor"));
    assert!(role_is_editor_or_admin("admin"));
    assert!(!role_is_editor_or_admin("user"));
    assert!(verified_gate(true, "user"));
    assert!(verified_gate(false, "admin"));
    assert!(!verified_gate(false, "user"));
}

#[test]
fn page_offsets_are_one_based() {
    assert_eq!(page_offset(1, 100), 0);
    assert_eq!(page_offset(3, 100), 200);
}

#[test]
fn error_messages_distinguish_the_gating_failures() {
    assert_eq!(RagError::Unverified.message(), "Email verification required");
    assert_eq!(
        RagError::SubscriptionRequired.message(),
        "Subscription required. Please redeem a voucher."
    );
    assert_eq!(
        RagError::SubscriptionExpired.message(),
        "Subscription expired. Please redeem a voucher."
    );
    assert_ne!(
        RagError::SubscriptionRequired.message(),
        RagError::SubscriptionExpired.message()
    );
    assert_eq!(RagError::NotFound.message(), "Not found");
    assert_eq!(RagError::Forbidden.message(), "Access denied");
    assert_eq!(RagError::Provider.message(), "Provider error");
    assert_eq!(RagError::Parse.message(), "Upload could not be parsed");
    assert_eq!(RagError::Storage.message(), "Storage error");
}

#[test]
fn text_utilities() {
    assert!(str_eq("hello", "hello"));
    assert!(!str_eq("hello", "hellO"));
    assert!(str_contains("Hello world", "lo wo"));
    assert!(str_contains("Hello", ""));
    assert!(!str_contains("He", "Hello"));
}

fn create(name: &str) -> CreateAIModelRequest {
    CreateAIModelRequest {
        api_model_name: name.to_string(),
        display_name: format!("Display {}", name),
        provider: None,
        system_prompt: None,
    }
}

#[test]
fn catalog_add_update_delete() {
    let mut cat = ModelCatalog::new();
    cat.add_model("m1".to_string(), create("alpha"), 10).unwrap();
    assert_eq!(cat.models[0].provider, "openrouter");
    assert!(cat.models[0].is_active);

    let mut req2 = create("beta");
    req2.provider = Some("azure".to_string());
    cat.add_model("m2".to_string(), req2, 11).unwrap();
    assert_eq!(cat.models[1].provider, "azure");

    // a duplicate id is refused
    assert_eq!(
        cat.add_model("m1".to_string(), create("gamma"), 12).unwrap_err(),
        RagError::Storage
    );

    // merge semantics: named fields replace, absent fields stay
    let upd = UpdateAIModelRequest {
        api_model_name: Some("alpha-v2".to_string()),
        display_name: None,
        provider: None,
        is_active: Some(false),
        system_prompt: None,
    };
    cat.update_model("m1", &upd).unwrap();
    assert_eq!(cat.models[0].api_model_name, "alpha-v2");
    assert_eq!(cat.models[0].display_name, "Display alpha");
    assert!(!cat.models[0].is_active);

    assert_eq!(
        cat.update_model("missing", &upd).unwrap_err(),
        RagError::NotFound
    );

    let active = cat.list_active();
    assert_eq!(active.len(), 1);
    assert_eq!(active[0].id, "m2");

    let all = cat.list_all();
    assert_eq!(all.len(), 2);
    assert_eq!(all[0].id, "m2");
    assert_eq!(all[1].id, "m1");

    cat.delete_model("m1");
    assert_eq!(cat.list_all().len(), 1);
    cat.delete_model("m1");
    assert_eq!(cat.list_all().len(), 1);
}
