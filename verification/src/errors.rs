//! Error taxonomy of the engine: distinct variants so a caller can tell
//! "fix the input" failures from "retry later" failures.

use vstd::prelude::*;

verus! {

/// Typed failure of an engine operation.
#[derive(Clone, Copy, Debug, PartialEq, Eq, Structural)]
pub enum RagError {
    /// A document or chat session with the given id does not exist,
    /// or is not owned by the caller.
    NotFound,
    /// The caller's role does not permit the operation.
    Forbidden,
    /// Chat gating: the caller's email address is not verified.
    Unverified,
    /// Chat gating: the caller holds no subscription at all.
    SubscriptionRequired,
    /// Chat gating: the caller's subscription window has ended.
    SubscriptionExpired,
    /// The embedding or completion provider failed.
    Provider,
    /// A bulk upload was not parseable in any accepted form.
    Parse,
    /// The storage layer refused a write (a generated id collided).
    Storage,
}

/// The user-facing description of each error variant.
pub open spec fn error_text(e: RagError) -> Seq<char> {
    match e {
        RagError::NotFound => "Not found"@,
        RagError::Forbidden => "Access denied"@,
        RagError::Unverified => "Email verification required"@,
        RagError::SubscriptionRequired => "Subscription required. Please redeem a voucher."@,
        RagError::SubscriptionExpired => "Subscription expired. Please redeem a voucher."@,
        RagError::Provider => "Provider error"@,
        RagError::Parse => "Upload could not be parsed"@,
        RagError::Storage => "Storage error"@,
    }
}

impl RagError {
    /// A human-readable message for this error.
    pub fn message(&self) -> (m: String)
        ensures
            m@ == error_text(*self),
    {
        match self {
            RagError::NotFound => "Not found".to_owned(),
            RagError::Forbidden => "Access denied".to_owned(),
            RagError::Unverified => "Email verification required".to_owned(),
            RagError::SubscriptionRequired => "Subscription required. Please redeem a voucher.".to_owned(),
            RagError::SubscriptionExpired => "Subscription expired. Please redeem a voucher.".to_owned(),
            RagError::Provider => "Provider error".to_owned(),
            RagError::Parse => "Upload could not be parsed".to_owned(),
            RagError::Storage => "Storage error".to_owned(),
        }
    }
}

} // verus!
