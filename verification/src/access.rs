//! Access rules: email-verification and role gates, chat subscription
//! gating, token claims, bearer-header parsing, the voucher-redemption
//! decision, and pagination arithmetic.

use vstd::prelude::*;
use vstd::string::StrSliceExecFns;
use crate::TOKEN_TTL_SECS;
use crate::errors::RagError;
use crate::models::Claims;
use crate::models::User;
use crate::text::str_eq;

verus! {

/// The distinct chat gating failure for this account at this time, if any:
/// an unverified address (admins exempt), then a missing subscription, then
/// an expired one. The cutoff is hard: expiry at any instant before `now`.
pub open spec fn gate_error(u: User, now: int) -> Option<RagError> {
    if !u.email_verified && u.role@ != "admin"@ {
        Some(RagError::Unverified)
    } else if u.subscription_end is None {
        Some(RagError::SubscriptionRequired)
    } else if u.subscription_end->0 < now {
        Some(RagError::SubscriptionExpired)
    } else {
        None
    }
}

/// Checks the chat gates for this account.
pub fn check_chat_access(user: &User, now: i64) -> (r: Result<(), RagError>)
    ensures
        match r {
            Ok(()) => gate_error(*user, now as int) is None,
            Err(e) => gate_error(*user, now as int) == Some(e),
        },
{
    if !user.email_verified && !str_eq(user.role.as_str(), "admin") {
        return Err(RagError::Unverified);
    }
    match &user.subscription_end {
        None => Err(RagError::SubscriptionRequired),
        Some(end) => {
            if *end < now {
                Err(RagError::SubscriptionExpired)
            } else {
                Ok(())
            }
        },
    }
}

/// Whether a verified-only endpoint admits this account: a verified address,
/// or the admin role.
pub fn verified_gate(email_verified: bool, role: &str) -> (r: bool)
    ensures
        r == (email_verified || role@ == "admin"@),
{
    email_verified || str_eq(role, "admin")
}

/// Whether the role carries administrator rights.
pub fn role_is_admin(role: &str) -> (r: bool)
    ensures
        r == (role@ == "admin"@),
{
    str_eq(role, "admin")
}

/// Whether the role may manage the knowledge base and vouchers.
pub fn role_is_editor_or_admin(role: &str) -> (r: bool)
    ensures
        r == (role@ == "admin"@ || role@ == "editor"@),
{
    str_eq(role, "admin") || str_eq(role, "editor")
}

/// Builds the claims of a fresh authentication token: the account identity
/// plus an expiry one token lifetime from now.
pub fn claims_for(user_id: &str, username: &str, role: &str, now: usize) -> (r: Claims)
    requires
        now + TOKEN_TTL_SECS <= usize::MAX,
    ensures
        r.sub@ == user_id@,
        r.username@ == username@,
        r.role@ == role@,
        r.exp == now + TOKEN_TTL_SECS,
{
    Claims {
        sub: user_id.to_owned(),
        username: username.to_owned(),
        role: role.to_owned(),
        exp: now + TOKEN_TTL_SECS,
    }
}

/// The outcome of checking an email-verification token's stored state.
#[derive(Clone, Copy, Debug, PartialEq, Eq, Structural)]
pub enum TokenCheck {
    /// The token may be consumed now.
    Valid,
    /// The token was consumed before.
    AlreadyUsed,
    /// The token's expiry lies before now.
    Expired,
}

/// Decides whether a stored verification token is usable at `now`:
/// a consumed token is refused first, then an expired one.
pub fn check_verification_token(consumed: bool, expires_at: i64, now: i64) -> (r: TokenCheck)
    ensures
        r == (if consumed {
            TokenCheck::AlreadyUsed
        } else if expires_at < now {
            TokenCheck::Expired
        } else {
            TokenCheck::Valid
        }),
{
    if consumed {
        TokenCheck::AlreadyUsed
    } else if expires_at < now {
        TokenCheck::Expired
    } else {
        TokenCheck::Valid
    }
}

/// Why a voucher redemption is refused.
#[derive(Clone, Copy, Debug, PartialEq, Eq, Structural)]
pub enum RedeemRefusal {
    /// The voucher reached its maximum number of uses.
    LimitReached,
    /// This user redeemed this voucher before.
    AlreadyRedeemed,
}

/// What a granted redemption changes: the voucher's new use count and the
/// user's new subscription end.
#[derive(Debug)]
pub struct RedeemGrant {
    pub new_uses: i32,
    pub new_subscription_end: i64,
}

/// Decides a voucher redemption: refused when the use limit is reached or
/// the user redeemed it before; otherwise the use count grows by one and the
/// subscription runs for the voucher's duration counted from now (it is set,
/// not extended).
pub fn redeem_decision(
    current_uses: i32,
    max_uses: i32,
    already_used: bool,
    duration_days: i32,
    now: i64,
) -> (r: Result<RedeemGrant, RedeemRefusal>)
    requires
        0 <= duration_days,
        0 <= now,
        now + duration_days as int * 86400 <= i64::MAX,
    ensures
        match r {
            Ok(g) => current_uses < max_uses && !already_used && g.new_uses == current_uses + 1
                && g.new_subscription_end == now + duration_days as int * 86400,
            Err(RedeemRefusal::LimitReached) => current_uses >= max_uses,
            Err(RedeemRefusal::AlreadyRedeemed) => current_uses < max_uses && already_used,
        },
{
    if current_uses >= max_uses {
        return Err(RedeemRefusal::LimitReached);
    }
    if already_used {
        return Err(RedeemRefusal::AlreadyRedeemed);
    }
    let seconds: i64 = (duration_days as i64) * 86400;
    proof {
        assert(0 <= duration_days as int * 86400 <= 0x7fffffffi64 as int * 86400)
            by (nonlinear_arith)
            requires
                0 <= duration_days as int <= 0x7fffffffi64 as int,
        ;
    }
    Ok(RedeemGrant { new_uses: current_uses + 1, new_subscription_end: now + seconds })
}

/// The token carried by a bearer authorization header: the text after the
/// `Bearer ` prefix, or nothing when the prefix is absent.
pub fn bearer_token(header: &str) -> (r: Option<String>)
    ensures
        match r {
            Some(t) => header@.len() >= 7 && header@.take(7) == "Bearer "@ && t@ == header@.skip(7),
            None => header@.len() < 7 || header@.take(7) != "Bearer "@,
        },
{
    let n = header.unicode_len();
    if n < 7 {
        return None;
    }
    let prefix = header.substring_char(0, 7);
    if str_eq(prefix, "Bearer ") {
        let rest = header.substring_char(7, n);
        proof {
            assert(rest@ =~= header@.skip(7));
        }
        Some(rest.to_owned())
    } else {
        None
    }
}

/// The offset of a one-based page of the given size.
pub fn page_offset(page: i64, limit: i64) -> (r: i64)
    requires
        1 <= page,
        0 <= limit,
        (page - 1) * limit <= i64::MAX,
    ensures
        r == (page - 1) * limit,
{
    proof {
        assert((page - 1) * limit >= 0) by (nonlinear_arith)
            requires
                page - 1 >= 0,
                limit >= 0,
        ;
    }
    (page - 1) * limit
}

} // verus!
