use vstd::prelude::*;

verus! {

/// Token usage summed over one period ("2024-01-15 14:00" hourly, "2024-01-15"
/// daily).
#[derive(Clone, Debug)]
pub struct TokenStatsAggregated {
    pub period: String,
    pub total_input_tokens: u64,
    pub total_output_tokens: u64,
    pub total_tokens: u64,
    pub request_count: u64,
}

/// Token usage summed per account.
#[derive(Clone, Debug)]
pub struct AccountTokenStats {
    pub account_email: String,
    pub total_input_tokens: u64,
    pub total_output_tokens: u64,
    pub total_tokens: u64,
    pub request_count: u64,
}

/// Token usage summed over everything recorded.
#[derive(Clone, Debug)]
pub struct TokenStatsSummary {
    pub total_input_tokens: u64,
    pub total_output_tokens: u64,
    pub total_tokens: u64,
    pub total_requests: u64,
    pub unique_accounts: u64,
}

/// Token usage summed per model.
#[derive(Clone, Debug)]
pub struct ModelTokenStats {
    pub model: String,
    pub total_input_tokens: u64,
    pub total_output_tokens: u64,
    pub total_tokens: u64,
    pub request_count: u64,
}

/// A page of the IP access log.
#[derive(Clone, Debug)]
pub struct IpAccessLogQuery {
    pub page: usize,
    pub page_size: usize,
    pub search: Option<String>,
    pub blocked_only: bool,
}

/// A new deny-list entry; `expires_at` is in Unix seconds.
#[derive(Clone, Debug)]
pub struct AddBlacklistRequest {
    pub ip_pattern: String,
    pub reason: Option<String>,
    pub expires_at: Option<i64>,
}

/// A new allow-list entry.
#[derive(Clone, Debug)]
pub struct AddWhitelistRequest {
    pub ip_pattern: String,
    pub description: Option<String>,
}

/// A new user token.
#[derive(Clone, Debug)]
pub struct CreateTokenRequest {
    pub username: String,
    pub expires_type: String,
    pub description: Option<String>,
    pub max_ips: i32,
    pub curfew_start: Option<String>,
    pub curfew_end: Option<String>,
}

/// Changes to a user token; `None` leaves a field as it is.
#[derive(Clone, Debug)]
pub struct UpdateTokenRequest {
    pub username: Option<String>,
    pub description: Option<String>,
    pub enabled: Option<bool>,
    pub max_ips: Option<i32>,
    pub curfew_start: Option<Option<String>>,
    pub curfew_end: Option<Option<String>>,
}

/// Counts over the user tokens.
#[derive(Clone, Debug)]
pub struct UserTokenStats {
    pub total_tokens: usize,
    pub active_tokens: usize,
    pub total_users: usize,
    pub today_requests: i64,
}

} // verus!
