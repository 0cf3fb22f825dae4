//! The request that points the DNS record at an address, and the reading of
//! the provider's answer. Sending the request is the caller's part.

use vstd::prelude::*;
use vstd::string::*;

verus! {

/// Time-to-live that leaves the choice to the provider.
pub const AUTOMATIC_TTL: u32 = 1;

/// One update of the record, ready to be sent as an authenticated `PUT` with a JSON body.
#[derive(Debug, Clone)]
pub struct DnsUpdateRequest {
    /// Where the request goes.
    pub url: String,
    /// Value of the `Authorization` header.
    pub authorization: String,
    /// Value of the `Content-Type` header.
    pub content_type: String,
    /// Body field `type`.
    pub record_type: String,
    /// Body field `name`.
    pub name: String,
    /// Body field `content`: the address the record will point at.
    pub content: String,
    /// Body field `ttl`.
    pub ttl: u32,
    /// Body field `proxied`.
    pub proxied: bool,
}

/// What a request consists of, as plain values.
pub struct DnsUpdateRequestView {
    pub url: Seq<char>,
    pub authorization: Seq<char>,
    pub content_type: Seq<char>,
    pub record_type: Seq<char>,
    pub name: Seq<char>,
    pub content: Seq<char>,
    pub ttl: u32,
    pub proxied: bool,
}

impl View for DnsUpdateRequest {
    type V = DnsUpdateRequestView;

    open spec fn view(&self) -> DnsUpdateRequestView {
        DnsUpdateRequestView {
            url: self.url@,
            authorization: self.authorization@,
            content_type: self.content_type@,
            record_type: self.record_type@,
            name: self.name@,
            content: self.content@,
            ttl: self.ttl,
            proxied: self.proxied,
        }
    }
}

/// One entry of the error list the provider sends with a refusal.
#[derive(Debug, Clone)]
pub struct ProviderError {
    pub code: u32,
    pub message: String,
}

/// What came back for a request.
#[derive(Debug, Clone)]
pub enum DnsResponse {
    /// The exchange itself failed; the text says how.
    Unreachable(String),
    /// The provider answered.
    Answered { success: bool, errors: Vec<ProviderError> },
}

/// Why an update did not take place.
#[derive(Debug, Clone)]
pub enum DnsFailure {
    /// No answer was received.
    Transport(String),
    /// The provider refused, with these errors.
    Rejected(Vec<ProviderError>),
}

/// Address of a record in the provider's API.
pub open spec fn record_url(zone_id: Seq<char>, record_id: Seq<char>) -> Seq<char> {
    "https://api.cloudflare.com/client/v4/zones/"@ + zone_id + "/dns_records/"@ + record_id
}

/// The header value that carries the API token.
pub open spec fn bearer(api_token: Seq<char>) -> Seq<char> {
    "Bearer "@ + api_token
}

/// The request that makes `domain` an automatic-TTL, proxied `A` record for `ip`.
pub open spec fn update_request_for(
    api_token: Seq<char>,
    zone_id: Seq<char>,
    record_id: Seq<char>,
    domain: Seq<char>,
    ip: Seq<char>,
) -> DnsUpdateRequestView {
    DnsUpdateRequestView {
        url: record_url(zone_id, record_id),
        authorization: bearer(api_token),
        content_type: "application/json"@,
        record_type: "A"@,
        name: domain,
        content: ip,
        ttl: AUTOMATIC_TTL,
        proxied: true,
    }
}

/// Builds the update of one record.
pub fn update_request(api_token: &str, zone_id: &str, record_id: &str, domain: &str, ip: &str) -> (request:
    DnsUpdateRequest)
    ensures
        request@ == update_request_for(api_token@, zone_id@, record_id@, domain@, ip@),
{
    let mut url = String::from_str("https://api.cloudflare.com/client/v4/zones/");
    url.append(zone_id);
    url.append("/dns_records/");
    url.append(record_id);
    let mut authorization = String::from_str("Bearer ");
    authorization.append(api_token);
    DnsUpdateRequest {
        url,
        authorization,
        content_type: String::from_str("application/json"),
        record_type: String::from_str("A"),
        name: String::from_str(domain),
        content: String::from_str(ip),
        ttl: AUTOMATIC_TTL,
        proxied: true,
    }
}

/// What a response means for the cycle.
pub open spec fn outcome_of(response: DnsResponse) -> Result<(), DnsFailure> {
    match response {
        DnsResponse::Unreachable(reason) => Err(DnsFailure::Transport(reason)),
        DnsResponse::Answered { success, errors } => if success {
            Ok(())
        } else {
            Err(DnsFailure::Rejected(errors))
        },
    }
}

/// Reads the provider's answer: the update took place exactly when an answer
/// came and it reports success; a refusal carries the provider's error list.
pub fn update_outcome(response: DnsResponse) -> (outcome: Result<(), DnsFailure>)
    ensures
        outcome == outcome_of(response),
{
    match response {
        DnsResponse::Unreachable(reason) => Err(DnsFailure::Transport(reason)),
        DnsResponse::Answered { success, errors } => {
            if success {
                Ok(())
            } else {
                Err(DnsFailure::Rejected(errors))
            }
        },
    }
}

} // verus!
