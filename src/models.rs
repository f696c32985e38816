//! Plain data shared by every part of the engine.

use vstd::prelude::*;

verus! {

/// An opaque structured value (a JSON document) produced by extraction.
#[verifier::external_type_specification]
#[verifier::external_body]
pub struct ExJsonValue(serde_json::Value);

/// The plain list of extracted fragments handed back to an API caller.
pub struct CrawlResponse {
    pub items: Vec<String>,
}

/// One client request: where to start and what to extract.
pub struct ScrapeParams {
    pub url: String,
    pub model: String,
    pub enable_scraping: bool,
    pub tags: Vec<String>,
    pub enable_pagination: bool,
    pub pagination_details: Option<String>,
}

/// Token accounting of the generative backend.
#[derive(Clone, Copy, Debug, PartialEq, Eq, Structural)]
pub struct TokenCounts {
    pub input_tokens: u32,
    pub output_tokens: u32,
}

/// What went wrong, by the layer that noticed it.
pub enum ScrapeError {
    /// Network failure or timeout while fetching one page.
    Fetch(String),
    /// A page could not be parsed.
    Parse(String),
    /// The generative backend failed or produced malformed output.
    AI(String),
    /// The session parameters are unusable; no work was started.
    InvalidRequest(String),
    /// A subscriber went away.
    ChannelClosed,
}

/// One event of a session's stream, as delivered to subscribers.
pub enum Event {
    Progress(String),
    RawItem(String),
    ScrapingChunk(String),
    Success(Vec<serde_json::Value>),
    Error(String),
}

impl TokenCounts {
    /// Adds the counts of another call, saturating at the largest `u32`.
    pub fn merge(&self, other: &TokenCounts) -> (r: TokenCounts)
        ensures
            r.input_tokens as int == if self.input_tokens + other.input_tokens > u32::MAX {
                u32::MAX as int
            } else {
                self.input_tokens + other.input_tokens
            },
            r.output_tokens as int == if self.output_tokens + other.output_tokens > u32::MAX {
                u32::MAX as int
            } else {
                self.output_tokens + other.output_tokens
            },
    {
        TokenCounts {
            input_tokens: self.input_tokens.saturating_add(other.input_tokens),
            output_tokens: self.output_tokens.saturating_add(other.output_tokens),
        }
    }
}

} // verus!
