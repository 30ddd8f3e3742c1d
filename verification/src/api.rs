//! The plain request and response records of the service surface.
//!
//! These carry data between the outside transport and the library; the
//! transport itself lives with the caller.

use vstd::prelude::*;

verus! {

/// A knowledge search request.
pub struct SearchRequest {
    pub query: String,
}

/// A knowledge search request with a result cap.
pub struct AdvancedSearchRequest {
    pub query: String,
    pub max_results: Option<usize>,
}

/// A crawl request: start URL and optional depth.
pub struct CrawlRequest {
    pub url: String,
    pub depth: Option<u8>,
}

/// A random-crawl request: optional depth only.
pub struct RandomCrawlQuery {
    pub depth: Option<u8>,
}

/// One search hit.
pub struct BrainSearchResult {
    pub id: String,
    pub label: String,
    pub summary: String,
    pub sources: Vec<String>,
}

/// A node of the rendered knowledge graph.
pub struct GraphNode {
    pub id: String,
    pub label: String,
    pub title: String,
    pub group: String,
}

/// An edge of the rendered knowledge graph.
pub struct GraphEdge {
    pub from: String,
    pub to: String,
    pub label: String,
}

/// The rendered knowledge graph.
pub struct GraphResponse {
    pub nodes: Vec<GraphNode>,
    pub edges: Vec<GraphEdge>,
}

/// A chat message from a user.
pub struct UserChatRequest {
    pub message: String,
}

/// A chat reply to a user.
pub struct UserChatResponse {
    pub response: String,
    pub username: String,
    pub is_admin: bool,
}

/// One listed account.
pub struct UserInfo {
    pub username: String,
    pub email: String,
    pub is_admin: bool,
}

/// An administrative password reset.
pub struct NewPasswordRequest {
    pub username: String,
    pub new_password: String,
}

/// A registration request.
pub struct RegisterRequest {
    pub username: String,
    pub password: String,
    pub email: String,
}

/// A password-reset request.
pub struct ResetRequest {
    pub username: String,
    pub email: String,
}

/// A manual training request.
pub struct TrainRequest {
    pub url: String,
}

} // verus!
