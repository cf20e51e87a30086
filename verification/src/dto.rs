//! Plain request carriers and the process configuration.

use vstd::prelude::*;

verus! {

/// What the process is configured with at startup; read from the
/// environment by the surrounding program and passed in explicitly.
pub struct AppConfig {
    pub database_url: String,
    pub jwt_secret: String,
    pub port: u16,
}

/// A create-category request of the knowledge base.
pub struct CreateCategoryRequest {
    pub name: String,
    pub description: Option<String>,
}

/// An update to one comment's text.
pub struct UpdateCommentRequest {
    pub content: String,
}

} // verus!
