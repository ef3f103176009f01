//! The records the server stores and exchanges with Docmost.

pub mod inputs;

use vstd::prelude::*;
use crate::json::Json;

verus! {

/// Saved connection settings.
#[derive(Debug, Clone, PartialEq, Eq)]
pub struct StoredConfig {
    pub base_url: String,
    pub email: String,
    pub last_authenticated_at: String,
}

/// A saved session token.
#[derive(Debug, Clone, PartialEq, Eq)]
pub struct StoredSession {
    pub token: String,
    pub expires_at: Option<String>,
    pub saved_at: String,
}

/// Saved sign-in credentials.
#[derive(Debug, Clone, PartialEq, Eq)]
pub struct StoredCredentials {
    pub email: String,
    pub password: String,
}

/// A session ready for API calls.
#[derive(Debug, Clone, PartialEq, Eq)]
pub struct AuthenticatedSession {
    pub base_url: String,
    pub email: String,
    pub token: String,
    pub expires_at: Option<String>,
}

/// What the sign-in form submits.
#[derive(Debug, Clone, PartialEq, Eq)]
pub struct LoginInput {
    pub base_url: String,
    pub email: String,
    pub password: String,
}

/// What the sign-in window is opened with.
#[derive(Debug, Clone, PartialEq, Eq)]
pub struct AuthWindowSession {
    pub login_url: String,
    pub success_url: String,
    pub fallback_url: String,
    pub window_title: String,
    pub window_width: u32,
    pub window_height: u32,
}

/// A Docmost space.
#[derive(Debug, Clone, PartialEq, Eq)]
pub struct DocmostSpace {
    pub id: String,
    pub name: Option<String>,
    pub slug: String,
    pub description: Option<String>,
    pub member_count: Option<i64>,
    pub visibility: Option<String>,
    pub default_role: Option<String>,
}

/// A space with the current user's membership.
#[derive(Debug, Clone, PartialEq, Eq)]
pub struct DocmostSpaceWithMembership {
    pub id: String,
    pub name: Option<String>,
    pub slug: String,
    pub description: Option<String>,
    pub member_count: Option<i64>,
    pub visibility: Option<String>,
    pub default_role: Option<String>,
    pub membership: Option<DocmostSpaceMembership>,
}

/// A user's membership of a space.
#[derive(Debug, Clone, PartialEq, Eq)]
pub struct DocmostSpaceMembership {
    pub user_id: Option<String>,
    pub role: Option<String>,
}

/// One search hit.
#[derive(Debug, Clone, PartialEq, Eq)]
pub struct DocmostSearchResult {
    pub id: Option<String>,
    pub slug_id: String,
    pub title: Option<String>,
    pub highlight: Option<String>,
    pub icon: Option<String>,
    pub parent_page_id: Option<String>,
    pub creator_id: Option<String>,
    pub created_at: Option<String>,
    pub updated_at: Option<String>,
    pub space: Option<DocmostSearchSpace>,
}

/// The space of a search hit or listed page.
#[derive(Debug, Clone, PartialEq, Eq)]
pub struct DocmostSearchSpace {
    pub id: Option<String>,
    pub name: Option<String>,
    pub slug: Option<String>,
}

/// A page, with its ProseMirror body when fetched.
#[derive(Debug)]
pub struct DocmostPage {
    pub id: Option<String>,
    pub slug_id: Option<String>,
    pub title: Option<String>,
    pub icon: Option<String>,
    pub updated_at: Option<String>,
    pub parent_page_id: Option<String>,
    pub space_id: Option<String>,
    pub space: Option<DocmostPageSpace>,
    pub creator: Option<DocmostPageCreator>,
    pub content: Option<Json>,
}

/// The space of a page.
#[derive(Debug, Clone, PartialEq, Eq)]
pub struct DocmostPageSpace {
    pub id: Option<String>,
    pub name: Option<String>,
    pub slug: Option<String>,
}

/// The author of a page.
#[derive(Debug, Clone, PartialEq, Eq)]
pub struct DocmostPageCreator {
    pub id: Option<String>,
    pub name: Option<String>,
}

/// A page in a listing.
#[derive(Debug, Clone, PartialEq, Eq)]
pub struct DocmostPageListItem {
    pub id: String,
    pub slug_id: String,
    pub title: Option<String>,
    pub icon: Option<String>,
    pub parent_page_id: Option<String>,
    pub has_children: Option<bool>,
    pub space_id: Option<String>,
    pub updated_at: Option<String>,
    pub space: Option<DocmostSearchSpace>,
    /// The page's fractional-index key among its siblings.
    pub position: Option<String>,
}

/// A comment, with its ProseMirror body.
#[derive(Debug)]
pub struct DocmostComment {
    pub id: String,
    pub page_id: Option<String>,
    pub content: Option<Json>,
    pub selection: Option<String>,
    pub parent_comment_id: Option<String>,
    pub creator: Option<DocmostUserSummary>,
    pub resolved_by: Option<DocmostUserSummary>,
    pub created_at: Option<String>,
    pub updated_at: Option<String>,
    pub resolved_at: Option<String>,
}

/// A user as a comment shows one.
#[derive(Debug, Clone, PartialEq, Eq)]
pub struct DocmostUserSummary {
    pub id: Option<String>,
    pub name: Option<String>,
    pub avatar_url: Option<String>,
}

/// A workspace member.
#[derive(Debug, Clone, PartialEq, Eq)]
pub struct DocmostUser {
    pub id: String,
    pub name: Option<String>,
    pub email: Option<String>,
    pub avatar_url: Option<String>,
    pub role: Option<String>,
    pub deactivated_at: Option<String>,
}

/// A workspace.
#[derive(Debug, Clone, PartialEq, Eq)]
pub struct DocmostWorkspace {
    pub id: String,
    pub name: Option<String>,
    pub hostname: Option<String>,
    pub default_space_id: Option<String>,
    pub member_count: Option<i64>,
    pub has_license_key: Option<bool>,
}

/// The signed-in user and their workspace.
#[derive(Debug, Clone, PartialEq, Eq)]
pub struct DocmostCurrentUserResponse {
    pub user: DocmostUser,
    pub workspace: DocmostWorkspace,
}

} // verus!
