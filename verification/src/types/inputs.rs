//! The arguments of the server's tools.

use vstd::prelude::*;

verus! {

/// No arguments.
#[derive(Debug, Clone, Copy, PartialEq, Eq, Default)]
pub struct EmptyInput {}

/// `search_docs` / `search_pages`.
#[derive(Debug, Clone, PartialEq, Eq)]
pub struct SearchDocsInput {
    pub query: String,
    pub space_id: Option<String>,
}

/// `get_space`.
#[derive(Debug, Clone, PartialEq, Eq)]
pub struct GetSpaceInput {
    pub space_id: String,
}

/// `get_page`.
#[derive(Debug, Clone, PartialEq, Eq)]
pub struct GetPageInput {
    pub slug_id: String,
}

/// `list_pages`.
#[derive(Debug, Clone, PartialEq, Eq)]
pub struct ListPagesInput {
    pub space_id: String,
    pub limit: Option<u32>,
    pub cursor: Option<String>,
}

/// `list_child_pages`.
#[derive(Debug, Clone, PartialEq, Eq)]
pub struct ListChildPagesInput {
    pub page_id: String,
    pub limit: Option<u32>,
    pub cursor: Option<String>,
}

/// `get_comments`.
#[derive(Debug, Clone, PartialEq, Eq)]
pub struct GetCommentsInput {
    pub page_id: String,
    pub limit: Option<u32>,
    pub cursor: Option<String>,
}

/// `create_page`.
#[derive(Debug, Clone, PartialEq, Eq)]
pub struct CreatePageInput {
    pub space_id: String,
    pub title: String,
    pub markdown: Option<String>,
    pub parent_page_id: Option<String>,
}

/// `update_page`.
#[derive(Debug, Clone, PartialEq, Eq)]
pub struct UpdatePageInput {
    pub page_id: String,
    pub title: Option<String>,
    pub markdown: Option<String>,
}

/// `duplicate_page`.
#[derive(Debug, Clone, PartialEq, Eq)]
pub struct DuplicatePageInput {
    pub page_id: String,
}

/// `copy_page_to_space`.
#[derive(Debug, Clone, PartialEq, Eq)]
pub struct CopyPageToSpaceInput {
    pub page_id: String,
    pub space_id: String,
}

/// `move_page`.
#[derive(Debug, Clone, PartialEq, Eq)]
pub struct MovePageInput {
    pub page_id: String,
    pub parent_page_id: Option<String>,
}

/// `move_page_to_space`.
#[derive(Debug, Clone, PartialEq, Eq)]
pub struct MovePageToSpaceInput {
    pub page_id: String,
    pub space_id: String,
}

/// `list_workspace_members`.
#[derive(Debug, Clone, PartialEq, Eq)]
pub struct ListWorkspaceMembersInput {
    pub limit: Option<u32>,
    pub cursor: Option<String>,
    pub query: Option<String>,
    pub admin_view: Option<bool>,
}

/// `create_space`.
#[derive(Debug, Clone, PartialEq, Eq)]
pub struct CreateSpaceInput {
    pub name: String,
    pub slug: String,
    pub description: Option<String>,
}

/// `update_space`.
#[derive(Debug, Clone, PartialEq, Eq)]
pub struct UpdateSpaceInput {
    pub space_id: String,
    pub name: Option<String>,
    pub slug: Option<String>,
    pub description: Option<String>,
}

/// `create_comment`.
#[derive(Debug, Clone, PartialEq, Eq)]
pub struct CreateCommentInput {
    pub page_id: String,
    pub markdown: String,
}

/// `update_comment`.
#[derive(Debug, Clone, PartialEq, Eq)]
pub struct UpdateCommentInput {
    pub comment_id: String,
    pub markdown: String,
}

} // verus!
