//! What the pages with comments show.

use vstd::prelude::*;
use crate::prompts::{PromptData, PromptListReady, Tag};

verus! {

/// A tag as joined to one prompt.
#[derive(Debug)]
pub struct PromptTag {
    pub prompt_id: i64,
    pub id: i64,
    pub name: String,
    pub bg_color: String,
    pub text_color: String,
    pub kind: String,
}

/// What the feed page shows.
#[derive(Debug)]
pub struct ListTemplate {
    pub user: Option<i64>,
    pub tags: Vec<Tag>,
    pub prompts: Vec<PromptListReady>,
}

/// A comment on a prompt.
#[derive(Debug)]
pub struct Comment {
    pub id: i64,
    pub body: String,
    pub created_at: String,
    pub author_id: i64,
    pub author_name: String,
}

/// What the detail page shows.
#[derive(Debug)]
pub struct DetailTemplate {
    pub user_logged_in: bool,
    pub prompt: PromptData,
    pub comments: Vec<Comment>,
}

} // verus!
