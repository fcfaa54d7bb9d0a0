//! `GET /api/prompts`: the viewer's own prompts.

use vstd::prelude::*;
use crate::db::store::Store;
use crate::prompts::repository::{own_prompt_views, OwnPrompt, OwnPromptView};

verus! {

/// What `/api/prompts` answers, always under `200`: the prompts under the
/// key `prompts`, or the text under the key `error`.
#[derive(Debug)]
pub enum PromptsReply {
    Prompts(Vec<OwnPrompt>),
    Error(String),
}

/// A [`PromptsReply`], as the contracts see it.
pub enum PromptsReplyView {
    Prompts(Seq<OwnPromptView>),
    Error(Seq<char>),
}

impl View for PromptsReply {
    type V = PromptsReplyView;

    open spec fn view(&self) -> PromptsReplyView {
        match self {
            PromptsReply::Prompts(prompts) => PromptsReplyView::Prompts(
                own_prompt_views(prompts@),
            ),
            PromptsReply::Error(error) => PromptsReplyView::Error(error@),
        }
    }
}

/// The prompts of the viewer, newest first; for an anonymous viewer the
/// word that they are not authenticated.
pub fn list(store: &Store, viewer: Option<i64>) -> (reply: PromptsReply)
    requires
        store.wf(),
    ensures
        reply@ == match viewer {
            Some(user_id) => PromptsReplyView::Prompts(store@.own_prompts(user_id)),
            None => PromptsReplyView::Error("Not authenticated"@),
        },
{
    match viewer {
        Some(user_id) => PromptsReply::Prompts(store.list_user_prompts(user_id)),
        None => PromptsReply::Error("Not authenticated".to_owned()),
    }
}

} // verus!
