//! Prompts, their tags, and the rows that the feed and the detail page show.

use vstd::prelude::*;
use vstd::std_specs::convert::FromSpecImpl;
use vstd::string::StrSliceExecFns;
use crate::db::TagView;
use crate::text::{count_words, lemma_word_starts_bound, word_count};

pub mod handlers;
pub mod repository;
pub mod templates;

verus! {

/// A label that prompts can carry.
#[derive(Debug)]
pub struct Tag {
    pub id: i64,
    pub name: String,
    pub bg_color: String,
    pub text_color: String,
    pub kind: String,
}

impl View for Tag {
    type V = TagView;

    open spec fn view(&self) -> TagView {
        TagView {
            id: self.id,
            name: self.name@,
            bg_color: self.bg_color@,
            text_color: self.text_color@,
            kind: self.kind@,
        }
    }
}

impl Clone for Tag {
    fn clone(&self) -> (copy: Self)
        ensures
            copy == *self,
    {
        Tag {
            id: self.id,
            name: self.name.clone(),
            bg_color: self.bg_color.clone(),
            text_color: self.text_color.clone(),
            kind: self.kind.clone(),
        }
    }
}

/// The views of a list of tags, in order.
pub open spec fn tag_views(tags: Seq<Tag>) -> Seq<TagView> {
    tags.map_values(|tag: Tag| tag@)
}

/// Copies a list of tags.
pub fn clone_tags(tags: &Vec<Tag>) -> (copy: Vec<Tag>)
    ensures
        copy@ == tags@,
{
    let mut copy: Vec<Tag> = Vec::new();
    for i in 0..tags.len()
        invariant
            copy@ == tags@.take(i as int),
    {
        copy.push(tags[i].clone());
        assert(tags@.take(i + 1) =~= tags@.take(i as int).push(tags@[i as int]));
    }
    assert(tags@.take(tags@.len() as int) =~= tags@);
    copy
}

/// A tag as joined to one prompt.
#[derive(Debug)]
pub struct PromptTag {
    pub prompt_id: i64,
    pub id: i64,
    pub name: String,
    pub bg_color: String,
    pub text_color: String,
    pub kind: String,
}

/// The tag list of a row as the aggregation delivers it: absent, null, or a
/// list.
pub open spec fn raw_tag_views(tags: Option<Option<Vec<Tag>>>) -> Option<Option<Seq<TagView>>> {
    match tags {
        Some(Some(list)) => Some(Some(tag_views(list@))),
        Some(None) => Some(None),
        None => None,
    }
}

/// The tag list that a raw one stands for: absent and null both mean none.
pub open spec fn normalized_tags(raw: Option<Option<Seq<TagView>>>) -> Seq<TagView> {
    match raw {
        Some(Some(list)) => list,
        _ => Seq::empty(),
    }
}

/// How the aggregation delivers a tag list: absent when there is no tag.
pub open spec fn aggregated_tags(tags: Seq<TagView>) -> Option<Option<Seq<TagView>>> {
    if tags.len() == 0 {
        None
    } else {
        Some(Some(tags))
    }
}

/// A feed row as the repository delivers it. `created_at` counts seconds
/// since the Unix epoch.
#[derive(Debug)]
pub struct PromptList {
    pub id: i64,
    pub title: String,
    pub description: String,
    pub author: String,
    pub author_id: i64,
    pub created_at: Option<i64>,
    pub star_count: i64,
    pub tags: Option<Option<Vec<Tag>>>,
    pub is_starred: Option<bool>,
}

/// A feed row, as the contracts see it.
pub struct PromptListView {
    pub id: i64,
    pub title: Seq<char>,
    pub description: Seq<char>,
    pub author: Seq<char>,
    pub author_id: i64,
    pub created_at: Option<i64>,
    pub star_count: i64,
    pub tags: Option<Option<Seq<TagView>>>,
    pub is_starred: Option<bool>,
}

impl View for PromptList {
    type V = PromptListView;

    open spec fn view(&self) -> PromptListView {
        PromptListView {
            id: self.id,
            title: self.title@,
            description: self.description@,
            author: self.author@,
            author_id: self.author_id,
            created_at: self.created_at,
            star_count: self.star_count,
            tags: raw_tag_views(self.tags),
            is_starred: self.is_starred,
        }
    }
}

/// The views of a list of feed rows, in order.
pub open spec fn prompt_list_views(rows: Seq<PromptList>) -> Seq<PromptListView> {
    rows.map_values(|row: PromptList| row@)
}

/// A feed row as the templates take it: the tag list is always a list.
#[derive(Debug)]
pub struct PromptListReady {
    pub id: i64,
    pub title: String,
    pub description: String,
    pub author: String,
    pub author_id: i64,
    pub created_at: Option<i64>,
    pub star_count: i64,
    pub tags: Vec<Tag>,
    pub is_starred: Option<bool>,
}

/// A ready feed row, as the contracts see it.
pub struct PromptListReadyView {
    pub id: i64,
    pub title: Seq<char>,
    pub description: Seq<char>,
    pub author: Seq<char>,
    pub author_id: i64,
    pub created_at: Option<i64>,
    pub star_count: i64,
    pub tags: Seq<TagView>,
    pub is_starred: Option<bool>,
}

impl View for PromptListReady {
    type V = PromptListReadyView;

    open spec fn view(&self) -> PromptListReadyView {
        PromptListReadyView {
            id: self.id,
            title: self.title@,
            description: self.description@,
            author: self.author@,
            author_id: self.author_id,
            created_at: self.created_at,
            star_count: self.star_count,
            tags: tag_views(self.tags@),
            is_starred: self.is_starred,
        }
    }
}

impl PromptListView {
    /// The row that the templates take for this one.
    pub open spec fn ready(self) -> PromptListReadyView {
        PromptListReadyView {
            id: self.id,
            title: self.title,
            description: self.description,
            author: self.author,
            author_id: self.author_id,
            created_at: self.created_at,
            star_count: self.star_count,
            tags: normalized_tags(self.tags),
            is_starred: self.is_starred,
        }
    }
}

impl FromSpecImpl<PromptList> for PromptListReady {
    open spec fn obeys_from_spec() -> bool {
        false
    }

    open spec fn from_spec(item: PromptList) -> PromptListReady {
        arbitrary()
    }
}

impl From<PromptList> for PromptListReady {
    /// Unwraps the tag list; every other column is carried over.
    fn from(item: PromptList) -> (ready: PromptListReady)
        ensures
            ready@ == item@.ready(),
    {
        let tags = match item.tags {
            Some(Some(list)) => list,
            _ => Vec::new(),
        };
        proof {
            assert(tag_views(Seq::<Tag>::empty()) =~= Seq::<TagView>::empty());
        }
        PromptListReady {
            id: item.id,
            title: item.title,
            description: item.description,
            author: item.author,
            author_id: item.author_id,
            created_at: item.created_at,
            star_count: item.star_count,
            tags,
            is_starred: item.is_starred,
        }
    }
}

/// The columns of a feed row that need no aggregation.
#[derive(Debug)]
pub struct PromptListData {
    pub id: i64,
    pub title: String,
    pub description: String,
    pub author: String,
    pub author_id: i64,
    pub created_at: Option<i64>,
}

/// The form that creates a prompt.
#[derive(Debug)]
pub struct NewPrompt {
    pub title: String,
    pub content: String,
    pub tags: String,
    pub description: String,
}

/// A single prompt as the repository delivers it.
#[derive(Debug)]
pub struct PromptRow {
    pub id: i64,
    pub title: String,
    pub description: String,
    pub content: String,
    pub author: String,
    pub author_id: i64,
    pub created_at: Option<i64>,
    pub star_count: i64,
    pub tags: Option<Option<Vec<Tag>>>,
    pub is_starred: Option<bool>,
}

/// A single prompt, as the contracts see it.
pub struct PromptRowView {
    pub id: i64,
    pub title: Seq<char>,
    pub description: Seq<char>,
    pub content: Seq<char>,
    pub author: Seq<char>,
    pub author_id: i64,
    pub created_at: Option<i64>,
    pub star_count: i64,
    pub tags: Option<Option<Seq<TagView>>>,
    pub is_starred: Option<bool>,
}

impl View for PromptRow {
    type V = PromptRowView;

    open spec fn view(&self) -> PromptRowView {
        PromptRowView {
            id: self.id,
            title: self.title@,
            description: self.description@,
            content: self.content@,
            author: self.author@,
            author_id: self.author_id,
            created_at: self.created_at,
            star_count: self.star_count,
            tags: raw_tag_views(self.tags),
            is_starred: self.is_starred,
        }
    }
}

/// A single prompt as the detail page takes it.
#[derive(Debug)]
pub struct PromptRowReady {
    pub id: i64,
    pub title: String,
    pub description: String,
    pub content: String,
    pub author: String,
    pub author_id: i64,
    pub created_at: Option<i64>,
    pub star_count: i64,
    pub estimated_tokens: usize,
    pub tags: Vec<Tag>,
    pub is_starred: Option<bool>,
}

/// A ready single prompt, as the contracts see it.
pub struct PromptRowReadyView {
    pub id: i64,
    pub title: Seq<char>,
    pub description: Seq<char>,
    pub content: Seq<char>,
    pub author: Seq<char>,
    pub author_id: i64,
    pub created_at: Option<i64>,
    pub star_count: i64,
    pub estimated_tokens: usize,
    pub tags: Seq<TagView>,
    pub is_starred: Option<bool>,
}

impl View for PromptRowReady {
    type V = PromptRowReadyView;

    open spec fn view(&self) -> PromptRowReadyView {
        PromptRowReadyView {
            id: self.id,
            title: self.title@,
            description: self.description@,
            content: self.content@,
            author: self.author@,
            author_id: self.author_id,
            created_at: self.created_at,
            star_count: self.star_count,
            estimated_tokens: self.estimated_tokens,
            tags: tag_views(self.tags@),
            is_starred: self.is_starred,
        }
    }
}

impl PromptRowView {
    /// The row that the detail page takes for this one.
    pub open spec fn ready(self) -> PromptRowReadyView {
        PromptRowReadyView {
            id: self.id,
            title: self.title,
            description: self.description,
            content: self.content,
            author: self.author,
            author_id: self.author_id,
            created_at: self.created_at,
            star_count: self.star_count,
            estimated_tokens: estimated_tokens(self.content) as usize,
            tags: normalized_tags(self.tags),
            is_starred: self.is_starred,
        }
    }
}

impl FromSpecImpl<PromptRow> for PromptRowReady {
    open spec fn obeys_from_spec() -> bool {
        false
    }

    open spec fn from_spec(item: PromptRow) -> PromptRowReady {
        arbitrary()
    }
}

impl From<PromptRow> for PromptRowReady {
    /// Unwraps the tag list and estimates the tokens of the content; every
    /// other column is carried over.
    fn from(item: PromptRow) -> (ready: PromptRowReady)
        ensures
            ready@ == item@.ready(),
    {
        let tags = match item.tags {
            Some(Some(list)) => list,
            _ => Vec::new(),
        };
        proof {
            assert(tag_views(Seq::<Tag>::empty()) =~= Seq::<TagView>::empty());
        }
        let estimated_tokens = estimate_token_count(item.content.as_str());
        PromptRowReady {
            id: item.id,
            title: item.title,
            description: item.description,
            content: item.content,
            author: item.author,
            author_id: item.author_id,
            created_at: item.created_at,
            star_count: item.star_count,
            estimated_tokens,
            tags,
            is_starred: item.is_starred,
        }
    }
}

/// A prompt with room for what the detail page may show beside it.
#[derive(Debug)]
pub struct PromptData {
    pub row: PromptRow,
    pub summary: String,
    pub tags: Vec<(i64, String)>,
    pub author_id: i64,
    pub author_name: String,
    pub comment_count: i64,
    pub star_count: i64,
}

impl FromSpecImpl<PromptRow> for PromptData {
    open spec fn obeys_from_spec() -> bool {
        false
    }

    open spec fn from_spec(item: PromptRow) -> PromptData {
        arbitrary()
    }
}

impl From<PromptRow> for PromptData {
    /// Wraps the row; everything beside it starts empty or zero.
    fn from(item: PromptRow) -> (data: PromptData)
        ensures
            data.row == item,
            data.summary@.len() == 0,
            data.tags@.len() == 0,
            data.author_id == 0,
            data.author_name@.len() == 0,
            data.comment_count == 0,
            data.star_count == 0,
    {
        PromptData {
            row: item,
            summary: String::new(),
            tags: Vec::new(),
            author_id: 0,
            author_name: String::new(),
            comment_count: 0,
            star_count: 0,
        }
    }
}

/// The token estimate of a text: the mean of a quarter of its characters
/// and the number of its words, every division rounding down.
pub open spec fn estimated_tokens(text: Seq<char>) -> nat {
    (text.len() / 4 + word_count(text)) / 2
}

/// Estimates how many tokens a text comes to.
pub fn estimate_token_count(text: &str) -> (tokens: usize)
    ensures
        tokens == estimated_tokens(text@),
{
    let char_count = text.unicode_len();
    let word_count = count_words(text);
    proof {
        lemma_word_starts_bound(text@, text@.len());
    }
    (char_count / 4 + word_count) / 2
}

} // verus!
