//! What each prompt route answers, given the viewer and the store.

use vstd::prelude::*;
use crate::db::{Database, PromptView};
use crate::db::store::Store;
use crate::http::{
    login_location, not_found, redirect_to, redirect_with, unauthorized, Level, Message, Reply,
    ReplyView,
};
use crate::prompts::repository::{RepoError, FEED_PAGE_SIZE, FEED_WINDOW_DAYS};
use crate::prompts::{
    tag_views, NewPrompt, PromptListReady, PromptListReadyView, PromptListView, PromptRowReady, Tag,
};
use crate::text::{decimal, decimal_i64, decimal_string, parse_i64, same_text};

verus! {

/// What the feed page shows.
#[derive(Debug)]
pub struct ListTemplate {
    pub user: Option<i64>,
    pub tags: Vec<Tag>,
    pub prompts: Vec<PromptListReady>,
}

/// What the detail page shows.
#[derive(Debug)]
pub struct DetailTemplate {
    pub user: Option<i64>,
    pub prompt: PromptRowReady,
}

/// What the form for a new prompt shows.
#[derive(Debug)]
pub struct AddPromptTemplate {
    pub user: Option<i64>,
    pub messages: Vec<Message>,
}

/// What the tag picker of a prompt shows.
#[derive(Debug)]
pub struct AvailableTags {
    pub prompt_id: i64,
    pub tags: Vec<Tag>,
}

/// The views of a list of ready feed rows, in order.
pub open spec fn ready_views(rows: Seq<PromptListReady>) -> Seq<PromptListReadyView> {
    rows.map_values(|row: PromptListReady| row@)
}

/// The path of the form for a new prompt.
pub open spec fn new_prompt_location() -> Seq<char> {
    "/prompt/new"@
}

/// The path of the detail page of a prompt.
pub open spec fn prompt_location(prompt_id: i64) -> Seq<char> {
    "/prompt/"@ + decimal(prompt_id as int)
}

/// A submitted form: its fields in order, each a name and a value.
pub open spec fn form_view(form: Seq<(String, String)>) -> Seq<(Seq<char>, Seq<char>)> {
    form.map_values(|field: (String, String)| (field.0@, field.1@))
}

/// The tag that a form field picks, if it picks one: the field is named
/// `tags[]` and its value is a number in decimal notation.
pub open spec fn picked_tag(field: (Seq<char>, Seq<char>)) -> Option<i64> {
    if field.0 == "tags[]"@ {
        decimal_i64(field.1)
    } else {
        None
    }
}

/// The tags that a form picks, in the order of its fields.
pub open spec fn form_tag_ids(form: Seq<(Seq<char>, Seq<char>)>) -> Seq<i64>
    decreases form.len(),
{
    if form.len() == 0 {
        Seq::empty()
    } else {
        let rest = form_tag_ids(form.drop_last());
        match picked_tag(form.last()) {
            Some(tag_id) => rest.push(tag_id),
            None => rest,
        }
    }
}

/// Reads the picked tags off a submitted form. Fields of another name and
/// values that are no number are passed over.
pub fn tag_ids_of_form(form: &Vec<(String, String)>) -> (tag_ids: Vec<i64>)
    ensures
        tag_ids@ == form_tag_ids(form_view(form@)),
{
    let ghost fields = form_view(form@);
    let mut tag_ids: Vec<i64> = Vec::new();
    proof {
        assert(fields.take(0) =~= Seq::empty());
    }
    for i in 0..form.len()
        invariant
            fields == form_view(form@),
            tag_ids@ == form_tag_ids(fields.take(i as int)),
    {
        proof {
            assert(fields.take(i + 1).drop_last() =~= fields.take(i as int));
            assert(fields.take(i + 1).last() == (form@[i as int].0@, form@[i as int].1@));
        }
        if same_text(form[i].0.as_str(), "tags[]") {
            if let Some(tag_id) = parse_i64(form[i].1.as_str()) {
                tag_ids.push(tag_id);
            }
        }
    }
    proof {
        assert(fields.take(fields.len() as int) =~= fields);
    }
    tag_ids
}

impl Database {
    /// Whether every tag of `tag_ids` exists.
    pub open spec fn knows_tags(self, tag_ids: Seq<i64>) -> bool {
        forall|k: int| 0 <= k < tag_ids.len() ==> self.has_tag(#[trigger] tag_ids[k])
    }

    /// The first page of the feed as the feed page shows it.
    pub open spec fn front_page(self, viewer: Option<i64>, now: i64) -> Seq<PromptListReadyView> {
        self.feed(viewer, 0, FEED_WINDOW_DAYS, FEED_PAGE_SIZE as nat, now).map_values(
            |row: PromptListView| row.ready(),
        )
    }
}

/// The feed page: every tag, and the first page of the feed of the last
/// thirty days before `now`.
pub fn list(store: &Store, viewer: Option<i64>, now: i64) -> (page: ListTemplate)
    requires
        store.wf(),
    ensures
        page.user == viewer,
        tag_views(page.tags@) == store@.tags,
        ready_views(page.prompts@) == store@.front_page(viewer, now),
{
    let rows = store.list_feed(viewer, 0, FEED_WINDOW_DAYS, FEED_PAGE_SIZE, now);
    let ghost raw = rows@;
    let mut prompts: Vec<PromptListReady> = Vec::new();
    for row in it: rows
        invariant
            it.seq() == raw,
            prompts@.len() == it.index(),
            forall|j: int| 0 <= j < it.index() ==> (#[trigger] prompts@[j])@ == raw[j]@.ready(),
    {
        prompts.push(PromptListReady::from(row));
    }
    proof {
        assert(ready_views(prompts@) =~= store@.front_page(viewer, now));
    }
    ListTemplate { user: viewer, tags: store.all_tags(), prompts }
}

/// The detail page of a prompt, or the answer that there is none. A prompt
/// without an author has no detail page.
pub fn detail(store: &Store, viewer: Option<i64>, prompt_id: i64) -> (result: Result<
    DetailTemplate,
    Reply,
>)
    requires
        store.wf(),
    ensures
        match result {
            Ok(page) => {
                &&& store@.shows_prompt(prompt_id)
                &&& page.user == viewer
                &&& page.prompt@ == store@.detail_row(store@.prompt(prompt_id), viewer).ready()
            },
            Err(reply) => !store@.shows_prompt(prompt_id) && reply@ == not_found(),
        },
{
    match store.get_prompt(prompt_id, viewer) {
        Ok(row) => Ok(DetailTemplate { user: viewer, prompt: PromptRowReady::from(row) }),
        Err(_) => Err(Reply::not_found()),
    }
}

/// The content of a prompt as plain text, or the answer that there is none.
pub fn raw(store: &Store, prompt_id: i64) -> (reply: Reply)
    requires
        store.wf(),
    ensures
        reply@ == if store@.has_prompt(prompt_id) {
            ReplyView::Text { status: 200, body: store@.prompt(prompt_id).content }
        } else {
            not_found()
        },
{
    match store.get_prompt_content(prompt_id) {
        Ok(content) => Reply::Text { status: 200, body: content },
        Err(_) => Reply::not_found(),
    }
}

/// The form for a new prompt, with the flash messages that wait for it.
pub fn add_prompt(viewer: Option<i64>, messages: Vec<Message>) -> (page: AddPromptTemplate)
    ensures
        page.user == viewer,
        page.messages == messages,
{
    AddPromptTemplate { user: viewer, messages }
}

/// The tag picker of a prompt: every tag there is.
pub fn tag_edit(store: &Store, prompt_id: i64) -> (page: AvailableTags)
    ensures
        page.prompt_id == prompt_id,
        tag_views(page.tags@) == store@.tags,
{
    AvailableTags { prompt_id, tags: store.all_tags() }
}

/// What creating a prompt leaves and answers, for a viewer who is logged
/// in: back to the form either way, with word of how it went.
pub open spec fn created(
    before: Database,
    author_id: i64,
    title: Seq<char>,
    description: Seq<char>,
    content: Seq<char>,
    now: i64,
) -> (Database, ReplyView) {
    if before.create_refusal(author_id, title, content) is None {
        (
            before.with_prompt(
                PromptView {
                    id: before.next_prompt_id() as i64,
                    user_id: Some(author_id),
                    parent_prompt_id: None,
                    title,
                    description,
                    content,
                    created_at: now,
                },
            ),
            redirect_with(
                new_prompt_location(),
                Level::Info,
                "Successfully created a new prompt"@,
            ),
        )
    } else {
        (before, redirect_with(new_prompt_location(), Level::Warning, "Failed to create prompt."@))
    }
}

/// Creates a prompt from the submitted form, at `now`, for the viewer.
///
/// An anonymous viewer is sent to the login page and nothing is stored.
pub fn create(store: &mut Store, viewer: Option<i64>, form: &NewPrompt, now: i64) -> (reply: Reply)
    requires
        old(store).wf(),
    ensures
        final(store).wf(),
        match viewer {
            Some(author_id) => (final(store)@, reply@) == created(
                old(store)@,
                author_id,
                form.title@,
                form.description@,
                form.content@,
                now,
            ),
            None => {
                &&& final(store)@ == old(store)@
                &&& reply@ == redirect_to(login_location(new_prompt_location()))
            },
        },
{
    let author_id = match viewer {
        Some(author_id) => author_id,
        None => {
            return Reply::to_login("/prompt/new");
        },
    };
    match store.create_prompt(
        author_id,
        form.title.as_str(),
        form.description.as_str(),
        form.content.as_str(),
        now,
    ) {
        Ok(_) => Reply::flash(
            "/prompt/new".to_owned(),
            Level::Info,
            "Successfully created a new prompt",
        ),
        Err(_) => Reply::flash("/prompt/new".to_owned(), Level::Warning, "Failed to create prompt."),
    }
}

/// What replacing the tags of a prompt leaves and answers, for a viewer who
/// is logged in.
pub open spec fn retagged(before: Database, author_id: i64, prompt_id: i64, tag_ids: Seq<i64>) -> (
    Database,
    ReplyView,
) {
    if !before.may_edit(prompt_id, author_id) {
        (before, unauthorized())
    } else if !before.knows_tags(tag_ids) {
        (before, redirect_with(prompt_location(prompt_id), Level::Error, "Unknown tag."@))
    } else {
        (before.with_tags(prompt_id, tag_ids.to_set()), redirect_to(prompt_location(prompt_id)))
    }
}

/// Replaces the tags of a prompt by those that the submitted form picks.
///
/// Only the author may: anyone else, an anonymous viewer too, is told
/// `401 Unauthorized`. A form that picks a tag that does not exist changes
/// nothing and leaves an error message.
pub fn add_tags(
    store: &mut Store,
    viewer: Option<i64>,
    prompt_id: i64,
    form: &Vec<(String, String)>,
) -> (reply: Reply)
    requires
        old(store).wf(),
    ensures
        final(store).wf(),
        match viewer {
            Some(author_id) => (final(store)@, reply@) == retagged(
                old(store)@,
                author_id,
                prompt_id,
                form_tag_ids(form_view(form@)),
            ),
            None => final(store)@ == old(store)@ && reply@ == unauthorized(),
        },
{
    let author_id = match viewer {
        Some(author_id) => author_id,
        None => {
            return Reply::unauthorized();
        },
    };
    let tag_ids = tag_ids_of_form(form);
    let mut location = "/prompt/".to_owned();
    location.append(decimal_string(prompt_id).as_str());
    match store.set_tags(prompt_id, author_id, &tag_ids) {
        Ok(()) => Reply::to(location),
        Err(RepoError::Forbidden) => Reply::unauthorized(),
        Err(_) => Reply::flash(location, Level::Error, "Unknown tag."),
    }
}

/// What toggling a star leaves and answers, for a viewer who is logged in:
/// on to the prompt if the toggle went through, `500` if the store refused
/// it.
pub open spec fn starred(before: Database, user_id: i64, prompt_id: i64) -> (Database, ReplyView) {
    (
        before.toggled(prompt_id, user_id),
        if before.toggle_outcome(prompt_id, user_id) is Ok {
            redirect_to(prompt_location(prompt_id))
        } else {
            ReplyView::Text { status: 500, body: Seq::empty() }
        },
    )
}

/// Stars the prompt for the viewer, or takes the viewer's star back.
///
/// An anonymous viewer is sent to the login page and nothing changes.
pub fn star(store: &mut Store, viewer: Option<i64>, prompt_id: i64) -> (reply: Reply)
    requires
        old(store).wf(),
    ensures
        final(store).wf(),
        match viewer {
            Some(user_id) => (final(store)@, reply@) == starred(old(store)@, user_id, prompt_id),
            None => {
                &&& final(store)@ == old(store)@
                &&& reply@ == redirect_to(
                    login_location(prompt_location(prompt_id)),
                )
            },
        },
{
    let mut location = "/prompt/".to_owned();
    location.append(decimal_string(prompt_id).as_str());
    let user_id = match viewer {
        Some(user_id) => user_id,
        None => {
            return Reply::to_login(location.as_str());
        },
    };
    match store.toggle_star(prompt_id, user_id) {
        Ok(_) => Reply::to(location),
        Err(_) => Reply::Text { status: 500, body: String::new() },
    }
}

} // verus!
