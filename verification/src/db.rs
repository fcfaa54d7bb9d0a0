//! The persistence layer: the five tables of the service and their
//! invariants.
//!
//! This module holds the mathematical model, a [`Database`], that every
//! contract in this crate speaks about: three sequences of rows in key order
//! and two relations, each a set of pairs. The store that keeps the rows is
//! in [`store`]; what it is seeded with, in [`defaults`]; where it is kept, in
//! [`settings`].

use vstd::prelude::*;
use crate::db::defaults::{default_tag, default_tag_at, DEFAULT_TAG_COUNT};
use crate::db::store::Store;
use crate::prompts::{tag_views, Tag};
use crate::text::blank;
use crate::users::{user_views, User};

pub mod defaults;
pub mod settings;
pub mod store;

verus! {

/// A row of `users`, as the contracts see it.
pub struct UserView {
    pub id: i64,
    pub username: Seq<char>,
    pub email: Seq<char>,
    pub password: Seq<char>,
}

/// A row of `prompts`, as the contracts see it.
pub struct PromptView {
    pub id: i64,
    pub user_id: Option<i64>,
    pub parent_prompt_id: Option<i64>,
    pub title: Seq<char>,
    pub description: Seq<char>,
    pub content: Seq<char>,
    pub created_at: i64,
}

/// A row of `tags`, as the contracts see it.
pub struct TagView {
    pub id: i64,
    pub name: Seq<char>,
    pub bg_color: Seq<char>,
    pub text_color: Seq<char>,
    pub kind: Seq<char>,
}

/// The whole relational state.
///
/// `prompt_tags` holds pairs `(prompt_id, tag_id)` and `prompt_stars` holds
/// pairs `(prompt_id, user_id)`. Both tables have the pair as their primary
/// key, so each is a set.
pub struct Database {
    pub users: Seq<UserView>,
    pub prompts: Seq<PromptView>,
    pub tags: Seq<TagView>,
    pub prompt_tags: Set<(i64, i64)>,
    pub prompt_stars: Set<(i64, i64)>,
}

/// The mark of an Argon2 hash in PHC form: the text begins with `$argon2`.
/// A password as the user typed it is not stored under this mark.
pub open spec fn is_argon2_phc(text: Seq<char>) -> bool {
    "$argon2"@.is_prefix_of(text)
}

/// A hexadecimal digit, in either case.
pub open spec fn is_hex_digit(c: char) -> bool {
    ('0' <= c <= '9') || ('a' <= c <= 'f') || ('A' <= c <= 'F')
}

/// A colour code: exactly six hexadecimal digits.
pub open spec fn is_color_code(s: Seq<char>) -> bool {
    s.len() == 6 && forall|i: int| 0 <= i < 6 ==> is_hex_digit(#[trigger] s[i])
}

/// The rows of a relation that belong to one prompt.
pub open spec fn of_prompt(prompt_id: i64) -> spec_fn((i64, i64)) -> bool {
    |row: (i64, i64)| row.0 == prompt_id
}

/// The rows of a relation that belong to any other prompt.
pub open spec fn of_other_prompt(prompt_id: i64) -> spec_fn((i64, i64)) -> bool {
    |row: (i64, i64)| row.0 != prompt_id
}

impl Database {
    /// The state with no rows at all.
    pub open spec fn empty() -> Database {
        Database {
            users: Seq::empty(),
            prompts: Seq::empty(),
            tags: Seq::empty(),
            prompt_tags: Set::empty(),
            prompt_stars: Set::empty(),
        }
    }

    /// Whether a user has this key.
    pub open spec fn has_user(self, id: i64) -> bool {
        exists|i: int| 0 <= i < self.users.len() && (#[trigger] self.users[i]).id == id
    }

    /// Whether a user has this name.
    pub open spec fn has_username(self, username: Seq<char>) -> bool {
        exists|i: int|
            0 <= i < self.users.len() && (#[trigger] self.users[i]).username == username
    }

    /// Whether a prompt has this key.
    pub open spec fn has_prompt(self, id: i64) -> bool {
        exists|i: int| 0 <= i < self.prompts.len() && (#[trigger] self.prompts[i]).id == id
    }

    /// Whether a tag has this key.
    pub open spec fn has_tag(self, id: i64) -> bool {
        exists|i: int| 0 <= i < self.tags.len() && (#[trigger] self.tags[i]).id == id
    }

    /// Whether a tag has this name and kind.
    pub open spec fn has_tag_named(self, name: Seq<char>, kind: Seq<char>) -> bool {
        exists|i: int|
            0 <= i < self.tags.len() && (#[trigger] self.tags[i]).name == name
                && self.tags[i].kind == kind
    }

    /// The user with the given key. Meaningful when `has_user(id)`.
    pub open spec fn user(self, id: i64) -> UserView {
        let i = choose|i: int| 0 <= i < self.users.len() && (#[trigger] self.users[i]).id == id;
        self.users[i]
    }

    /// The user with the given name. Meaningful when `has_username(username)`.
    pub open spec fn user_named(self, username: Seq<char>) -> UserView {
        let i = choose|i: int|
            0 <= i < self.users.len() && (#[trigger] self.users[i]).username == username;
        self.users[i]
    }

    /// The prompt with the given key. Meaningful when `has_prompt(id)`.
    pub open spec fn prompt(self, id: i64) -> PromptView {
        let i = choose|i: int|
            0 <= i < self.prompts.len() && (#[trigger] self.prompts[i]).id == id;
        self.prompts[i]
    }

    /// Users are kept in key order; names are unique and not blank, so not
    /// empty; the password column holds what is marked as an Argon2 hash.
    pub open spec fn users_valid(self) -> bool {
        &&& forall|i: int, j: int|
            0 <= i < j < self.users.len() ==> (#[trigger] self.users[i]).id < (
            #[trigger] self.users[j]).id
        &&& forall|i: int, j: int|
            0 <= i < j < self.users.len() ==> (#[trigger] self.users[i]).username != (
            #[trigger] self.users[j]).username
        &&& forall|i: int| 0 <= i < self.users.len() ==> !blank((#[trigger] self.users[i]).username)
        &&& forall|i: int|
            0 <= i < self.users.len() ==> is_argon2_phc((#[trigger] self.users[i]).password)
    }

    /// Prompts are kept in key order; content is not empty; author and parent,
    /// where given, exist.
    pub open spec fn prompts_valid(self) -> bool {
        &&& forall|i: int, j: int|
            0 <= i < j < self.prompts.len() ==> (#[trigger] self.prompts[i]).id < (
            #[trigger] self.prompts[j]).id
        &&& forall|i: int|
            0 <= i < self.prompts.len() ==> (#[trigger] self.prompts[i]).content.len() > 0
        &&& forall|i: int|
            0 <= i < self.prompts.len() && (#[trigger] self.prompts[i]).user_id is Some
                ==> self.has_user(self.prompts[i].user_id->0)
        &&& forall|i: int|
            0 <= i < self.prompts.len() && (#[trigger] self.prompts[i]).parent_prompt_id is Some
                ==> self.has_prompt(self.prompts[i].parent_prompt_id->0)
    }

    /// Tags are kept in key order; `(name, kind)` is unique; colours are
    /// six-digit hexadecimal codes.
    pub open spec fn tags_valid(self) -> bool {
        &&& forall|i: int, j: int|
            0 <= i < j < self.tags.len() ==> (#[trigger] self.tags[i]).id < (
            #[trigger] self.tags[j]).id
        &&& forall|i: int, j: int|
            0 <= i < j < self.tags.len() ==> !((#[trigger] self.tags[i]).name == (
            #[trigger] self.tags[j]).name && self.tags[i].kind == self.tags[j].kind)
        &&& forall|i: int|
            0 <= i < self.tags.len() ==> is_color_code((#[trigger] self.tags[i]).bg_color)
                && is_color_code(self.tags[i].text_color)
    }

    /// Both relations are finite and refer to existing rows only.
    pub open spec fn relations_valid(self) -> bool {
        &&& self.prompt_tags.finite()
        &&& self.prompt_stars.finite()
        &&& self.prompt_stars.len() <= i64::MAX
        &&& forall|p: i64, t: i64| #[trigger]
            self.prompt_tags.contains((p, t)) ==> self.has_prompt(p) && self.has_tag(t)
        &&& forall|p: i64, u: i64| #[trigger]
            self.prompt_stars.contains((p, u)) ==> self.has_prompt(p) && self.has_user(u)
    }

    /// The invariants of the data model.
    pub open spec fn valid(self) -> bool {
        &&& self.users_valid()
        &&& self.prompts_valid()
        &&& self.tags_valid()
        &&& self.relations_valid()
    }

    /// The stars of one prompt: the rows of `prompt_stars` with that prompt.
    pub open spec fn stars_of(self, prompt_id: i64) -> Set<(i64, i64)> {
        self.prompt_stars.filter(of_prompt(prompt_id))
    }

    /// `COUNT(DISTINCT user_id)` over the stars of one prompt.
    pub open spec fn star_count(self, prompt_id: i64) -> nat {
        self.stars_of(prompt_id).len()
    }

    /// Whether the viewer has starred the prompt; nothing for an anonymous viewer.
    pub open spec fn is_starred(self, prompt_id: i64, viewer: Option<i64>) -> Option<bool> {
        match viewer {
            Some(user_id) => Some(self.prompt_stars.contains((prompt_id, user_id))),
            None => None,
        }
    }

    /// Whether a tag is joined to the prompt through `prompt_tags`.
    pub open spec fn joined_to(self, prompt_id: i64) -> spec_fn(TagView) -> bool {
        |tag: TagView| self.prompt_tags.contains((prompt_id, tag.id))
    }

    /// The tags joined to one prompt through `prompt_tags`, in key order.
    pub open spec fn tags_of(self, prompt_id: i64) -> Seq<TagView> {
        self.tags.filter(self.joined_to(prompt_id))
    }

    /// The ids of the tags joined to one prompt.
    pub open spec fn tag_ids_of(self, prompt_id: i64) -> Set<i64> {
        Set::new(|tag_id: i64| self.prompt_tags.contains((prompt_id, tag_id)))
    }
}

impl Database {
    /// In a valid state a key names one user only.
    pub proof fn lemma_user_at(self, i: int)
        requires
            self.users_valid(),
            0 <= i < self.users.len(),
        ensures
            self.has_user(self.users[i].id),
            self.user(self.users[i].id) == self.users[i],
            self.has_username(self.users[i].username),
            self.user_named(self.users[i].username) == self.users[i],
    {
        let id = self.users[i].id;
        let k = choose|k: int| 0 <= k < self.users.len() && (#[trigger] self.users[k]).id == id;
        assert(k == i) by {
            if k < i {
                assert(self.users[k].id < self.users[i].id);
            } else if i < k {
                assert(self.users[i].id < self.users[k].id);
            }
        }
        let name = self.users[i].username;
        let n = choose|n: int|
            0 <= n < self.users.len() && (#[trigger] self.users[n]).username == name;
        assert(n == i) by {
            if n < i {
                assert(self.users[n].username != self.users[i].username);
            } else if i < n {
                assert(self.users[i].username != self.users[n].username);
            }
        }
    }

    /// In a valid state a key names one prompt only.
    pub proof fn lemma_prompt_at(self, i: int)
        requires
            self.prompts_valid(),
            0 <= i < self.prompts.len(),
        ensures
            self.has_prompt(self.prompts[i].id),
            self.prompt(self.prompts[i].id) == self.prompts[i],
    {
        let id = self.prompts[i].id;
        let k = choose|k: int|
            0 <= k < self.prompts.len() && (#[trigger] self.prompts[k]).id == id;
        assert(k == i) by {
            if k < i {
                assert(self.prompts[k].id < self.prompts[i].id);
            } else if i < k {
                assert(self.prompts[i].id < self.prompts[k].id);
            }
        }
    }
}

/// Why the store refused a write.
#[derive(Clone, Copy, Debug, PartialEq, Eq, Structural)]
pub enum StorageDetail {
    /// A column holds a value that its table does not admit.
    CheckViolation,
    /// A row with the same unique key exists already.
    UniqueViolation,
    /// A referenced row does not exist.
    ForeignKeyViolation,
    /// The table cannot take another row.
    KeySpaceExhausted,
}

impl Database {
    /// The key that the next user gets.
    pub open spec fn next_user_id(self) -> int {
        if self.users.len() == 0 {
            1
        } else {
            self.users.last().id + 1
        }
    }

    /// The key that the next prompt gets.
    pub open spec fn next_prompt_id(self) -> int {
        if self.prompts.len() == 0 {
            1
        } else {
            self.prompts.last().id + 1
        }
    }

    /// The key that the next tag gets.
    pub open spec fn next_tag_id(self) -> int {
        if self.tags.len() == 0 {
            1
        } else {
            self.tags.last().id + 1
        }
    }

    /// The state with one more user, appended.
    pub open spec fn with_user(self, user: UserView) -> Database {
        Database { users: self.users.push(user), ..self }
    }

    /// The state with one more prompt, appended.
    pub open spec fn with_prompt(self, prompt: PromptView) -> Database {
        Database { prompts: self.prompts.push(prompt), ..self }
    }

    /// The state with one more tag, appended.
    pub open spec fn with_tag(self, tag: TagView) -> Database {
        Database { tags: self.tags.push(tag), ..self }
    }

    /// The state in which the user has starred the prompt.
    pub open spec fn with_star(self, prompt_id: i64, user_id: i64) -> Database {
        Database { prompt_stars: self.prompt_stars.insert((prompt_id, user_id)), ..self }
    }

    /// The state in which the user has not starred the prompt.
    pub open spec fn without_star(self, prompt_id: i64, user_id: i64) -> Database {
        Database { prompt_stars: self.prompt_stars.remove((prompt_id, user_id)), ..self }
    }

    /// The state in which the prompt carries the tag.
    pub open spec fn with_tag_link(self, prompt_id: i64, tag_id: i64) -> Database {
        Database { prompt_tags: self.prompt_tags.insert((prompt_id, tag_id)), ..self }
    }

    /// The state without any tag link of the given prompt.
    pub open spec fn without_tag_links(self, prompt_id: i64) -> Database {
        Database { prompt_tags: self.prompt_tags.filter(of_other_prompt(prompt_id)), ..self }
    }

    /// Why a user with this name and password hash cannot be inserted, if
    /// it cannot.
    pub open spec fn user_fault(self, username: Seq<char>, password: Seq<char>) -> Option<
        StorageDetail,
    > {
        if blank(username) || !is_argon2_phc(password) {
            Some(StorageDetail::CheckViolation)
        } else if self.has_username(username) {
            Some(StorageDetail::UniqueViolation)
        } else if self.next_user_id() > i64::MAX {
            Some(StorageDetail::KeySpaceExhausted)
        } else {
            None
        }
    }

    /// Why a prompt with these columns cannot be inserted, if it cannot.
    pub open spec fn prompt_fault(
        self,
        user_id: Option<i64>,
        parent_prompt_id: Option<i64>,
        content: Seq<char>,
    ) -> Option<StorageDetail> {
        if content.len() == 0 {
            Some(StorageDetail::CheckViolation)
        } else if user_id is Some && !self.has_user(user_id->0) {
            Some(StorageDetail::ForeignKeyViolation)
        } else if parent_prompt_id is Some && !self.has_prompt(parent_prompt_id->0) {
            Some(StorageDetail::ForeignKeyViolation)
        } else if self.next_prompt_id() > i64::MAX {
            Some(StorageDetail::KeySpaceExhausted)
        } else {
            None
        }
    }

    /// Why a tag with these columns cannot be inserted, if it cannot.
    pub open spec fn tag_fault(
        self,
        name: Seq<char>,
        kind: Seq<char>,
        bg_color: Seq<char>,
        text_color: Seq<char>,
    ) -> Option<StorageDetail> {
        if !is_color_code(bg_color) || !is_color_code(text_color) {
            Some(StorageDetail::CheckViolation)
        } else if self.has_tag_named(name, kind) {
            Some(StorageDetail::UniqueViolation)
        } else if self.next_tag_id() > i64::MAX {
            Some(StorageDetail::KeySpaceExhausted)
        } else {
            None
        }
    }

    /// Why a star cannot be inserted, if it cannot. A star that exists
    /// already is no fault: inserting it again changes nothing.
    pub open spec fn star_fault(self, prompt_id: i64, user_id: i64) -> Option<StorageDetail> {
        if self.prompt_stars.contains((prompt_id, user_id)) {
            None
        } else if !self.has_prompt(prompt_id) || !self.has_user(user_id) {
            Some(StorageDetail::ForeignKeyViolation)
        } else if self.prompt_stars.len() >= i64::MAX {
            Some(StorageDetail::KeySpaceExhausted)
        } else {
            None
        }
    }

    /// Why a tag link cannot be inserted, if it cannot. A link that exists
    /// already is no fault: inserting it again changes nothing.
    pub open spec fn tag_link_fault(self, prompt_id: i64, tag_id: i64) -> Option<StorageDetail> {
        if self.prompt_tags.contains((prompt_id, tag_id)) {
            None
        } else if !self.has_prompt(prompt_id) || !self.has_tag(tag_id) {
            Some(StorageDetail::ForeignKeyViolation)
        } else {
            None
        }
    }

    /// States with the same keyed tables know the same keys.
    pub proof fn lemma_same_rows(self, next: Database)
        requires
            next.users == self.users,
            next.prompts == self.prompts,
            next.tags == self.tags,
        ensures
            forall|id: i64| self.has_user(id) == next.has_user(id),
            forall|id: i64| self.has_prompt(id) == next.has_prompt(id),
            forall|id: i64| self.has_tag(id) == next.has_tag(id),
    {
    }

    /// A state that differs from a valid one in its relations only, and whose
    /// relations refer to existing rows, is valid.
    pub proof fn lemma_relinked(self, next: Database)
        requires
            self.valid(),
            next.users == self.users,
            next.prompts == self.prompts,
            next.tags == self.tags,
            next.prompt_tags.finite(),
            next.prompt_stars.finite(),
            next.prompt_stars.len() <= i64::MAX,
            forall|p: i64, t: i64| #[trigger]
                next.prompt_tags.contains((p, t)) ==> self.prompt_tags.contains((p, t)) || (
                self.has_prompt(p) && self.has_tag(t)),
            forall|p: i64, u: i64| #[trigger]
                next.prompt_stars.contains((p, u)) ==> self.prompt_stars.contains((p, u)) || (
                self.has_prompt(p) && self.has_user(u)),
        ensures
            next.valid(),
    {
        self.lemma_same_rows(next);
        assert forall|p: i64, t: i64| #[trigger]
            next.prompt_tags.contains((p, t)) implies next.has_prompt(p) && next.has_tag(t) by {
            assert(self.has_prompt(p) && self.has_tag(t));
        }
        assert forall|p: i64, u: i64| #[trigger]
            next.prompt_stars.contains((p, u)) implies next.has_prompt(p) && next.has_user(u) by {
            assert(self.has_prompt(p) && self.has_user(u));
        }
        assert forall|i: int|
            0 <= i < next.prompts.len() && (#[trigger] next.prompts[i]).user_id is Some implies next.has_user(
            next.prompts[i].user_id->0,
        ) by {
            assert(self.has_user(self.prompts[i].user_id->0));
        }
        assert forall|i: int|
            0 <= i < next.prompts.len() && (
            #[trigger] next.prompts[i]).parent_prompt_id is Some implies next.has_prompt(
            next.prompts[i].parent_prompt_id->0,
        ) by {
            assert(self.has_prompt(self.prompts[i].parent_prompt_id->0));
        }
    }

    /// Rows appended to the three keyed tables keep every reference intact.
    pub proof fn lemma_grown(self, grown: Database)
        requires
            self.relations_valid(),
            self.users.is_prefix_of(grown.users),
            self.prompts.is_prefix_of(grown.prompts),
            self.tags.is_prefix_of(grown.tags),
            self.prompt_tags == grown.prompt_tags,
            self.prompt_stars == grown.prompt_stars,
        ensures
            grown.relations_valid(),
            forall|id: i64| self.has_user(id) ==> grown.has_user(id),
            forall|id: i64| self.has_prompt(id) ==> grown.has_prompt(id),
            forall|id: i64| self.has_tag(id) ==> grown.has_tag(id),
    {
        assert forall|id: i64| self.has_user(id) implies grown.has_user(id) by {
            let i = choose|i: int| 0 <= i < self.users.len() && (#[trigger] self.users[i]).id == id;
            assert(grown.users[i].id == id);
        }
        assert forall|id: i64| self.has_prompt(id) implies grown.has_prompt(id) by {
            let i = choose|i: int|
                0 <= i < self.prompts.len() && (#[trigger] self.prompts[i]).id == id;
            assert(grown.prompts[i].id == id);
        }
        assert forall|id: i64| self.has_tag(id) implies grown.has_tag(id) by {
            let i = choose|i: int| 0 <= i < self.tags.len() && (#[trigger] self.tags[i]).id == id;
            assert(grown.tags[i].id == id);
        }
    }
}

/// A stored prompt.
#[derive(Debug)]
pub struct PromptRecord {
    pub id: i64,
    pub user_id: Option<i64>,
    pub parent_prompt_id: Option<i64>,
    pub title: String,
    pub description: String,
    pub content: String,
    pub created_at: i64,
}

impl View for PromptRecord {
    type V = PromptView;

    open spec fn view(&self) -> PromptView {
        PromptView {
            id: self.id,
            user_id: self.user_id,
            parent_prompt_id: self.parent_prompt_id,
            title: self.title@,
            description: self.description@,
            content: self.content@,
            created_at: self.created_at,
        }
    }
}

impl Clone for PromptRecord {
    fn clone(&self) -> (copy: Self)
        ensures
            copy == *self,
    {
        PromptRecord {
            id: self.id,
            user_id: self.user_id,
            parent_prompt_id: self.parent_prompt_id,
            title: self.title.clone(),
            description: self.description.clone(),
            content: self.content.clone(),
            created_at: self.created_at,
        }
    }
}

/// The views of a list of stored prompts, in order.
pub open spec fn prompt_views(prompts: Seq<PromptRecord>) -> Seq<PromptView> {
    prompts.map_values(|prompt: PromptRecord| prompt@)
}

/// The state that the given rows stand for.
pub open spec fn snapshot(
    users: Seq<User>,
    prompts: Seq<PromptRecord>,
    tags: Seq<Tag>,
    prompt_tags: Seq<(i64, i64)>,
    prompt_stars: Seq<(i64, i64)>,
) -> Database {
    Database {
        users: user_views(users),
        prompts: prompt_views(prompts),
        tags: tag_views(tags),
        prompt_tags: prompt_tags.to_set(),
        prompt_stars: prompt_stars.to_set(),
    }
}

/// Seeds the default tags: each is inserted unless a tag has its name
/// already, of whatever kind. Tags that exist are left as they are.
///
/// The answer is `Ok` when every default name is the name of a tag
/// afterwards, and `KeySpaceExhausted` when one is missing because the
/// store takes no more tags.
pub fn seed(store: &mut Store) -> (result: Result<(), StorageDetail>)
    requires
        old(store).wf(),
    ensures
        final(store).wf(),
        final(store)@ == old(store)@.seeded(),
        result is Ok == final(store)@.has_default_tags(),
        result is Err ==> result == Err::<(), StorageDetail>(StorageDetail::KeySpaceExhausted),
{
    let ghost before = store@;
    for i in 0..DEFAULT_TAG_COUNT
        invariant
            store.wf(),
            store@ == before.seeded_upto(i as nat),
    {
        let tag = default_tag_at(i);
        if !store.has_tag_name(tag.0) {
            let _ = store.insert_tag(
                tag.0.to_owned(),
                tag.1.to_owned(),
                tag.2.to_owned(),
                tag.3.to_owned(),
            );
        }
    }
    let mut complete = true;
    for i in 0..DEFAULT_TAG_COUNT
        invariant
            store.wf(),
            store@ == before.seeded(),
            complete == forall|j: int|
                0 <= j < i ==> store@.has_tag_name((#[trigger] default_tag(j)).0),
    {
        let tag = default_tag_at(i);
        if !store.has_tag_name(tag.0) {
            complete = false;
        }
    }
    if complete {
        Ok(())
    } else {
        Err(StorageDetail::KeySpaceExhausted)
    }
}

} // verus!
