//! The store: the rows of the five tables, held in memory, with the
//! reads and writes that the repositories are built from. Every write
//! checks the constraints of its table and refuses what would break them.

use vstd::prelude::*;
use crate::db::{
    is_argon2_phc, is_color_code, is_hex_digit, of_other_prompt, of_prompt, prompt_views, snapshot, Database,
    PromptRecord, PromptView, StorageDetail, TagView, UserView,
};
use crate::prompts::{tag_views, Tag};
use crate::seqs::{
    lemma_filter_no_duplicates, lemma_filter_to_set, lemma_push_no_duplicates, lemma_remove_to_set,
};
use crate::text::{blank, is_blank, same_text, starts_with};
use crate::users::{user_views, User};

verus! {

/// The tables, held in memory.
pub struct Store {
    users: Vec<User>,
    prompts: Vec<PromptRecord>,
    tags: Vec<Tag>,
    prompt_tags: Vec<(i64, i64)>,
    prompt_stars: Vec<(i64, i64)>,
}

impl View for Store {
    type V = Database;

    closed spec fn view(&self) -> Database {
        Database {
            users: user_views(self.users@),
            prompts: prompt_views(self.prompts@),
            tags: tag_views(self.tags@),
            prompt_tags: self.prompt_tags@.to_set(),
            prompt_stars: self.prompt_stars@.to_set(),
        }
    }
}

impl Store {
    /// Well-formedness: no pair is stored twice, and the data model's
    /// invariants hold.
    pub closed spec fn wf(&self) -> bool {
        &&& self.prompt_tags@.no_duplicates()
        &&& self.prompt_stars@.no_duplicates()
        &&& self@.valid()
    }

    /// A well-formed store satisfies the invariants of the data model.
    pub proof fn lemma_wf_valid(&self)
        requires
            self.wf(),
        ensures
            self@.valid(),
    {
    }

    /// An empty store.
    pub fn new() -> (store: Store)
        ensures
            store.wf(),
            store@ == Database::empty(),
    {
        let store = Store {
            users: Vec::new(),
            prompts: Vec::new(),
            tags: Vec::new(),
            prompt_tags: Vec::new(),
            prompt_stars: Vec::new(),
        };
        proof {
            assert(store@.users =~= Seq::empty());
            assert(store@.prompts =~= Seq::empty());
            assert(store@.tags =~= Seq::empty());
            assert(store@.prompt_tags =~= Set::empty());
            assert(store@.prompt_stars =~= Set::empty());
        }
        store
    }

    /// The rows of `users`, in key order.
    pub fn users(&self) -> (rows: &Vec<User>)
        ensures
            user_views(rows@) == self@.users,
    {
        &self.users
    }

    /// The rows of `prompts`, in key order.
    pub fn prompts(&self) -> (rows: &Vec<PromptRecord>)
        ensures
            prompt_views(rows@) == self@.prompts,
    {
        &self.prompts
    }

    /// The rows of `tags`, in key order.
    pub fn tags(&self) -> (rows: &Vec<Tag>)
        ensures
            tag_views(rows@) == self@.tags,
    {
        &self.tags
    }

    /// The rows of `prompt_tags`: every pair of the relation, each once.
    pub fn tag_links(&self) -> (rows: &Vec<(i64, i64)>)
        requires
            self.wf(),
        ensures
            rows@.no_duplicates(),
            rows@.to_set() == self@.prompt_tags,
    {
        &self.prompt_tags
    }

    /// The rows of `prompt_stars`: every pair of the relation, each once.
    pub fn stars(&self) -> (rows: &Vec<(i64, i64)>)
        requires
            self.wf(),
        ensures
            rows@.no_duplicates(),
            rows@.to_set() == self@.prompt_stars,
    {
        &self.prompt_stars
    }
}

impl Store {
    /// Looks a user up by key.
    pub fn find_user(&self, id: i64) -> (found: Option<&User>)
        requires
            self.wf(),
        ensures
            found is Some == self@.has_user(id),
            found is Some ==> found.unwrap()@ == self@.user(id),
    {
        for i in 0..self.users.len()
            invariant
                self.wf(),
                forall|j: int| 0 <= j < i ==> (#[trigger] self@.users[j]).id != id,
        {
            if self.users[i].id == id {
                proof {
                    self@.lemma_user_at(i as int);
                }
                return Some(&self.users[i]);
            }
        }
        None
    }

    /// Looks a user up by name.
    pub fn find_user_named(&self, username: &str) -> (found: Option<&User>)
        requires
            self.wf(),
        ensures
            found is Some == self@.has_username(username@),
            found is Some ==> found.unwrap()@ == self@.user_named(username@),
    {
        for i in 0..self.users.len()
            invariant
                self.wf(),
                forall|j: int| 0 <= j < i ==> (#[trigger] self@.users[j]).username != username@,
        {
            if same_text(self.users[i].username.as_str(), username) {
                proof {
                    self@.lemma_user_at(i as int);
                }
                return Some(&self.users[i]);
            }
        }
        None
    }

    /// Looks a prompt up by key.
    pub fn find_prompt(&self, id: i64) -> (found: Option<&PromptRecord>)
        requires
            self.wf(),
        ensures
            found is Some == self@.has_prompt(id),
            found is Some ==> found.unwrap()@ == self@.prompt(id),
    {
        for i in 0..self.prompts.len()
            invariant
                self.wf(),
                forall|j: int| 0 <= j < i ==> (#[trigger] self@.prompts[j]).id != id,
        {
            if self.prompts[i].id == id {
                proof {
                    self@.lemma_prompt_at(i as int);
                }
                return Some(&self.prompts[i]);
            }
        }
        None
    }

    /// Whether a tag with this key exists.
    pub fn has_tag(&self, id: i64) -> (found: bool)
        ensures
            found == self@.has_tag(id),
    {
        for i in 0..self.tags.len()
            invariant
                forall|j: int| 0 <= j < i ==> (#[trigger] self@.tags[j]).id != id,
        {
            if self.tags[i].id == id {
                assert(self@.tags[i as int].id == id);
                return true;
            }
        }
        false
    }

    /// Whether a tag with this name exists, of whatever kind.
    pub fn has_tag_name(&self, name: &str) -> (found: bool)
        ensures
            found == self@.has_tag_name(name@),
    {
        for i in 0..self.tags.len()
            invariant
                forall|j: int| 0 <= j < i ==> (#[trigger] self@.tags[j]).name != name@,
        {
            if same_text(self.tags[i].name.as_str(), name) {
                assert(self@.tags[i as int].name == name@);
                return true;
            }
        }
        false
    }

    /// Whether a tag with this name and kind exists.
    pub fn has_tag_named(&self, name: &str, kind: &str) -> (found: bool)
        ensures
            found == self@.has_tag_named(name@, kind@),
    {
        for i in 0..self.tags.len()
            invariant
                forall|j: int|
                    0 <= j < i ==> !((#[trigger] self@.tags[j]).name == name@
                        && self@.tags[j].kind == kind@),
        {
            if same_text(self.tags[i].name.as_str(), name) && same_text(
                self.tags[i].kind.as_str(),
                kind,
            ) {
                assert(self@.tags[i as int].name == name@);
                return true;
            }
        }
        false
    }

    /// Whether the user has starred the prompt.
    pub fn has_star(&self, prompt_id: i64, user_id: i64) -> (found: bool)
        ensures
            found == self@.prompt_stars.contains((prompt_id, user_id)),
    {
        self.star_position(prompt_id, user_id).is_some()
    }

    /// Whether the prompt carries the tag.
    pub fn has_tag_link(&self, prompt_id: i64, tag_id: i64) -> (found: bool)
        ensures
            found == self@.prompt_tags.contains((prompt_id, tag_id)),
    {
        for i in 0..self.prompt_tags.len()
            invariant
                forall|j: int| 0 <= j < i ==> self.prompt_tags@[j] != (prompt_id, tag_id),
        {
            if self.prompt_tags[i].0 == prompt_id && self.prompt_tags[i].1 == tag_id {
                assert(self.prompt_tags@[i as int] == (prompt_id, tag_id));
                return true;
            }
        }
        false
    }

    /// Where the star of this user on this prompt is stored, if anywhere.
    fn star_position(&self, prompt_id: i64, user_id: i64) -> (found: Option<usize>)
        ensures
            found is Some == self@.prompt_stars.contains((prompt_id, user_id)),
            found is Some ==> found.unwrap() < self.prompt_stars@.len()
                && self.prompt_stars@[found.unwrap() as int] == (prompt_id, user_id),
    {
        for i in 0..self.prompt_stars.len()
            invariant
                forall|j: int| 0 <= j < i ==> self.prompt_stars@[j] != (prompt_id, user_id),
        {
            if self.prompt_stars[i].0 == prompt_id && self.prompt_stars[i].1 == user_id {
                assert(self.prompt_stars@[i as int] == (prompt_id, user_id));
                return Some(i);
            }
        }
        None
    }

    /// How many users have starred the prompt.
    pub fn count_stars(&self, prompt_id: i64) -> (count: i64)
        requires
            self.wf(),
        ensures
            count == self@.star_count(prompt_id),
    {
        let ghost mine = of_prompt(prompt_id);
        let ghost rows = self.prompt_stars@;
        proof {
            rows.unique_seq_to_set();
            assert(rows.take(0).filter(mine).len() == 0) by {
                rows.take(0).lemma_filter_len(mine);
            }
        }
        let mut count: i64 = 0;
        for i in 0..self.prompt_stars.len()
            invariant
                rows == self.prompt_stars@,
                rows.len() <= i64::MAX,
                mine == of_prompt(prompt_id),
                count == rows.take(i as int).filter(mine).len(),
                count <= i,
        {
            proof {
                assert(rows.take(i + 1) =~= rows.take(i as int).push(rows[i as int]));
                rows.take(i as int).lemma_filter_len_push(mine, rows[i as int]);
            }
            if self.prompt_stars[i].0 == prompt_id {
                count = count + 1;
            }
        }
        proof {
            assert(rows.take(rows.len() as int) =~= rows);
            lemma_filter_to_set(rows, mine);
        }
        count
    }
}

impl Store {
    /// Inserts a user under the next key.
    ///
    /// The store refuses a blank name, a password column that is not marked
    /// as an Argon2 hash, a name that is taken, and a key beyond the last
    /// one; a refusal changes nothing.
    pub fn insert_user(&mut self, username: String, email: String, password: String) -> (result:
        Result<i64, StorageDetail>)
        requires
            old(self).wf(),
        ensures
            final(self).wf(),
            match result {
                Ok(id) => {
                    &&& old(self)@.user_fault(username@, password@) is None
                    &&& id == old(self)@.next_user_id()
                    &&& final(self)@ == old(self)@.with_user(
                        UserView { id, username: username@, email: email@, password: password@ },
                    )
                },
                Err(detail) => {
                    &&& old(self)@.user_fault(username@, password@) == Some(detail)
                    &&& final(self)@ == old(self)@
                },
            },
    {
        if is_blank(username.as_str()) || !starts_with(password.as_str(), "$argon2") {
            return Err(StorageDetail::CheckViolation);
        }
        if self.find_user_named(username.as_str()).is_some() {
            return Err(StorageDetail::UniqueViolation);
        }
        let count = self.users.len();
        let id: i64 = if count == 0 {
            1
        } else {
            let last = self.users[count - 1].id;
            if last == i64::MAX {
                return Err(StorageDetail::KeySpaceExhausted);
            }
            last + 1
        };
        let ghost before = self@;
        let user = User { id, username, email, password };
        self.users.push(user);
        proof {
            assert(self@.users =~= before.users.push(user@));
            assert(self@ == before.with_user(user@));
            before.lemma_grown(self@);
            assert(self@.users_valid()) by {
                assert forall|i: int, j: int| 0 <= i < j < self@.users.len() implies (
                #[trigger] self@.users[i]).id < (#[trigger] self@.users[j]).id by {
                    if j == count && count > 0 {
                        if i < count - 1 {
                            assert(before.users[i].id < before.users[count - 1].id);
                        }
                    }
                }
            }
            assert(self@.prompts_valid());
        }
        Ok(id)
    }
}

/// Whether `text` is a colour code.
pub fn check_color_code(text: &str) -> (ok: bool)
    ensures
        ok == is_color_code(text@),
{
    let mut seen: usize = 0;
    let mut ok = true;
    for c in it: text.chars()
        invariant
            it.seq() == text@,
            seen == if it.index() <= 7 { it.index() } else { 7 },
            ok == forall|i: int| 0 <= i < it.index() ==> is_hex_digit(#[trigger] text@[i]),
    {
        if seen < 7 {
            seen = seen + 1;
        }
        let hex = ('0' <= c && c <= '9') || ('a' <= c && c <= 'f') || ('A' <= c && c <= 'F');
        ok = ok && hex;
    }
    ok && seen == 6
}

impl Store {
    /// Inserts a prompt under the next key.
    ///
    /// The store refuses empty content, an author or a parent that does not
    /// exist, and a key beyond the last one; a refusal changes nothing.
    pub fn insert_prompt(
        &mut self,
        user_id: Option<i64>,
        parent_prompt_id: Option<i64>,
        title: String,
        description: String,
        content: String,
        created_at: i64,
    ) -> (result: Result<i64, StorageDetail>)
        requires
            old(self).wf(),
        ensures
            final(self).wf(),
            match result {
                Ok(id) => {
                    &&& old(self)@.prompt_fault(user_id, parent_prompt_id, content@) is None
                    &&& id == old(self)@.next_prompt_id()
                    &&& final(self)@ == old(self)@.with_prompt(
                        PromptView {
                            id,
                            user_id,
                            parent_prompt_id,
                            title: title@,
                            description: description@,
                            content: content@,
                            created_at,
                        },
                    )
                },
                Err(detail) => {
                    &&& old(self)@.prompt_fault(user_id, parent_prompt_id, content@) == Some(detail)
                    &&& final(self)@ == old(self)@
                },
            },
    {
        if content.as_str().is_empty() {
            return Err(StorageDetail::CheckViolation);
        }
        if let Some(author) = user_id {
            if self.find_user(author).is_none() {
                return Err(StorageDetail::ForeignKeyViolation);
            }
        }
        if let Some(parent) = parent_prompt_id {
            if self.find_prompt(parent).is_none() {
                return Err(StorageDetail::ForeignKeyViolation);
            }
        }
        let count = self.prompts.len();
        let id: i64 = if count == 0 {
            1
        } else {
            let last = self.prompts[count - 1].id;
            if last == i64::MAX {
                return Err(StorageDetail::KeySpaceExhausted);
            }
            last + 1
        };
        let ghost before = self@;
        let prompt = PromptRecord {
            id,
            user_id,
            parent_prompt_id,
            title,
            description,
            content,
            created_at,
        };
        self.prompts.push(prompt);
        proof {
            assert(self@.prompts =~= before.prompts.push(prompt@));
            assert(self@ == before.with_prompt(prompt@));
            before.lemma_grown(self@);
            assert(self@.prompts_valid()) by {
                assert forall|i: int, j: int| 0 <= i < j < self@.prompts.len() implies (
                #[trigger] self@.prompts[i]).id < (#[trigger] self@.prompts[j]).id by {
                    if j == count && count > 0 {
                        if i < count - 1 {
                            assert(before.prompts[i].id < before.prompts[count - 1].id);
                        }
                    }
                }
                assert forall|i: int|
                    0 <= i < self@.prompts.len() && (
                    #[trigger] self@.prompts[i]).parent_prompt_id is Some implies self@.has_prompt(
                    self@.prompts[i].parent_prompt_id->0,
                ) by {
                    if i < count {
                        assert(before.has_prompt(before.prompts[i].parent_prompt_id->0));
                    }
                }
                assert forall|i: int|
                    0 <= i < self@.prompts.len() && (
                    #[trigger] self@.prompts[i]).user_id is Some implies self@.has_user(
                    self@.prompts[i].user_id->0,
                ) by {
                    if i < count {
                        assert(before.has_user(before.prompts[i].user_id->0));
                    }
                }
            }
        }
        Ok(id)
    }

    /// Inserts a tag under the next key.
    ///
    /// The store refuses a colour that is no colour code, a name and kind
    /// that are taken, and a key beyond the last one; a refusal changes
    /// nothing.
    pub fn insert_tag(
        &mut self,
        name: String,
        kind: String,
        bg_color: String,
        text_color: String,
    ) -> (result: Result<i64, StorageDetail>)
        requires
            old(self).wf(),
        ensures
            final(self).wf(),
            match result {
                Ok(id) => {
                    &&& old(self)@.tag_fault(name@, kind@, bg_color@, text_color@) is None
                    &&& id == old(self)@.next_tag_id()
                    &&& final(self)@ == old(self)@.with_tag(
                        TagView {
                            id,
                            name: name@,
                            bg_color: bg_color@,
                            text_color: text_color@,
                            kind: kind@,
                        },
                    )
                },
                Err(detail) => {
                    &&& old(self)@.tag_fault(name@, kind@, bg_color@, text_color@) == Some(detail)
                    &&& final(self)@ == old(self)@
                },
            },
    {
        if !check_color_code(bg_color.as_str()) || !check_color_code(text_color.as_str()) {
            return Err(StorageDetail::CheckViolation);
        }
        if self.has_tag_named(name.as_str(), kind.as_str()) {
            return Err(StorageDetail::UniqueViolation);
        }
        let count = self.tags.len();
        let id: i64 = if count == 0 {
            1
        } else {
            let last = self.tags[count - 1].id;
            if last == i64::MAX {
                return Err(StorageDetail::KeySpaceExhausted);
            }
            last + 1
        };
        let ghost before = self@;
        let tag = Tag { id, name, bg_color, text_color, kind };
        self.tags.push(tag);
        proof {
            assert(self@.tags =~= before.tags.push(tag@));
            assert(self@ == before.with_tag(tag@));
            before.lemma_grown(self@);
            assert(self@.tags_valid()) by {
                assert forall|i: int, j: int| 0 <= i < j < self@.tags.len() implies (
                #[trigger] self@.tags[i]).id < (#[trigger] self@.tags[j]).id by {
                    if j == count && count > 0 {
                        if i < count - 1 {
                            assert(before.tags[i].id < before.tags[count - 1].id);
                        }
                    }
                }
            }
        }
        Ok(id)
    }

    /// Inserts a star unless it exists. Tells whether a row was added.
    ///
    /// The store refuses a star whose prompt or user does not exist, and one
    /// more star than it can count; a refusal changes nothing.
    pub fn insert_star(&mut self, prompt_id: i64, user_id: i64) -> (result: Result<
        bool,
        StorageDetail,
    >)
        requires
            old(self).wf(),
        ensures
            final(self).wf(),
            match result {
                Ok(added) => {
                    &&& old(self)@.star_fault(prompt_id, user_id) is None
                    &&& added == !old(self)@.prompt_stars.contains((prompt_id, user_id))
                    &&& final(self)@ == old(self)@.with_star(prompt_id, user_id)
                },
                Err(detail) => {
                    &&& old(self)@.star_fault(prompt_id, user_id) == Some(detail)
                    &&& final(self)@ == old(self)@
                },
            },
    {
        let ghost before = self@;
        if self.has_star(prompt_id, user_id) {
            assert(before.with_star(prompt_id, user_id).prompt_stars =~= before.prompt_stars);
            return Ok(false);
        }
        if self.find_prompt(prompt_id).is_none() || self.find_user(user_id).is_none() {
            return Err(StorageDetail::ForeignKeyViolation);
        }
        proof {
            self.prompt_stars@.unique_seq_to_set();
        }
        if self.prompt_stars.len() as u64 >= 0x7fff_ffff_ffff_ffffu64 {
            return Err(StorageDetail::KeySpaceExhausted);
        }
        let ghost rows = self.prompt_stars@;
        self.prompt_stars.push((prompt_id, user_id));
        proof {
            lemma_push_no_duplicates(rows, (prompt_id, user_id));
            self.prompt_stars@.unique_seq_to_set();
            assert(self@ == before.with_star(prompt_id, user_id));
            before.lemma_relinked(self@);
        }
        Ok(true)
    }

    /// Deletes a star if it exists. Tells whether a row was removed.
    pub fn delete_star(&mut self, prompt_id: i64, user_id: i64) -> (removed: bool)
        requires
            old(self).wf(),
        ensures
            final(self).wf(),
            removed == old(self)@.prompt_stars.contains((prompt_id, user_id)),
            final(self)@ == old(self)@.without_star(prompt_id, user_id),
    {
        let ghost before = self@;
        match self.star_position(prompt_id, user_id) {
            Some(i) => {
                let ghost rows = self.prompt_stars@;
                self.prompt_stars.remove(i);
                proof {
                    lemma_remove_to_set(rows, i as int);
                    rows.unique_seq_to_set();
                    self.prompt_stars@.unique_seq_to_set();
                    assert(self@ == before.without_star(prompt_id, user_id));
                    before.lemma_relinked(self@);
                }
                true
            },
            None => {
                assert(before.without_star(prompt_id, user_id).prompt_stars
                    =~= before.prompt_stars);
                false
            },
        }
    }

    /// Inserts a tag link unless it exists. Tells whether a row was added.
    ///
    /// The store refuses a link whose prompt or tag does not exist; a
    /// refusal changes nothing.
    pub fn insert_tag_link(&mut self, prompt_id: i64, tag_id: i64) -> (result: Result<
        bool,
        StorageDetail,
    >)
        requires
            old(self).wf(),
        ensures
            final(self).wf(),
            match result {
                Ok(added) => {
                    &&& old(self)@.tag_link_fault(prompt_id, tag_id) is None
                    &&& added == !old(self)@.prompt_tags.contains((prompt_id, tag_id))
                    &&& final(self)@ == old(self)@.with_tag_link(prompt_id, tag_id)
                },
                Err(detail) => {
                    &&& old(self)@.tag_link_fault(prompt_id, tag_id) == Some(detail)
                    &&& final(self)@ == old(self)@
                },
            },
    {
        let ghost before = self@;
        if self.has_tag_link(prompt_id, tag_id) {
            assert(before.with_tag_link(prompt_id, tag_id).prompt_tags =~= before.prompt_tags);
            return Ok(false);
        }
        if self.find_prompt(prompt_id).is_none() || !self.has_tag(tag_id) {
            return Err(StorageDetail::ForeignKeyViolation);
        }
        let ghost rows = self.prompt_tags@;
        self.prompt_tags.push((prompt_id, tag_id));
        proof {
            lemma_push_no_duplicates(rows, (prompt_id, tag_id));
            assert(self@ == before.with_tag_link(prompt_id, tag_id));
            before.lemma_relinked(self@);
        }
        Ok(true)
    }

    /// Deletes every tag link of one prompt.
    pub fn delete_tag_links(&mut self, prompt_id: i64)
        requires
            old(self).wf(),
        ensures
            final(self).wf(),
            final(self)@ == old(self)@.without_tag_links(prompt_id),
    {
        let ghost before = self@;
        let ghost rows = self.prompt_tags@;
        let ghost others = of_other_prompt(prompt_id);
        let mut kept: Vec<(i64, i64)> = Vec::new();
        proof {
            assert(rows.take(0).filter(others) =~= Seq::empty()) by {
                rows.take(0).lemma_filter_len(others);
            }
        }
        for i in 0..self.prompt_tags.len()
            invariant
                rows == self.prompt_tags@,
                others == of_other_prompt(prompt_id),
                kept@ == rows.take(i as int).filter(others),
        {
            proof {
                assert(rows.take(i + 1) =~= rows.take(i as int).push(rows[i as int]));
                rows.take(i as int).lemma_filter_push(rows[i as int], others);
            }
            if self.prompt_tags[i].0 != prompt_id {
                kept.push(self.prompt_tags[i]);
            }
        }
        self.prompt_tags = kept;
        proof {
            assert(rows.take(rows.len() as int) =~= rows);
            lemma_filter_to_set(rows, others);
            lemma_filter_no_duplicates(rows, others);
            assert(self@ == before.without_tag_links(prompt_id));
            before.lemma_relinked(self@);
        }
    }
}

impl Store {
    /// Whether a user with this key exists.
    fn knows_user(&self, id: i64) -> (found: bool)
        ensures
            found == self@.has_user(id),
    {
        for i in 0..self.users.len()
            invariant
                forall|j: int| 0 <= j < i ==> (#[trigger] self@.users[j]).id != id,
        {
            if self.users[i].id == id {
                assert(self@.users[i as int].id == id);
                return true;
            }
        }
        false
    }

    /// Whether a prompt with this key exists.
    fn knows_prompt(&self, id: i64) -> (found: bool)
        ensures
            found == self@.has_prompt(id),
    {
        for i in 0..self.prompts.len()
            invariant
                forall|j: int| 0 <= j < i ==> (#[trigger] self@.prompts[j]).id != id,
        {
            if self.prompts[i].id == id {
                assert(self@.prompts[i as int].id == id);
                return true;
            }
        }
        false
    }

    /// Checks the invariants of `users`.
    fn users_ok(&self) -> (ok: bool)
        ensures
            ok == self@.users_valid(),
    {
        let ghost rows = self@.users;
        for i in 0..self.users.len()
            invariant
                rows == self@.users,
                forall|a: int, b: int|
                    0 <= a < b < i ==> (#[trigger] rows[a]).id < (#[trigger] rows[b]).id,
                forall|a: int, b: int|
                    0 <= a < b < i ==> (#[trigger] rows[a]).username != (
                    #[trigger] rows[b]).username,
                forall|a: int| 0 <= a < i ==> !blank((#[trigger] rows[a]).username),
                forall|a: int| 0 <= a < i ==> is_argon2_phc((#[trigger] rows[a]).password),
        {
            if is_blank(self.users[i].username.as_str()) {
                assert(blank(rows[i as int].username));
                return false;
            }
            if !starts_with(self.users[i].password.as_str(), "$argon2") {
                assert(!is_argon2_phc(rows[i as int].password));
                return false;
            }
            if i > 0 && self.users[i - 1].id >= self.users[i].id {
                assert(rows[i - 1].id >= rows[i as int].id);
                return false;
            }
            for j in 0..i
                invariant
                    rows == self@.users,
                    i < self.users.len(),
                    forall|a: int| 0 <= a < j ==> (#[trigger] rows[a]).username != rows[i as int].username,
            {
                if same_text(self.users[j].username.as_str(), self.users[i].username.as_str()) {
                    assert(rows[j as int].username == rows[i as int].username);
                    return false;
                }
            }
            proof {
                assert forall|a: int, b: int| 0 <= a < b < i + 1 implies (#[trigger] rows[a]).id < (
                #[trigger] rows[b]).id by {
                    if b == i && a < i - 1 {
                        assert(rows[a].id < rows[i - 1].id);
                    }
                }
            }
        }
        true
    }

    /// Checks the invariants of `prompts`.
    fn prompts_ok(&self) -> (ok: bool)
        ensures
            ok == self@.prompts_valid(),
    {
        let ghost rows = self@.prompts;
        for i in 0..self.prompts.len()
            invariant
                rows == self@.prompts,
                forall|a: int, b: int|
                    0 <= a < b < i ==> (#[trigger] rows[a]).id < (#[trigger] rows[b]).id,
                forall|a: int| 0 <= a < i ==> (#[trigger] rows[a]).content.len() > 0,
                forall|a: int|
                    0 <= a < i && (#[trigger] rows[a]).user_id is Some ==> self@.has_user(
                        rows[a].user_id->0,
                    ),
                forall|a: int|
                    0 <= a < i && (#[trigger] rows[a]).parent_prompt_id is Some
                        ==> self@.has_prompt(rows[a].parent_prompt_id->0),
        {
            if self.prompts[i].content.as_str().is_empty() {
                assert(rows[i as int].content.len() == 0);
                return false;
            }
            if i > 0 && self.prompts[i - 1].id >= self.prompts[i].id {
                assert(rows[i - 1].id >= rows[i as int].id);
                return false;
            }
            if let Some(author) = self.prompts[i].user_id {
                if !self.knows_user(author) {
                    assert(rows[i as int].user_id is Some);
                    return false;
                }
            }
            if let Some(parent) = self.prompts[i].parent_prompt_id {
                if !self.knows_prompt(parent) {
                    assert(rows[i as int].parent_prompt_id is Some);
                    return false;
                }
            }
            proof {
                assert forall|a: int, b: int| 0 <= a < b < i + 1 implies (#[trigger] rows[a]).id < (
                #[trigger] rows[b]).id by {
                    if b == i && a < i - 1 {
                        assert(rows[a].id < rows[i - 1].id);
                    }
                }
            }
        }
        true
    }

    /// Checks the invariants of `tags`.
    fn tags_ok(&self) -> (ok: bool)
        ensures
            ok == self@.tags_valid(),
    {
        let ghost rows = self@.tags;
        for i in 0..self.tags.len()
            invariant
                rows == self@.tags,
                forall|a: int, b: int|
                    0 <= a < b < i ==> (#[trigger] rows[a]).id < (#[trigger] rows[b]).id,
                forall|a: int, b: int|
                    0 <= a < b < i ==> !((#[trigger] rows[a]).name == (#[trigger] rows[b]).name
                        && rows[a].kind == rows[b].kind),
                forall|a: int|
                    0 <= a < i ==> is_color_code((#[trigger] rows[a]).bg_color) && is_color_code(
                        rows[a].text_color,
                    ),
        {
            if !check_color_code(self.tags[i].bg_color.as_str()) || !check_color_code(
                self.tags[i].text_color.as_str(),
            ) {
                assert(!(is_color_code(rows[i as int].bg_color) && is_color_code(
                    rows[i as int].text_color,
                )));
                return false;
            }
            if i > 0 && self.tags[i - 1].id >= self.tags[i].id {
                assert(rows[i - 1].id >= rows[i as int].id);
                return false;
            }
            for j in 0..i
                invariant
                    rows == self@.tags,
                    i < self.tags.len(),
                    forall|a: int|
                        0 <= a < j ==> !((#[trigger] rows[a]).name == rows[i as int].name
                            && rows[a].kind == rows[i as int].kind),
            {
                if same_text(self.tags[j].name.as_str(), self.tags[i].name.as_str()) && same_text(
                    self.tags[j].kind.as_str(),
                    self.tags[i].kind.as_str(),
                ) {
                    assert(rows[j as int].name == rows[i as int].name && rows[j as int].kind
                        == rows[i as int].kind);
                    return false;
                }
            }
            proof {
                assert forall|a: int, b: int| 0 <= a < b < i + 1 implies (#[trigger] rows[a]).id < (
                #[trigger] rows[b]).id by {
                    if b == i && a < i - 1 {
                        assert(rows[a].id < rows[i - 1].id);
                    }
                }
            }
        }
        true
    }

    /// Checks that no tag link is stored twice and that each refers to an
    /// existing prompt and tag.
    fn tag_links_ok(&self) -> (ok: bool)
        ensures
            ok == (self.prompt_tags@.no_duplicates() && forall|p: i64, t: i64| #[trigger]
                self@.prompt_tags.contains((p, t)) ==> self@.has_prompt(p) && self@.has_tag(t)),
    {
        let ghost rows = self.prompt_tags@;
        for i in 0..self.prompt_tags.len()
            invariant
                rows == self.prompt_tags@,
                forall|a: int, b: int| 0 <= a < b < i ==> rows[a] != rows[b],
                forall|a: int|
                    0 <= a < i ==> self@.has_prompt((#[trigger] rows[a]).0) && self@.has_tag(
                        rows[a].1,
                    ),
        {
            let row = self.prompt_tags[i];
            if !self.knows_prompt(row.0) || !self.has_tag(row.1) {
                assert(rows.contains(rows[i as int]));
                assert(self@.prompt_tags.contains((row.0, row.1)));
                return false;
            }
            for j in 0..i
                invariant
                    rows == self.prompt_tags@,
                    i < rows.len(),
                    row == rows[i as int],
                    forall|a: int| 0 <= a < j ==> rows[a] != rows[i as int],
            {
                if self.prompt_tags[j].0 == row.0 && self.prompt_tags[j].1 == row.1 {
                    assert(rows[j as int] == rows[i as int]);
                    return false;
                }
            }
        }
        proof {
            assert forall|p: i64, t: i64| #[trigger]
                self@.prompt_tags.contains((p, t)) implies self@.has_prompt(p) && self@.has_tag(
                t,
            ) by {
                let k = choose|k: int| 0 <= k < rows.len() && rows[k] == (p, t);
                assert(self@.has_prompt(rows[k].0));
            }
        }
        true
    }

    /// Checks that no star is stored twice, that each refers to an existing
    /// prompt and user, and that the stars can be counted.
    fn stars_ok(&self) -> (ok: bool)
        ensures
            ok == (self.prompt_stars@.no_duplicates() && self@.prompt_stars.len() <= i64::MAX
                && forall|p: i64, u: i64| #[trigger]
                self@.prompt_stars.contains((p, u)) ==> self@.has_prompt(p) && self@.has_user(u)),
    {
        let ghost rows = self.prompt_stars@;
        for i in 0..self.prompt_stars.len()
            invariant
                rows == self.prompt_stars@,
                forall|a: int, b: int| 0 <= a < b < i ==> rows[a] != rows[b],
                forall|a: int|
                    0 <= a < i ==> self@.has_prompt((#[trigger] rows[a]).0) && self@.has_user(
                        rows[a].1,
                    ),
        {
            let row = self.prompt_stars[i];
            if !self.knows_prompt(row.0) || !self.knows_user(row.1) {
                assert(rows.contains(rows[i as int]));
                assert(self@.prompt_stars.contains((row.0, row.1)));
                return false;
            }
            for j in 0..i
                invariant
                    rows == self.prompt_stars@,
                    i < rows.len(),
                    row == rows[i as int],
                    forall|a: int| 0 <= a < j ==> rows[a] != rows[i as int],
            {
                if self.prompt_stars[j].0 == row.0 && self.prompt_stars[j].1 == row.1 {
                    assert(rows[j as int] == rows[i as int]);
                    return false;
                }
            }
        }
        proof {
            rows.unique_seq_to_set();
            assert forall|p: i64, u: i64| #[trigger]
                self@.prompt_stars.contains((p, u)) implies self@.has_prompt(p) && self@.has_user(
                u,
            ) by {
                let k = choose|k: int| 0 <= k < rows.len() && rows[k] == (p, u);
                assert(self@.has_prompt(rows[k].0));
            }
        }
        self.prompt_stars.len() as u64 <= 0x7fff_ffff_ffff_ffffu64
    }

    /// Takes rows over as a store, provided that no pair is given twice and
    /// that the rows satisfy the invariants of the data model.
    pub fn restore(
        users: Vec<User>,
        prompts: Vec<PromptRecord>,
        tags: Vec<Tag>,
        prompt_tags: Vec<(i64, i64)>,
        prompt_stars: Vec<(i64, i64)>,
    ) -> (store: Option<Store>)
        ensures
            store is Some == (prompt_tags@.no_duplicates() && prompt_stars@.no_duplicates()
                && snapshot(users@, prompts@, tags@, prompt_tags@, prompt_stars@).valid()),
            store is Some ==> store.unwrap().wf() && store.unwrap()@ == snapshot(
                users@,
                prompts@,
                tags@,
                prompt_tags@,
                prompt_stars@,
            ),
    {
        let store = Store { users, prompts, tags, prompt_tags, prompt_stars };
        if store.users_ok() && store.prompts_ok() && store.tags_ok() && store.tag_links_ok()
            && store.stars_ok() {
            Some(store)
        } else {
            None
        }
    }
}

} // verus!
