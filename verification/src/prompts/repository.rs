//! The prompt repository: the feed, single prompts, and the mutations.
//!
//! Every query is stated over the [`Database`] that a [`Store`] stands for.
//! A feed row is assembled from one prompt joined with its author, the
//! stars counted and the tags collected for it.

use vstd::prelude::*;
use crate::db::store::Store;
use crate::db::{
    of_other_prompt, of_prompt, prompt_views, Database, PromptRecord, PromptView, StorageDetail,
    TagView,
};
use crate::seqs::{lemma_filter_membership, lemma_filter_no_duplicates};
use crate::prompts::{
    aggregated_tags, clone_tags, normalized_tags, prompt_list_views, raw_tag_views, tag_views,
    PromptList, PromptListView, PromptRow, PromptRowView, Tag,
};

verus! {

/// Seconds in a day.
pub const SECONDS_PER_DAY: i64 = 86_400;

/// How many days back the feed reaches unless told otherwise.
pub const FEED_WINDOW_DAYS: i64 = 30;

/// How many rows a page of the feed holds unless told otherwise.
pub const FEED_PAGE_SIZE: usize = 20;

/// Which prompts a listing covers.
#[derive(Clone, Copy, Debug)]
pub enum Scope {
    /// Prompts that have an author and were created at `cutoff` or later.
    Since { cutoff: i128 },
    /// Prompts of one author.
    Author { user_id: i64 },
    /// Every prompt.
    Everything,
}

impl Scope {
    /// Whether the listing covers the prompt.
    pub open spec fn covers(self, prompt: PromptView) -> bool {
        match self {
            Scope::Since { cutoff } => prompt.user_id is Some && prompt.created_at >= cutoff,
            Scope::Author { user_id } => prompt.user_id == Some(user_id),
            Scope::Everything => true,
        }
    }

    /// [`Scope::covers`] as a predicate.
    pub open spec fn covering(self) -> spec_fn(PromptView) -> bool {
        |prompt: PromptView| self.covers(prompt)
    }

    fn takes(&self, prompt: &PromptRecord) -> (covered: bool)
        ensures
            covered == self.covers(prompt@),
    {
        match self {
            Scope::Since { cutoff } => prompt.user_id.is_some() && prompt.created_at as i128
                >= *cutoff,
            Scope::Author { user_id } => match prompt.user_id {
                Some(author) => author == *user_id,
                None => false,
            },
            Scope::Everything => true,
        }
    }
}

/// The first moment that a feed window of `window_days` days ending at
/// `now` covers.
pub open spec fn window_start(now: i64, window_days: i64) -> int {
    now - window_days * SECONDS_PER_DAY
}

/// `a` comes before `b` in a listing: it was created later, or at the same
/// moment under a later key.
pub open spec fn newer(a: PromptView, b: PromptView) -> bool {
    a.created_at > b.created_at || (a.created_at == b.created_at && a.id > b.id)
}

/// `sorted` with `prompt` put in before the trailing prompts that it is
/// newer than.
pub open spec fn place(sorted: Seq<PromptView>, prompt: PromptView) -> Seq<PromptView>
    decreases sorted.len(),
{
    if sorted.len() > 0 && newer(prompt, sorted.last()) {
        place(sorted.drop_last(), prompt).push(sorted.last())
    } else {
        sorted.push(prompt)
    }
}

/// The prompts of `prompts`, newest first.
pub open spec fn newest_first(prompts: Seq<PromptView>) -> Seq<PromptView>
    decreases prompts.len(),
{
    if prompts.len() == 0 {
        Seq::empty()
    } else {
        place(newest_first(prompts.drop_last()), prompts.last())
    }
}

/// The rows `offset`, `offset + 1`, ... of `rows`, at most `limit` of them.
pub open spec fn page<A>(rows: Seq<A>, offset: nat, limit: nat) -> Seq<A> {
    let start = if offset <= rows.len() {
        offset
    } else {
        rows.len()
    };
    let end = if start + limit <= rows.len() {
        start + limit
    } else {
        rows.len()
    };
    rows.subrange(start as int, end as int)
}

/// The rows of `rows` that `order` points at, in the order of `order`.
pub open spec fn pick(rows: Seq<PromptView>, order: Seq<usize>) -> Seq<PromptView> {
    Seq::new(order.len(), |k: int| rows[order[k] as int])
}

/// Putting a prompt in place is inserting it at the position that leaves
/// exactly the prompts it is newer than behind it.
pub proof fn lemma_place_at(sorted: Seq<PromptView>, prompt: PromptView, k: int)
    requires
        0 <= k <= sorted.len(),
        forall|j: int| k <= j < sorted.len() ==> newer(prompt, #[trigger] sorted[j]),
        k > 0 ==> !newer(prompt, sorted[k - 1]),
    ensures
        place(sorted, prompt) == sorted.insert(k, prompt),
    decreases sorted.len(),
{
    if k == sorted.len() {
        assert(sorted.push(prompt) =~= sorted.insert(k, prompt));
    } else {
        lemma_place_at(sorted.drop_last(), prompt, k);
        assert(sorted.drop_last().insert(k, prompt).push(sorted.last()) =~= sorted.insert(
            k,
            prompt,
        ));
    }
}

/// What the JSON surface shows of a prompt of the viewer's own.
#[derive(Debug)]
pub struct OwnPrompt {
    pub id: i64,
    pub title: String,
    pub content: String,
}

/// An [`OwnPrompt`], as the contracts see it.
pub struct OwnPromptView {
    pub id: i64,
    pub title: Seq<char>,
    pub content: Seq<char>,
}

impl View for OwnPrompt {
    type V = OwnPromptView;

    open spec fn view(&self) -> OwnPromptView {
        OwnPromptView { id: self.id, title: self.title@, content: self.content@ }
    }
}

/// The views of a list of own prompts, in order.
pub open spec fn own_prompt_views(rows: Seq<OwnPrompt>) -> Seq<OwnPromptView> {
    rows.map_values(|row: OwnPrompt| row@)
}

/// Why the repository refused an operation.
#[derive(Clone, Copy, Debug, PartialEq, Eq, Structural)]
pub enum RepoError {
    /// No such prompt.
    NotFound,
    /// The prompt is not the caller's to change.
    Forbidden,
    /// A column of the form is empty.
    ValidationError { field: Field },
    /// A tag of the new tag set does not exist.
    UnknownTag(i64),
    /// The store refused a write.
    StorageError(StorageDetail),
}

/// A column that a form must fill.
#[derive(Clone, Copy, Debug, PartialEq, Eq, Structural)]
pub enum Field {
    Title,
    Content,
}

impl Database {
    /// The feed row of a prompt that has an author.
    pub open spec fn feed_row(self, prompt: PromptView, viewer: Option<i64>) -> PromptListView {
        PromptListView {
            id: prompt.id,
            title: prompt.title,
            description: prompt.description,
            author: self.user(prompt.user_id->0).username,
            author_id: prompt.user_id->0,
            created_at: Some(prompt.created_at),
            star_count: self.star_count(prompt.id) as i64,
            tags: aggregated_tags(self.tags_of(prompt.id)),
            is_starred: self.is_starred(prompt.id, viewer),
        }
    }

    /// The detail row of a prompt that has an author: its feed row and its
    /// content.
    pub open spec fn detail_row(self, prompt: PromptView, viewer: Option<i64>) -> PromptRowView {
        PromptRowView {
            id: prompt.id,
            title: prompt.title,
            description: prompt.description,
            content: prompt.content,
            author: self.user(prompt.user_id->0).username,
            author_id: prompt.user_id->0,
            created_at: Some(prompt.created_at),
            star_count: self.star_count(prompt.id) as i64,
            tags: aggregated_tags(self.tags_of(prompt.id)),
            is_starred: self.is_starred(prompt.id, viewer),
        }
    }

    /// The feed: the prompts with an author that were created within the
    /// window, newest first, one page of them, each as its feed row.
    pub open spec fn feed(
        self,
        viewer: Option<i64>,
        offset: nat,
        window_days: i64,
        limit: nat,
        now: i64,
    ) -> Seq<PromptListView> {
        let scope = Scope::Since { cutoff: window_start(now, window_days) as i128 };
        page(self.listing(scope), offset, limit).map_values(
            |prompt: PromptView| self.feed_row(prompt, viewer),
        )
    }

    /// Whether `get_prompt` finds the prompt: it exists and has an author.
    pub open spec fn shows_prompt(self, id: i64) -> bool {
        self.has_prompt(id) && self.prompt(id).user_id is Some
    }

    /// The prompts of one author, newest first, as the JSON surface shows
    /// them.
    pub open spec fn own_prompts(self, user_id: i64) -> Seq<OwnPromptView> {
        self.listing(Scope::Author { user_id }).map_values(
            |prompt: PromptView|
                OwnPromptView { id: prompt.id, title: prompt.title, content: prompt.content },
        )
    }
}

/// Putting a prompt in place adds it and keeps the rest.
pub proof fn lemma_place_contains(sorted: Seq<PromptView>, prompt: PromptView, x: PromptView)
    ensures
        place(sorted, prompt).len() == sorted.len() + 1,
        place(sorted, prompt).contains(x) <==> sorted.contains(x) || x == prompt,
    decreases sorted.len(),
{
    let placed = place(sorted, prompt);
    if sorted.len() > 0 && newer(prompt, sorted.last()) {
        let front = sorted.drop_last();
        lemma_place_contains(front, prompt, x);
        let inner = place(front, prompt);
        if placed.contains(x) {
            let j = choose|j: int| 0 <= j < placed.len() && placed[j] == x;
            if j < inner.len() {
                assert(inner[j] == x);
                assert(inner.contains(x));
                if front.contains(x) {
                    let k = choose|k: int| 0 <= k < front.len() && front[k] == x;
                    assert(sorted[k] == x);
                }
            } else {
                assert(sorted[sorted.len() - 1] == x);
            }
        }
        if sorted.contains(x) || x == prompt {
            if x == prompt {
                assert(inner.contains(x));
                let j = choose|j: int| 0 <= j < inner.len() && inner[j] == x;
                assert(placed[j] == x);
            } else {
                let k = choose|k: int| 0 <= k < sorted.len() && sorted[k] == x;
                if k == sorted.len() - 1 {
                    assert(placed[placed.len() - 1] == x);
                } else {
                    assert(front[k] == x);
                    assert(front.contains(x));
                    let j = choose|j: int| 0 <= j < inner.len() && inner[j] == x;
                    assert(placed[j] == x);
                }
            }
        }
    } else {
        if placed.contains(x) {
            let j = choose|j: int| 0 <= j < placed.len() && placed[j] == x;
            if j < sorted.len() {
                assert(sorted[j] == x);
            }
        }
        if sorted.contains(x) {
            let k = choose|k: int| 0 <= k < sorted.len() && sorted[k] == x;
            assert(placed[k] == x);
        }
        if x == prompt {
            assert(placed[sorted.len() as int] == x);
        }
    }
}

/// Whether each prompt of `prompts` comes before all that follow it.
pub open spec fn is_newest_first(prompts: Seq<PromptView>) -> bool {
    forall|i: int, j: int|
        0 <= i < j < prompts.len() ==> newer(#[trigger] prompts[i], #[trigger] prompts[j])
}

/// Putting a prompt in place keeps a listing in order, provided that no
/// prompt of the listing has its key.
pub proof fn lemma_place_sorted(sorted: Seq<PromptView>, prompt: PromptView)
    requires
        is_newest_first(sorted),
        forall|i: int| 0 <= i < sorted.len() ==> (#[trigger] sorted[i]).id != prompt.id,
    ensures
        is_newest_first(place(sorted, prompt)),
    decreases sorted.len(),
{
    let placed = place(sorted, prompt);
    if sorted.len() > 0 && newer(prompt, sorted.last()) {
        let front = sorted.drop_last();
        assert forall|i: int| 0 <= i < front.len() implies (#[trigger] front[i]).id
            != prompt.id by {
            assert(front[i] == sorted[i]);
        }
        assert(is_newest_first(front)) by {
            assert forall|i: int, j: int| 0 <= i < j < front.len() implies newer(
                #[trigger] front[i],
                #[trigger] front[j],
            ) by {
                assert(front[i] == sorted[i] && front[j] == sorted[j]);
            }
        }
        lemma_place_sorted(front, prompt);
        let inner = place(front, prompt);
        lemma_place_contains(front, prompt, prompt);
        assert forall|i: int, j: int| 0 <= i < j < placed.len() implies newer(
            #[trigger] placed[i],
            #[trigger] placed[j],
        ) by {
            if j < inner.len() {
                assert(placed[i] == inner[i] && placed[j] == inner[j]);
            } else {
                assert(placed[j] == sorted.last());
                assert(placed[i] == inner[i]);
                lemma_place_contains(front, prompt, inner[i]);
                assert(inner.contains(inner[i]));
                if inner[i] == prompt {
                } else {
                    let k = choose|k: int| 0 <= k < front.len() && front[k] == inner[i];
                    assert(sorted[k] == inner[i]);
                    assert(newer(sorted[k], sorted[sorted.len() - 1]));
                }
            }
        }
    } else {
        assert forall|i: int, j: int| 0 <= i < j < placed.len() implies newer(
            #[trigger] placed[i],
            #[trigger] placed[j],
        ) by {
            if j < sorted.len() {
                assert(placed[i] == sorted[i] && placed[j] == sorted[j]);
            } else {
                assert(placed[j] == prompt);
                assert(placed[i] == sorted[i]);
                if i < sorted.len() - 1 {
                    assert(newer(sorted[i], sorted[sorted.len() - 1]));
                }
                assert(sorted[sorted.len() - 1].id != prompt.id);
            }
        }
    }
}

/// A listing in order holds the prompts it was made from, each once, every
/// one before all that are older.
pub proof fn lemma_newest_first(prompts: Seq<PromptView>)
    requires
        forall|i: int, j: int|
            0 <= i < j < prompts.len() ==> (#[trigger] prompts[i]).id != (#[trigger] prompts[j]).id,
    ensures
        newest_first(prompts).len() == prompts.len(),
        forall|x: PromptView| #[trigger]
            newest_first(prompts).contains(x) <==> prompts.contains(x),
        is_newest_first(newest_first(prompts)),
    decreases prompts.len(),
{
    if prompts.len() > 0 {
        let front = prompts.drop_last();
        let last = prompts.last();
        assert forall|i: int, j: int| 0 <= i < j < front.len() implies (#[trigger] front[i]).id != (
        #[trigger] front[j]).id by {
            assert(front[i] == prompts[i] && front[j] == prompts[j]);
        }
        lemma_newest_first(front);
        let sorted = newest_first(front);
        assert forall|i: int| 0 <= i < sorted.len() implies (#[trigger] sorted[i]).id
            != last.id by {
            assert(sorted.contains(sorted[i]));
            assert(front.contains(sorted[i]));
            let k = choose|k: int| 0 <= k < front.len() && front[k] == sorted[i];
            assert(prompts[k].id != prompts[prompts.len() - 1].id);
        }
        lemma_place_sorted(sorted, last);
        assert forall|x: PromptView| #[trigger]
            newest_first(prompts).contains(x) <==> prompts.contains(x) by {
            lemma_place_contains(sorted, last, x);
            if front.contains(x) {
                let k = choose|k: int| 0 <= k < front.len() && front[k] == x;
                assert(prompts[k] == x);
            }
            if prompts.contains(x) {
                let k = choose|k: int| 0 <= k < prompts.len() && prompts[k] == x;
                if k < front.len() {
                    assert(front[k] == x);
                } else {
                    assert(x == last);
                }
            }
        }
        lemma_place_contains(sorted, last, last);
    }
}

impl Database {
    /// The prompts that a listing covers, newest first.
    pub open spec fn listing(self, scope: Scope) -> Seq<PromptView> {
        newest_first(self.prompts.filter(scope.covering()))
    }

    /// A listing holds exactly the stored prompts that its scope covers, and
    /// holds them newest first: by time of creation, later first, and among
    /// prompts of one moment by key, later first.
    pub proof fn lemma_listing(self, scope: Scope)
        requires
            self.valid(),
        ensures
            forall|x: PromptView| #[trigger]
                self.listing(scope).contains(x) <==> self.prompts.contains(x) && scope.covers(x),
            is_newest_first(self.listing(scope)),
            self.listing(scope).len() <= self.prompts.len(),
    {
        let covering = scope.covering();
        let covered = self.prompts.filter(covering);
        lemma_filter_no_duplicates(self.prompts, covering);
        assert(self.prompts.no_duplicates()) by {
            assert forall|i: int, j: int|
                0 <= i < self.prompts.len() && 0 <= j < self.prompts.len() && i != j implies self.prompts[i]
                != self.prompts[j] by {
                if i < j {
                    assert(self.prompts[i].id < self.prompts[j].id);
                } else {
                    assert(self.prompts[j].id < self.prompts[i].id);
                }
            }
        }
        lemma_filter_no_duplicates(self.prompts, covering);
        self.prompts.lemma_filter_len(covering);
        assert forall|i: int, j: int| 0 <= i < j < covered.len() implies (#[trigger] covered[i]).id
            != (#[trigger] covered[j]).id by {
            lemma_filter_membership(self.prompts, covering, covered[i]);
            lemma_filter_membership(self.prompts, covering, covered[j]);
            assert(covered.contains(covered[i]) && covered.contains(covered[j]));
            let a = choose|a: int| 0 <= a < self.prompts.len() && self.prompts[a] == covered[i];
            let b = choose|b: int| 0 <= b < self.prompts.len() && self.prompts[b] == covered[j];
            assert(covered[i] != covered[j]);
            if a < b {
                assert(self.prompts[a].id < self.prompts[b].id);
            } else if b < a {
                assert(self.prompts[b].id < self.prompts[a].id);
            }
        }
        lemma_newest_first(covered);
        assert forall|x: PromptView| #[trigger]
            self.listing(scope).contains(x) <==> self.prompts.contains(x) && scope.covers(x) by {
            lemma_filter_membership(self.prompts, covering, x);
            assert(newest_first(covered).contains(x) <==> covered.contains(x));
        }
    }
}

impl Store {
    /// The positions in `prompts` of the prompts that a listing covers,
    /// newest first.
    pub fn listing(&self, scope: Scope) -> (order: Vec<usize>)
        ensures
            forall|k: int| 0 <= k < order@.len() ==> (#[trigger] order@[k]) < self@.prompts.len(),
            pick(self@.prompts, order@) == self@.listing(scope),
    {
        let prompts = self.prompts();
        let ghost rows = self@.prompts;
        let ghost covering = scope.covering();
        let mut order: Vec<usize> = Vec::new();
        proof {
            assert(rows.take(0) =~= Seq::empty());
            assert(rows.take(0).filter(covering) =~= Seq::empty()) by {
                rows.take(0).lemma_filter_len(covering);
            }
            assert(pick(rows, order@) =~= Seq::empty());
        }
        for i in 0..prompts.len()
            invariant
                rows == prompt_views(prompts@),
                covering == scope.covering(),
                forall|k: int| 0 <= k < order@.len() ==> (#[trigger] order@[k]) < i,
                pick(rows, order@) == newest_first(rows.take(i as int).filter(covering)),
        {
            let prompt = &prompts[i];
            let ghost seen = rows.take(i as int).filter(covering);
            let ghost sorted = pick(rows, order@);
            proof {
                assert(rows.take(i + 1) =~= rows.take(i as int).push(rows[i as int]));
                rows.take(i as int).lemma_filter_push(rows[i as int], covering);
                assert(rows[i as int] == prompt@);
            }
            if scope.takes(prompt) {
                let mut k: usize = order.len();
                while k > 0 && comes_before(prompt, &prompts[order[k - 1]])
                    invariant
                        rows == prompt_views(prompts@),
                        i < prompts.len(),
                        k <= order@.len(),
                        sorted == pick(rows, order@),
                        forall|j: int| 0 <= j < order@.len() ==> (#[trigger] order@[j]) < i,
                        forall|j: int| k <= j < sorted.len() ==> newer(prompt@, #[trigger] sorted[j]),
                    decreases k,
                {
                    k = k - 1;
                }
                order.insert(k, i);
                proof {
                    lemma_place_at(sorted, prompt@, k as int);
                    assert(pick(rows, order@) =~= sorted.insert(k as int, prompt@));
                    assert(seen.push(prompt@).drop_last() =~= seen);
                }
            }
        }
        proof {
            assert(rows.take(rows.len() as int) =~= rows);
        }
        order
    }
}

/// Whether `a` comes before `b` in a listing.
fn comes_before(a: &PromptRecord, b: &PromptRecord) -> (before: bool)
    ensures
        before == newer(a@, b@),
{
    a.created_at > b.created_at || (a.created_at == b.created_at && a.id > b.id)
}

impl Store {
    /// Every tag, in key order.
    pub fn all_tags(&self) -> (tags: Vec<Tag>)
        ensures
            tag_views(tags@) == self@.tags,
    {
        clone_tags(self.tags())
    }

    /// The tags joined to one prompt, in key order.
    pub fn tags_of(&self, prompt_id: i64) -> (tags: Vec<Tag>)
        ensures
            tag_views(tags@) == self@.tags_of(prompt_id),
    {
        let all = self.tags();
        let ghost rows = self@.tags;
        let ghost joined = self@.joined_to(prompt_id);
        let mut tags: Vec<Tag> = Vec::new();
        proof {
            assert(rows.take(0).filter(joined) =~= Seq::empty()) by {
                rows.take(0).lemma_filter_len(joined);
            }
            assert(tag_views(tags@) =~= Seq::empty());
        }
        for i in 0..all.len()
            invariant
                rows == tag_views(all@),
                rows == self@.tags,
                joined == self@.joined_to(prompt_id),
                tag_views(tags@) == rows.take(i as int).filter(joined),
        {
            proof {
                assert(rows.take(i + 1) =~= rows.take(i as int).push(rows[i as int]));
                rows.take(i as int).lemma_filter_push(rows[i as int], joined);
            }
            if self.has_tag_link(prompt_id, all[i].id) {
                let ghost before = tags@;
                tags.push(all[i].clone());
                proof {
                    assert(tag_views(tags@) =~= tag_views(before).push(rows[i as int]));
                }
            }
        }
        proof {
            assert(rows.take(rows.len() as int) =~= rows);
        }
        tags
    }

    /// The tag list of one prompt as the aggregation delivers it.
    fn aggregate_tags(&self, prompt_id: i64) -> (tags: Option<Option<Vec<Tag>>>)
        ensures
            raw_tag_views(tags) == aggregated_tags(self@.tags_of(prompt_id)),
    {
        let tags = self.tags_of(prompt_id);
        if tags.len() == 0 {
            None
        } else {
            Some(Some(tags))
        }
    }

    /// Whether the viewer has starred the prompt.
    fn starred_by(&self, prompt_id: i64, viewer: Option<i64>) -> (starred: Option<bool>)
        ensures
            starred == self@.is_starred(prompt_id, viewer),
    {
        match viewer {
            Some(user_id) => Some(self.has_star(prompt_id, user_id)),
            None => None,
        }
    }

    /// Assembles the feed row of a stored prompt that has an author.
    fn feed_row(&self, prompt: &PromptRecord, viewer: Option<i64>) -> (row: PromptList)
        requires
            self.wf(),
            self@.prompts.contains(prompt@),
            prompt.user_id is Some,
        ensures
            row@ == self@.feed_row(prompt@, viewer),
    {
        proof {
            self.lemma_wf_valid();
            let i = choose|i: int| 0 <= i < self@.prompts.len() && self@.prompts[i] == prompt@;
            assert(self@.has_user(self@.prompts[i].user_id->0));
        }
        let author_id = prompt.user_id.unwrap();
        let author = self.find_user(author_id).unwrap();
        PromptList {
            id: prompt.id,
            title: prompt.title.clone(),
            description: prompt.description.clone(),
            author: author.username.clone(),
            author_id,
            created_at: Some(prompt.created_at),
            star_count: self.count_stars(prompt.id),
            tags: self.aggregate_tags(prompt.id),
            is_starred: self.starred_by(prompt.id, viewer),
        }
    }

    /// The feed: the prompts with an author that were created in the last
    /// `window_days` days before `now`, newest first; of these the rows from
    /// `offset` on, at most `limit`. `now` counts seconds since the Unix
    /// epoch.
    pub fn list_feed(
        &self,
        viewer: Option<i64>,
        offset: usize,
        window_days: i64,
        limit: usize,
        now: i64,
    ) -> (rows: Vec<PromptList>)
        requires
            self.wf(),
        ensures
            prompt_list_views(rows@) == self@.feed(
                viewer,
                offset as nat,
                window_days,
                limit as nat,
                now,
            ),
    {
        let span: i128 = window_days as i128 * 86_400;
        let cutoff: i128 = now as i128 - span;
        let scope = Scope::Since { cutoff };
        let order = self.listing(scope);
        let prompts = self.prompts();
        let total = order.len();
        let start = if offset <= total {
            offset
        } else {
            total
        };
        let end = if limit <= total - start {
            start + limit
        } else {
            total
        };
        let ghost listed = self@.listing(scope);
        let ghost wanted = page(listed, offset as nat, limit as nat);
        let mut rows: Vec<PromptList> = Vec::new();
        proof {
            assert(wanted =~= listed.subrange(start as int, end as int));
            self.lemma_wf_valid();
            self@.lemma_listing(scope);
            assert forall|j: int| 0 <= j < listed.len() implies (#[trigger] listed[j]).user_id is Some by {
                assert(listed.contains(listed[j]));
            }
        }
        for k in start..end
            invariant
                self.wf(),
                start <= end <= total,
                total == order@.len(),
                prompt_views(prompts@) == self@.prompts,
                listed == pick(self@.prompts, order@),
                forall|j: int| 0 <= j < order@.len() ==> (#[trigger] order@[j]) < self@.prompts.len(),
                forall|j: int| 0 <= j < listed.len() ==> (#[trigger] listed[j]).user_id is Some,
                rows@.len() == k - start,
                forall|j: int|
                    0 <= j < rows@.len() ==> (#[trigger] rows@[j])@ == self@.feed_row(
                        listed[start + j],
                        viewer,
                    ),
        {
            let prompt = &prompts[order[k]];
            proof {
                assert(prompt@ == self@.prompts[order@[k as int] as int]);
                assert(listed[k as int] == prompt@);
                assert(self@.prompts.contains(prompt@));
            }
            rows.push(self.feed_row(prompt, viewer));
        }
        proof {
            assert(prompt_list_views(rows@) =~= self@.feed(
                viewer,
                offset as nat,
                window_days,
                limit as nat,
                now,
            ));
        }
        rows
    }

    /// The prompt with this key, joined with its author, its stars and its
    /// tags. A prompt without an author is not found.
    pub fn get_prompt(&self, id: i64, viewer: Option<i64>) -> (result: Result<PromptRow, RepoError>)
        requires
            self.wf(),
        ensures
            match result {
                Ok(row) => self@.shows_prompt(id) && row@ == self@.detail_row(
                    self@.prompt(id),
                    viewer,
                ),
                Err(error) => !self@.shows_prompt(id) && error == RepoError::NotFound,
            },
    {
        let prompt = match self.find_prompt(id) {
            Some(prompt) => prompt,
            None => {
                return Err(RepoError::NotFound);
            },
        };
        let author_id = match prompt.user_id {
            Some(author_id) => author_id,
            None => {
                return Err(RepoError::NotFound);
            },
        };
        proof {
            self.lemma_wf_valid();
            let i = choose|i: int| 0 <= i < self@.prompts.len() && (#[trigger] self@.prompts[i]).id == id;
            self@.lemma_prompt_at(i);
            assert(self@.has_user(self@.prompts[i].user_id->0));
        }
        let author = self.find_user(author_id).unwrap();
        Ok(
            PromptRow {
                id: prompt.id,
                title: prompt.title.clone(),
                description: prompt.description.clone(),
                content: prompt.content.clone(),
                author: author.username.clone(),
                author_id,
                created_at: Some(prompt.created_at),
                star_count: self.count_stars(prompt.id),
                tags: self.aggregate_tags(prompt.id),
                is_starred: self.starred_by(prompt.id, viewer),
            },
        )
    }

    /// The content of the prompt with this key, whoever wrote it.
    pub fn get_prompt_content(&self, id: i64) -> (result: Result<String, RepoError>)
        requires
            self.wf(),
        ensures
            match result {
                Ok(content) => self@.has_prompt(id) && content@ == self@.prompt(id).content,
                Err(error) => !self@.has_prompt(id) && error == RepoError::NotFound,
            },
    {
        match self.find_prompt(id) {
            Some(prompt) => Ok(prompt.content.clone()),
            None => Err(RepoError::NotFound),
        }
    }

    /// The prompts of one author, newest first.
    pub fn list_user_prompts(&self, user_id: i64) -> (rows: Vec<OwnPrompt>)
        requires
            self.wf(),
        ensures
            own_prompt_views(rows@) == self@.own_prompts(user_id),
    {
        let order = self.listing(Scope::Author { user_id });
        let prompts = self.prompts();
        let ghost listed = self@.listing(Scope::Author { user_id });
        let mut rows: Vec<OwnPrompt> = Vec::new();
        for k in 0..order.len()
            invariant
                prompt_views(prompts@) == self@.prompts,
                listed == pick(self@.prompts, order@),
                forall|j: int| 0 <= j < order@.len() ==> (#[trigger] order@[j]) < self@.prompts.len(),
                rows@.len() == k,
                forall|j: int|
                    0 <= j < rows@.len() ==> (#[trigger] rows@[j])@ == (OwnPromptView {
                        id: listed[j].id,
                        title: listed[j].title,
                        content: listed[j].content,
                    }),
        {
            let prompt = &prompts[order[k]];
            proof {
                assert(listed[k as int] == prompt@);
            }
            rows.push(
                OwnPrompt {
                    id: prompt.id,
                    title: prompt.title.clone(),
                    content: prompt.content.clone(),
                },
            );
        }
        proof {
            assert(own_prompt_views(rows@) =~= self@.own_prompts(user_id));
        }
        rows
    }
}

/// What a toggle did.
#[derive(Clone, Copy, Debug, PartialEq, Eq, Structural)]
pub enum StarToggle {
    /// The star was added.
    Starred,
    /// The star was removed.
    Unstarred,
}

/// The rows that link one prompt to the tags of a set.
pub open spec fn links_to(prompt_id: i64, tag_ids: Set<i64>) -> Set<(i64, i64)> {
    Set::new(|row: (i64, i64)| row.0 == prompt_id && tag_ids.contains(row.1))
}

impl Database {
    /// Why a prompt with these columns cannot be created, if it cannot.
    pub open spec fn create_refusal(self, author_id: i64, title: Seq<char>, content: Seq<char>)
        -> Option<RepoError> {
        if title.len() == 0 {
            Some(RepoError::ValidationError { field: Field::Title })
        } else if content.len() == 0 {
            Some(RepoError::ValidationError { field: Field::Content })
        } else {
            match self.prompt_fault(Some(author_id), None, content) {
                Some(detail) => Some(RepoError::StorageError(detail)),
                None => None,
            }
        }
    }

    /// Whether the prompt exists and `author_id` wrote it.
    pub open spec fn may_edit(self, prompt_id: i64, author_id: i64) -> bool {
        self.has_prompt(prompt_id) && self.prompt(prompt_id).user_id == Some(author_id)
    }

    /// Position `k` holds the first tag of `tag_ids` that does not exist.
    pub open spec fn first_unknown_tag_at(self, tag_ids: Seq<i64>, k: int) -> bool {
        &&& 0 <= k < tag_ids.len()
        &&& !self.has_tag(tag_ids[k])
        &&& forall|j: int| 0 <= j < k ==> self.has_tag(#[trigger] tag_ids[j])
    }

    /// The state in which the prompt carries exactly the tags of `tag_ids`
    /// and every other prompt the tags it had.
    pub open spec fn with_tags(self, prompt_id: i64, tag_ids: Set<i64>) -> Database {
        Database {
            prompt_tags: self.prompt_tags.filter(of_other_prompt(prompt_id)).union(
                links_to(prompt_id, tag_ids),
            ),
            ..self
        }
    }

    /// What a toggle of this star answers.
    pub open spec fn toggle_outcome(self, prompt_id: i64, user_id: i64) -> Result<
        StarToggle,
        RepoError,
    > {
        if self.prompt_stars.contains((prompt_id, user_id)) {
            Ok(StarToggle::Unstarred)
        } else {
            match self.star_fault(prompt_id, user_id) {
                Some(detail) => Err(RepoError::StorageError(detail)),
                None => Ok(StarToggle::Starred),
            }
        }
    }

    /// The state that a toggle of this star leaves: without the star if it
    /// was there, with it if it was not and can be stored, unchanged
    /// otherwise.
    pub open spec fn toggled(self, prompt_id: i64, user_id: i64) -> Database {
        if self.prompt_stars.contains((prompt_id, user_id)) {
            self.without_star(prompt_id, user_id)
        } else if self.star_fault(prompt_id, user_id) is None {
            self.with_star(prompt_id, user_id)
        } else {
            self
        }
    }
}

impl Store {
    /// Creates a prompt of `author_id`, created at `now`, and returns its
    /// key. `now` counts seconds since the Unix epoch.
    ///
    /// An empty title or content is a validation error, the title first. A
    /// refusal changes nothing.
    pub fn create_prompt(
        &mut self,
        author_id: i64,
        title: &str,
        description: &str,
        content: &str,
        now: i64,
    ) -> (result: Result<i64, RepoError>)
        requires
            old(self).wf(),
        ensures
            final(self).wf(),
            match result {
                Ok(id) => {
                    &&& old(self)@.create_refusal(author_id, title@, content@) is None
                    &&& id == old(self)@.next_prompt_id()
                    &&& final(self)@ == old(self)@.with_prompt(
                        PromptView {
                            id,
                            user_id: Some(author_id),
                            parent_prompt_id: None,
                            title: title@,
                            description: description@,
                            content: content@,
                            created_at: now,
                        },
                    )
                },
                Err(error) => {
                    &&& old(self)@.create_refusal(author_id, title@, content@) == Some(error)
                    &&& final(self)@ == old(self)@
                },
            },
    {
        if title.is_empty() {
            return Err(RepoError::ValidationError { field: Field::Title });
        }
        if content.is_empty() {
            return Err(RepoError::ValidationError { field: Field::Content });
        }
        match self.insert_prompt(
            Some(author_id),
            None,
            title.to_owned(),
            description.to_owned(),
            content.to_owned(),
            now,
        ) {
            Ok(id) => Ok(id),
            Err(detail) => Err(RepoError::StorageError(detail)),
        }
    }

    /// Replaces the tag set of a prompt by the tags of `tag_ids`, which may
    /// name a tag more than once.
    ///
    /// Only the author may do so: for anyone else, and for a prompt that
    /// does not exist, the answer is `Forbidden`. A tag that does not exist
    /// gives `UnknownTag` with the first such id of `tag_ids`. A refusal
    /// changes nothing.
    pub fn set_tags(&mut self, prompt_id: i64, author_id: i64, tag_ids: &Vec<i64>) -> (result:
        Result<(), RepoError>)
        requires
            old(self).wf(),
        ensures
            final(self).wf(),
            match result {
                Ok(()) => {
                    &&& old(self)@.may_edit(prompt_id, author_id)
                    &&& forall|k: int|
                        0 <= k < tag_ids@.len() ==> old(self)@.has_tag(#[trigger] tag_ids@[k])
                    &&& final(self)@ == old(self)@.with_tags(prompt_id, tag_ids@.to_set())
                    &&& final(self)@.tag_ids_of(prompt_id) == tag_ids@.to_set()
                },
                Err(RepoError::Forbidden) => {
                    &&& !old(self)@.may_edit(prompt_id, author_id)
                    &&& final(self)@ == old(self)@
                },
                Err(RepoError::UnknownTag(tag_id)) => {
                    &&& old(self)@.may_edit(prompt_id, author_id)
                    &&& exists|k: int|
                        old(self)@.first_unknown_tag_at(tag_ids@, k) && tag_ids@[k] == tag_id
                    &&& final(self)@ == old(self)@
                },
                Err(_) => false,
            },
    {
        let ghost before = self@;
        let owned = match self.find_prompt(prompt_id) {
            Some(prompt) => match prompt.user_id {
                Some(owner) => owner == author_id,
                None => false,
            },
            None => false,
        };
        if !owned {
            return Err(RepoError::Forbidden);
        }
        for k in 0..tag_ids.len()
            invariant
                self.wf(),
                self@ == before,
                before.may_edit(prompt_id, author_id),
                forall|j: int| 0 <= j < k ==> before.has_tag(#[trigger] tag_ids@[j]),
        {
            if !self.has_tag(tag_ids[k]) {
                assert(before.first_unknown_tag_at(tag_ids@, k as int));
                return Err(RepoError::UnknownTag(tag_ids[k]));
            }
        }
        self.delete_tag_links(prompt_id);
        let ghost cleared = self@;
        proof {
            assert(links_to(prompt_id, tag_ids@.take(0).to_set()) =~= Set::empty());
            assert(cleared.prompt_tags.union(Set::empty()) =~= cleared.prompt_tags);
        }
        for k in 0..tag_ids.len()
            invariant
                self.wf(),
                cleared == before.without_tag_links(prompt_id),
                before.may_edit(prompt_id, author_id),
                forall|j: int| 0 <= j < tag_ids@.len() ==> before.has_tag(#[trigger] tag_ids@[j]),
                self@ == before.with_tags(prompt_id, tag_ids@.take(k as int).to_set()),
        {
            let ghost current = self@;
            let added = self.insert_tag_link(prompt_id, tag_ids[k]);
            proof {
                assert(before.has_tag(tag_ids@[k as int]));
                assert(current.has_tag(tag_ids@[k as int]));
                assert(current.tag_link_fault(prompt_id, tag_ids@[k as int]) is None);
                assert(tag_ids@.take(k + 1) =~= tag_ids@.take(k as int).push(tag_ids@[k as int]));
                tag_ids@.take(k as int).lemma_push_to_set_commute(tag_ids@[k as int]);
                assert(self@.prompt_tags =~= before.with_tags(
                    prompt_id,
                    tag_ids@.take(k + 1).to_set(),
                ).prompt_tags);
            }
        }
        proof {
            assert(tag_ids@.take(tag_ids@.len() as int) =~= tag_ids@);
            before.lemma_with_tags(prompt_id, tag_ids@.to_set());
        }
        Ok(())
    }

    /// Stars the prompt for the user, or takes the star back if there is one.
    ///
    /// A star cannot be added for a prompt or a user that does not exist,
    /// nor beyond what the store can count; such a refusal changes nothing.
    pub fn toggle_star(&mut self, prompt_id: i64, user_id: i64) -> (result: Result<
        StarToggle,
        RepoError,
    >)
        requires
            old(self).wf(),
        ensures
            final(self).wf(),
            result == old(self)@.toggle_outcome(prompt_id, user_id),
            final(self)@ == old(self)@.toggled(prompt_id, user_id),
    {
        if self.has_star(prompt_id, user_id) {
            self.delete_star(prompt_id, user_id);
            Ok(StarToggle::Unstarred)
        } else {
            match self.insert_star(prompt_id, user_id) {
                Ok(_) => Ok(StarToggle::Starred),
                Err(detail) => Err(RepoError::StorageError(detail)),
            }
        }
    }
}

impl Database {
    /// After the tag set of a prompt was replaced, the prompt carries the
    /// new tags and no others, and every other prompt the tags it had.
    pub proof fn lemma_with_tags(self, prompt_id: i64, tag_ids: Set<i64>)
        ensures
            self.with_tags(prompt_id, tag_ids).tag_ids_of(prompt_id) == tag_ids,
            forall|other: i64|
                other != prompt_id ==> #[trigger] self.with_tags(prompt_id, tag_ids).tag_ids_of(
                    other,
                ) == self.tag_ids_of(other),
    {
        let after = self.with_tags(prompt_id, tag_ids);
        assert(after.tag_ids_of(prompt_id) =~= tag_ids) by {
            assert forall|t: i64| after.tag_ids_of(prompt_id).contains(t) == tag_ids.contains(
                t,
            ) by {
                assert(links_to(prompt_id, tag_ids).contains((prompt_id, t)) == tag_ids.contains(
                    t,
                ));
            }
        }
        assert forall|other: i64| other != prompt_id implies #[trigger] after.tag_ids_of(other)
            == self.tag_ids_of(other) by {
            assert(after.tag_ids_of(other) =~= self.tag_ids_of(other));
        }
    }

    /// Toggling a star twice in a row leaves the state as it was.
    pub proof fn lemma_toggle_twice(self, prompt_id: i64, user_id: i64)
        requires
            self.valid(),
        ensures
            self.toggled(prompt_id, user_id).toggled(prompt_id, user_id) == self,
    {
        let once = self.toggled(prompt_id, user_id);
        let twice = once.toggled(prompt_id, user_id);
        let star = (prompt_id, user_id);
        if self.prompt_stars.contains(star) {
            assert(self.prompt_stars.contains((prompt_id, user_id)));
            assert(self.has_prompt(prompt_id) && self.has_user(user_id));
            self.lemma_same_rows(once);
            assert(once.prompt_stars.len() < self.prompt_stars.len());
            assert(once.star_fault(prompt_id, user_id) is None);
            assert(twice.prompt_stars =~= self.prompt_stars);
        } else if self.star_fault(prompt_id, user_id) is None {
            assert(twice.prompt_stars =~= self.prompt_stars);
        }
    }

    /// A pair of prompt and user is starred or not: toggling moves between
    /// the two, and the number of stars of the prompt moves by one with it.
    pub proof fn lemma_toggle_counts(self, prompt_id: i64, user_id: i64)
        requires
            self.valid(),
        ensures
            self.toggle_outcome(prompt_id, user_id) == Ok::<StarToggle, RepoError>(
                StarToggle::Starred,
            ) ==> self.toggled(prompt_id, user_id).star_count(prompt_id) == self.star_count(
                prompt_id,
            ) + 1,
            self.toggle_outcome(prompt_id, user_id) == Ok::<StarToggle, RepoError>(
                StarToggle::Unstarred,
            ) ==> self.toggled(prompt_id, user_id).star_count(prompt_id) + 1 == self.star_count(
                prompt_id,
            ),
            self.toggle_outcome(prompt_id, user_id) is Err ==> self.toggled(prompt_id, user_id)
                == self,
    {
        let star = (prompt_id, user_id);
        let after = self.toggled(prompt_id, user_id);
        let mine = of_prompt(prompt_id);
        self.prompt_stars.lemma_len_filter(mine);
        if self.prompt_stars.contains(star) {
            assert(after.stars_of(prompt_id) =~= self.stars_of(prompt_id).remove(star));
        } else if self.star_fault(prompt_id, user_id) is None {
            assert(after.stars_of(prompt_id) =~= self.stars_of(prompt_id).insert(star));
        }
    }
}

impl Database {
    /// The tags that a row shows for a prompt are the tags joined to it
    /// through `prompt_tags`: each such tag once, and no other.
    pub proof fn lemma_tags_of(self, prompt_id: i64)
        requires
            self.valid(),
        ensures
            normalized_tags(aggregated_tags(self.tags_of(prompt_id))) == self.tags_of(prompt_id),
            self.tags_of(prompt_id).no_duplicates(),
            forall|tag: TagView| #[trigger]
                self.tags_of(prompt_id).contains(tag) <==> self.tags.contains(tag)
                    && self.prompt_tags.contains((prompt_id, tag.id)),
            self.tags_of(prompt_id).map_values(|tag: TagView| tag.id).to_set()
                == self.tag_ids_of(prompt_id),
    {
        let joined = self.joined_to(prompt_id);
        let mine = self.tags_of(prompt_id);
        assert(normalized_tags(aggregated_tags(mine)) =~= mine);
        assert(self.tags.no_duplicates()) by {
            assert forall|i: int, j: int|
                0 <= i < self.tags.len() && 0 <= j < self.tags.len() && i != j implies self.tags[i]
                != self.tags[j] by {
                if i < j {
                    assert(self.tags[i].id < self.tags[j].id);
                } else {
                    assert(self.tags[j].id < self.tags[i].id);
                }
            }
        }
        lemma_filter_no_duplicates(self.tags, joined);
        assert forall|tag: TagView| #[trigger]
            mine.contains(tag) <==> self.tags.contains(tag) && self.prompt_tags.contains(
                (prompt_id, tag.id),
            ) by {
            lemma_filter_membership(self.tags, joined, tag);
        }
        let ids = mine.map_values(|tag: TagView| tag.id);
        assert forall|tag_id: i64| ids.to_set().contains(tag_id) == self.tag_ids_of(
            prompt_id,
        ).contains(tag_id) by {
            if ids.contains(tag_id) {
                let k = choose|k: int| 0 <= k < ids.len() && ids[k] == tag_id;
                assert(mine.contains(mine[k]));
            }
            if self.prompt_tags.contains((prompt_id, tag_id)) {
                assert(self.has_tag(tag_id));
                let i = choose|i: int|
                    0 <= i < self.tags.len() && (#[trigger] self.tags[i]).id == tag_id;
                assert(self.tags.contains(self.tags[i]));
                assert(mine.contains(self.tags[i]));
                let k = choose|k: int| 0 <= k < mine.len() && mine[k] == self.tags[i];
                assert(ids[k] == tag_id);
            }
        }
        assert(ids.to_set() =~= self.tag_ids_of(prompt_id));
    }

    /// The feed shows exactly the prompts with an author that were created
    /// within the window, newest first, and of each the number of its stars.
    pub proof fn lemma_feed(self, viewer: Option<i64>, window_days: i64, now: i64)
        requires
            self.valid(),
        ensures
            ({
                let scope = Scope::Since { cutoff: window_start(now, window_days) as i128 };
                let whole = self.feed(viewer, 0, window_days, self.prompts.len(), now);
                &&& whole.len() == self.listing(scope).len()
                &&& is_newest_first(self.listing(scope))
                &&& forall|prompt: PromptView| #[trigger]
                    self.listing(scope).contains(prompt) <==> self.prompts.contains(prompt)
                        && prompt.user_id is Some && prompt.created_at >= window_start(
                        now,
                        window_days,
                    )
                &&& forall|k: int|
                    0 <= k < whole.len() ==> (#[trigger] whole[k]).id == self.listing(scope)[k].id
                        && whole[k].star_count == self.star_count(whole[k].id)
            }),
    {
        let scope = Scope::Since { cutoff: window_start(now, window_days) as i128 };
        self.lemma_listing(scope);
        let listed = self.listing(scope);
        assert(page(listed, 0, self.prompts.len()) =~= listed);
        let whole = self.feed(viewer, 0, window_days, self.prompts.len(), now);
        assert forall|k: int| 0 <= k < whole.len() implies (#[trigger] whole[k]).id
            == listed[k].id && whole[k].star_count == self.star_count(whole[k].id) by {
            let id = listed[k].id;
            self.prompt_stars.lemma_len_filter(of_prompt(id));
        }
    }
}

} // verus!
