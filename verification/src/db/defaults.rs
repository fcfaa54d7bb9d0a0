//! The tags that every store starts with.

use vstd::prelude::*;
use crate::db::{Database, TagView};
use crate::seqs::lemma_filter_membership;

verus! {

/// How many tags a fresh store is seeded with.
pub const DEFAULT_TAG_COUNT: usize = 6;

/// The tags that every store starts with: name, kind, background colour
/// and text colour of the tag at position `i`.
pub open spec fn default_tag(i: int) -> (Seq<char>, Seq<char>, Seq<char>, Seq<char>) {
    if i == 0 {
        ("Writing"@, "category"@, "F0DFFF"@, "46006E"@)
    } else if i == 1 {
        ("Brainstorming"@, "category"@, "FFEBCD"@, "783C00"@)
    } else if i == 2 {
        ("Role-playing"@, "category"@, "E0FFF5"@, "006450"@)
    } else if i == 3 {
        ("Summary"@, "category"@, "DAEDFF"@, "00468C"@)
    } else if i == 4 {
        ("System"@, "category"@, "FFF5C8"@, "786400"@)
    } else {
        ("Games"@, "category"@, "D0F2FF"@, "005A78"@)
    }
}

/// The default tag at position `i`.
pub(crate) fn default_tag_at(i: usize) -> (tag: (&'static str, &'static str, &'static str, &'static str))
    requires
        i < DEFAULT_TAG_COUNT,
    ensures
        (tag.0@, tag.1@, tag.2@, tag.3@) == default_tag(i as int),
{
    if i == 0 {
        ("Writing", "category", "F0DFFF", "46006E")
    } else if i == 1 {
        ("Brainstorming", "category", "FFEBCD", "783C00")
    } else if i == 2 {
        ("Role-playing", "category", "E0FFF5", "006450")
    } else if i == 3 {
        ("Summary", "category", "DAEDFF", "00468C")
    } else if i == 4 {
        ("System", "category", "FFF5C8", "786400")
    } else {
        ("Games", "category", "D0F2FF", "005A78")
    }
}

/// No two default tags have one name.
pub proof fn lemma_default_names_differ()
    ensures
        forall|i: int, j: int|
            0 <= i < j < DEFAULT_TAG_COUNT ==> (#[trigger] default_tag(i)).0 != (
            #[trigger] default_tag(j)).0,
{
    reveal_strlit("Writing");
    reveal_strlit("Brainstorming");
    reveal_strlit("Role-playing");
    reveal_strlit("Summary");
    reveal_strlit("System");
    reveal_strlit("Games");
    assert(default_tag(0).0.len() == 7 && default_tag(0).0[0] == 'W');
    assert(default_tag(1).0.len() == 13);
    assert(default_tag(2).0.len() == 12);
    assert(default_tag(3).0.len() == 7 && default_tag(3).0[0] == 'S');
    assert(default_tag(4).0.len() == 6);
    assert(default_tag(5).0.len() == 5);
    assert forall|i: int, j: int| 0 <= i < j < DEFAULT_TAG_COUNT implies (
    #[trigger] default_tag(i)).0 != (#[trigger] default_tag(j)).0 by {
        if i == 0 && j == 3 {
            assert(default_tag(i).0[0] != default_tag(j).0[0]);
        } else {
            assert(default_tag(i).0.len() != default_tag(j).0.len());
        }
    }
}

/// The tags of one name, of whatever kind.
pub open spec fn named(name: Seq<char>) -> spec_fn(TagView) -> bool {
    |tag: TagView| tag.name == name
}

impl Database {
    /// Whether a tag has this name, of whatever kind.
    pub open spec fn has_tag_name(self, name: Seq<char>) -> bool {
        exists|i: int| 0 <= i < self.tags.len() && (#[trigger] self.tags[i]).name == name
    }

    /// The rows of `tags` with this name.
    pub open spec fn tags_named(self, name: Seq<char>) -> Seq<TagView> {
        self.tags.filter(named(name))
    }

    /// Whether seeding passes a default tag over: a tag has its name
    /// already, or the store refuses the row.
    pub open spec fn skips_default(
        self,
        name: Seq<char>,
        kind: Seq<char>,
        bg_color: Seq<char>,
        text_color: Seq<char>,
    ) -> bool {
        self.has_tag_name(name) || self.tag_fault(name, kind, bg_color, text_color) is Some
    }

    /// The state after one default tag was seeded: inserted under the next
    /// key unless it is passed over.
    pub open spec fn with_default_tag(
        self,
        name: Seq<char>,
        kind: Seq<char>,
        bg_color: Seq<char>,
        text_color: Seq<char>,
    ) -> Database {
        if self.skips_default(name, kind, bg_color, text_color) {
            self
        } else {
            self.with_tag(
                TagView { id: self.next_tag_id() as i64, name, bg_color, text_color, kind },
            )
        }
    }

    /// The state after the first `n` default tags were seeded.
    pub open spec fn seeded_upto(self, n: nat) -> Database
        decreases n,
    {
        if n == 0 {
            self
        } else {
            let tag = default_tag(n - 1);
            self.seeded_upto((n - 1) as nat).with_default_tag(tag.0, tag.1, tag.2, tag.3)
        }
    }

    /// The state after seeding: each default tag was inserted unless a tag
    /// had its name or the store could take no more tags.
    pub open spec fn seeded(self) -> Database {
        self.seeded_upto(DEFAULT_TAG_COUNT as nat)
    }

    /// Whether every default name is the name of a tag.
    pub open spec fn has_default_tags(self) -> bool {
        forall|i: int|
            0 <= i < DEFAULT_TAG_COUNT ==> self.has_tag_name((#[trigger] default_tag(i)).0)
    }

    /// A name is the name of a tag exactly if `tags` has a row with it.
    pub proof fn lemma_tags_named(self, name: Seq<char>)
        ensures
            self.has_tag_name(name) == (self.tags_named(name).len() > 0),
    {
        let rows = self.tags_named(name);
        if rows.len() > 0 {
            assert(rows.contains(rows[0]));
            lemma_filter_membership(self.tags, named(name), rows[0]);
            let i = choose|i: int| 0 <= i < self.tags.len() && self.tags[i] == rows[0];
            assert(self.tags[i].name == name);
        }
        if self.has_tag_name(name) {
            let i = choose|i: int|
                0 <= i < self.tags.len() && (#[trigger] self.tags[i]).name == name;
            assert(self.tags.contains(self.tags[i]));
            lemma_filter_membership(self.tags, named(name), self.tags[i]);
            let k = choose|k: int| 0 <= k < rows.len() && rows[k] == self.tags[i];
        }
    }

    /// What seeding one default tag does: the rows that were there stay as
    /// they are, no other table changes, a name gets a row only if it had
    /// none, and whatever seeding passed over before it passes over after.
    pub proof fn lemma_with_default_tag(
        self,
        name: Seq<char>,
        kind: Seq<char>,
        bg_color: Seq<char>,
        text_color: Seq<char>,
    )
        ensures
            ({
                let after = self.with_default_tag(name, kind, bg_color, text_color);
                &&& self.tags.is_prefix_of(after.tags)
                &&& after.users == self.users
                &&& after.prompts == self.prompts
                &&& after.prompt_tags == self.prompt_tags
                &&& after.prompt_stars == self.prompt_stars
                &&& after.skips_default(name, kind, bg_color, text_color)
                &&& forall|n: Seq<char>, k: Seq<char>, b: Seq<char>, t: Seq<char>|
                    self.skips_default(n, k, b, t) ==> #[trigger] after.skips_default(n, k, b, t)
                &&& forall|n: Seq<char>|
                    self.tags_named(n).len() <= (#[trigger] after.tags_named(n)).len()
                &&& forall|n: Seq<char>|
                    (#[trigger] after.tags_named(n)).len() <= if self.tags_named(n).len() == 0 {
                        1
                    } else {
                        self.tags_named(n).len()
                    }
            }),
    {
        let after = self.with_default_tag(name, kind, bg_color, text_color);
        if self.skips_default(name, kind, bg_color, text_color) {
        } else {
            let row = TagView { id: self.next_tag_id() as i64, name, bg_color, text_color, kind };
            assert(after.tags == self.tags.push(row));
            assert(after.tags[self.tags.len() as int].name == name);
            assert(after.has_tag_name(name));
            assert forall|n: Seq<char>, k: Seq<char>, b: Seq<char>, t: Seq<char>|
                self.skips_default(n, k, b, t) implies #[trigger] after.skips_default(
                n,
                k,
                b,
                t,
            ) by {
                if self.has_tag_name(n) {
                    let i = choose|i: int|
                        0 <= i < self.tags.len() && (#[trigger] self.tags[i]).name == n;
                    assert(after.tags[i].name == n);
                } else if self.has_tag_named(n, k) {
                    let i = choose|i: int|
                        0 <= i < self.tags.len() && (#[trigger] self.tags[i]).name == n
                            && self.tags[i].kind == k;
                    assert(after.tags[i].name == n);
                }
            }
            assert forall|n: Seq<char>|
                self.tags_named(n).len() <= (#[trigger] after.tags_named(n)).len()
                    && after.tags_named(n).len() <= if self.tags_named(n).len() == 0 {
                    1
                } else {
                    self.tags_named(n).len()
                } by {
                self.tags.lemma_filter_push(row, named(n));
                self.lemma_tags_named(n);
            }
        }
    }

    /// What seeding does to the rows: those that were there stay as they
    /// are, no other table changes, and a name gets a row only if it had
    /// none. So each default name that no tag had is, once every default
    /// name is the name of a tag, on one row exactly.
    pub proof fn lemma_seeded_upto(self, n: nat)
        ensures
            ({
                let after = self.seeded_upto(n);
                &&& self.tags.is_prefix_of(after.tags)
                &&& after.users == self.users
                &&& after.prompts == self.prompts
                &&& after.prompt_tags == self.prompt_tags
                &&& after.prompt_stars == self.prompt_stars
                &&& forall|name: Seq<char>|
                    self.tags_named(name).len() <= (#[trigger] after.tags_named(name)).len()
                &&& forall|name: Seq<char>|
                    (#[trigger] after.tags_named(name)).len() <= if self.tags_named(name).len()
                        == 0 {
                        1
                    } else {
                        self.tags_named(name).len()
                    }
            }),
        decreases n,
    {
        if n > 0 {
            let tag = default_tag(n - 1);
            let before = self.seeded_upto((n - 1) as nat);
            self.lemma_seeded_upto((n - 1) as nat);
            before.lemma_with_default_tag(tag.0, tag.1, tag.2, tag.3);
            let after = self.seeded_upto(n);
            assert forall|name: Seq<char>|
                self.tags_named(name).len() <= (#[trigger] after.tags_named(name)).len()
                    && after.tags_named(name).len() <= if self.tags_named(name).len() == 0 {
                    1
                } else {
                    self.tags_named(name).len()
                } by {
                assert(before.tags_named(name).len() <= after.tags_named(name).len());
            }
        }
    }

    /// Seeding adds no second row of a name: every row that was there is
    /// still there, unchanged; no other table changes; a name that tags had
    /// has as many rows as before; and once every default name is the name
    /// of a tag, each default name that no tag had is on one row exactly.
    pub proof fn lemma_seeded(self)
        ensures
            self.tags.is_prefix_of(self.seeded().tags),
            self.seeded().users == self.users,
            self.seeded().prompts == self.prompts,
            self.seeded().prompt_tags == self.prompt_tags,
            self.seeded().prompt_stars == self.prompt_stars,
            forall|name: Seq<char>|
                self.has_tag_name(name) ==> (#[trigger] self.seeded().tags_named(name)).len()
                    == self.tags_named(name).len(),
            forall|i: int|
                0 <= i < DEFAULT_TAG_COUNT && self.seeded().has_default_tags()
                    && !self.has_tag_name((#[trigger] default_tag(i)).0)
                    ==> self.seeded().tags_named(default_tag(i).0).len() == 1,
    {
        let after = self.seeded();
        self.lemma_seeded_upto(DEFAULT_TAG_COUNT as nat);
        assert forall|name: Seq<char>| self.has_tag_name(name) implies (
        #[trigger] after.tags_named(name)).len() == self.tags_named(name).len() by {
            self.lemma_tags_named(name);
        }
        assert forall|i: int|
            0 <= i < DEFAULT_TAG_COUNT && after.has_default_tags() && !self.has_tag_name(
                (#[trigger] default_tag(i)).0,
            ) implies after.tags_named(default_tag(i).0).len() == 1 by {
            let name = default_tag(i).0;
            self.lemma_tags_named(name);
            after.lemma_tags_named(name);
            assert(after.has_tag_name(name));
            assert(after.tags_named(name).len() <= 1);
        }
    }

    /// How many of the first `n` default names no tag has.
    pub open spec fn missing_defaults(self, n: nat) -> nat
        decreases n,
    {
        if n == 0 {
            0
        } else {
            self.missing_defaults((n - 1) as nat) + if self.has_tag_name(default_tag(n - 1).0) {
                0nat
            } else {
                1nat
            }
        }
    }

    /// A name that a tag has after more default tags were seeded is one that
    /// a tag had before, or the name of one of those default tags.
    proof fn lemma_seeded_names(self, m: nat, n: nat, name: Seq<char>)
        requires
            m <= n,
            self.seeded_upto(n).has_tag_name(name),
        ensures
            self.seeded_upto(m).has_tag_name(name) || exists|j: int|
                m <= j < n && (#[trigger] default_tag(j)).0 == name,
        decreases n,
    {
        if n > m {
            let tag = default_tag(n - 1);
            let before = self.seeded_upto((n - 1) as nat);
            let after = self.seeded_upto(n);
            let i = choose|i: int|
                0 <= i < after.tags.len() && (#[trigger] after.tags[i]).name == name;
            if i < before.tags.len() {
                before.lemma_with_default_tag(tag.0, tag.1, tag.2, tag.3);
                assert(before.tags[i].name == name);
                self.lemma_seeded_names(m, (n - 1) as nat, name);
            } else {
                assert(default_tag(n - 1).0 == name);
            }
        }
    }

    /// The rows that seeding the first `n` default tags adds, where seeding
    /// as a whole leaves no default name without a tag.
    proof fn lemma_seeded_count_upto(self, n: nat)
        requires
            n <= DEFAULT_TAG_COUNT,
            self.seeded().has_default_tags(),
        ensures
            self.seeded_upto(n).tags.len() == self.tags.len() + self.missing_defaults(n),
        decreases n,
    {
        if n > 0 {
            self.lemma_seeded_count_upto((n - 1) as nat);
            let tag = default_tag(n - 1);
            let name = tag.0;
            let before = self.seeded_upto((n - 1) as nat);
            let after = self.seeded_upto(n);
            self.lemma_seeded_upto((n - 1) as nat);
            lemma_default_names_differ();
            if self.has_tag_name(name) {
                let i = choose|i: int|
                    0 <= i < self.tags.len() && (#[trigger] self.tags[i]).name == name;
                assert(before.tags[i].name == name);
            } else {
                if before.has_tag_name(name) {
                    self.lemma_seeded_names(0, (n - 1) as nat, name);
                }
                if before.tag_fault(tag.0, tag.1, tag.2, tag.3) is Some {
                    assert(self.seeded().has_tag_name(default_tag(n - 1).0));
                    self.lemma_seeded_names(n, DEFAULT_TAG_COUNT as nat, name);
                }
            }
        }
    }

    /// Seeding adds one row for each default name that no tag had, and no
    /// other, where it leaves no default name without a tag.
    pub proof fn lemma_seeded_count(self)
        requires
            self.seeded().has_default_tags(),
        ensures
            self.seeded().tags.len() == self.tags.len() + self.missing_defaults(
                DEFAULT_TAG_COUNT as nat,
            ),
    {
        self.lemma_seeded_count_upto(DEFAULT_TAG_COUNT as nat);
    }

    /// Once the first `n` default tags are seeded, seeding passes each of
    /// them over.
    proof fn lemma_seeded_skips(self, n: nat, i: int)
        requires
            0 <= i < n,
        ensures
            self.seeded_upto(n).skips_default(
                default_tag(i).0,
                default_tag(i).1,
                default_tag(i).2,
                default_tag(i).3,
            ),
        decreases n,
    {
        let tag = default_tag(n - 1);
        let before = self.seeded_upto((n - 1) as nat);
        before.lemma_with_default_tag(tag.0, tag.1, tag.2, tag.3);
        if i < n - 1 {
            self.lemma_seeded_skips((n - 1) as nat, i);
        }
    }

    /// Seeding a seeded store changes nothing.
    proof fn lemma_reseeded(self, n: nat, m: nat)
        requires
            m <= n,
        ensures
            self.seeded_upto(n).seeded_upto(m) == self.seeded_upto(n),
        decreases m,
    {
        if m > 0 {
            self.lemma_reseeded(n, (m - 1) as nat);
            self.lemma_seeded_skips(n, m - 1);
        }
    }

    /// Seeding is idempotent: seeding twice leaves what seeding once leaves.
    pub proof fn lemma_seed_idempotent(self)
        ensures
            self.seeded().seeded() == self.seeded(),
    {
        self.lemma_reseeded(DEFAULT_TAG_COUNT as nat, DEFAULT_TAG_COUNT as nat);
    }
}

} // verus!
