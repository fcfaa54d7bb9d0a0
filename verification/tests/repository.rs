use prompt_hub::db::{PromptRecord, StorageDetail};
use prompt_hub::db::seed;
use prompt_hub::db::store::Store;
use prompt_hub::prompts::repository::{
    Field, RepoError, Scope, StarToggle, FEED_PAGE_SIZE, FEED_WINDOW_DAYS, SECONDS_PER_DAY,
};
use prompt_hub::users::User;

const NOW: i64 = 1_700_000_000;

fn seeded() -> Store {
    let mut store = Store::new();
    assert_eq!(seed(&mut store), Ok(()));
    assert_eq!(store.insert_user("alice".into(), "a@x".into(), "$argon2id$h1".into()), Ok(1));
    assert_eq!(store.insert_user("bob".into(), "b@x".into(), "$argon2id$h2".into()), Ok(2));
    store
}

fn with_greeting() -> Store {
    let mut store = seeded();
    assert_eq!(store.create_prompt(1, "Greet", "d", "Hello", NOW), Ok(1));
    store
}

fn ids(store: &Store, viewer: Option<i64>, offset: usize, limit: usize) -> Vec<i64> {
    store
        .list_feed(viewer, offset, FEED_WINDOW_DAYS, limit, NOW)
        .iter()
        .map(|row| row.id)
        .collect()
}

#[test]
fn create_prompt_stores_the_columns() {
    let store = with_greeting();
    let stored = &store.prompts()[0];
    assert_eq!(stored.id, 1);
    assert_eq!(stored.user_id, Some(1));
    assert_eq!(stored.parent_prompt_id, None);
    assert_eq!(stored.title, "Greet");
    assert_eq!(stored.description, "d");
    assert_eq!(stored.content, "Hello");
    assert_eq!(stored.created_at, NOW);
}

#[test]
fn create_prompt_counts_keys_up() {
    let mut store = with_greeting();
    assert_eq!(store.create_prompt(2, "Second", "", "c", NOW), Ok(2));
    assert_eq!(store.create_prompt(1, "Third", "", "c", NOW), Ok(3));
}

#[test]
fn create_prompt_validates_title_and_content() {
    let mut store = seeded();
    assert_eq!(
        store.create_prompt(1, "", "d", "Hello", NOW),
        Err(RepoError::ValidationError { field: Field::Title })
    );
    assert_eq!(
        store.create_prompt(1, "Greet", "d", "", NOW),
        Err(RepoError::ValidationError { field: Field::Content })
    );
    assert_eq!(
        store.create_prompt(1, "", "d", "", NOW),
        Err(RepoError::ValidationError { field: Field::Title })
    );
    assert!(store.prompts().is_empty());
    // an empty description is fine, and so is a title of spaces
    assert_eq!(store.create_prompt(1, " ", "", " ", NOW), Ok(1));
}

#[test]
fn create_prompt_needs_an_author_that_exists() {
    let mut store = seeded();
    assert_eq!(
        store.create_prompt(9, "Greet", "d", "Hello", NOW),
        Err(RepoError::StorageError(StorageDetail::ForeignKeyViolation))
    );
    assert!(store.prompts().is_empty());
}

#[test]
fn feed_row_carries_prompt_author_stars_and_tags() {
    let mut store = with_greeting();
    assert_eq!(store.set_tags(1, 1, &vec![4, 1]), Ok(()));
    assert_eq!(store.toggle_star(1, 2), Ok(StarToggle::Starred));
    let rows = store.list_feed(Some(2), 0, FEED_WINDOW_DAYS, FEED_PAGE_SIZE, NOW);
    assert_eq!(rows.len(), 1);
    let row = &rows[0];
    assert_eq!(row.id, 1);
    assert_eq!(row.title, "Greet");
    assert_eq!(row.description, "d");
    assert_eq!(row.author, "alice");
    assert_eq!(row.author_id, 1);
    assert_eq!(row.created_at, Some(NOW));
    assert_eq!(row.star_count, 1);
    assert_eq!(row.is_starred, Some(true));
    let tags = row.tags.as_ref().unwrap().as_ref().unwrap();
    assert_eq!(tags.len(), 2);
    assert_eq!(tags[0].id, 1);
    assert_eq!(tags[0].name, "Writing");
    assert_eq!(tags[0].bg_color, "F0DFFF");
    assert_eq!(tags[1].id, 4);
    assert_eq!(tags[1].name, "Summary");
}

#[test]
fn feed_row_without_tags_has_no_tag_list() {
    let store = with_greeting();
    let rows = store.list_feed(None, 0, FEED_WINDOW_DAYS, FEED_PAGE_SIZE, NOW);
    assert!(rows[0].tags.is_none());
    assert_eq!(rows[0].star_count, 0);
}

#[test]
fn feed_tells_each_viewer_their_own_stars() {
    let mut store = with_greeting();
    assert_eq!(store.toggle_star(1, 2), Ok(StarToggle::Starred));
    let feed = |viewer| store.list_feed(viewer, 0, 30, 20, NOW)[0].is_starred;
    assert_eq!(feed(None), None);
    assert_eq!(feed(Some(1)), Some(false));
    assert_eq!(feed(Some(2)), Some(true));
}

#[test]
fn feed_star_count_is_the_number_of_star_rows() {
    let mut store = with_greeting();
    assert_eq!(store.create_prompt(2, "Other", "", "c", NOW), Ok(2));
    assert_eq!(store.toggle_star(1, 1), Ok(StarToggle::Starred));
    assert_eq!(store.toggle_star(1, 2), Ok(StarToggle::Starred));
    assert_eq!(store.toggle_star(2, 2), Ok(StarToggle::Starred));
    // tags must not multiply the stars
    assert_eq!(store.set_tags(1, 1, &vec![1, 2, 3]), Ok(()));
    for row in store.list_feed(None, 0, 30, 20, NOW) {
        let rows_of_prompt = store.stars().iter().filter(|star| star.0 == row.id).count();
        assert_eq!(row.star_count, rows_of_prompt as i64);
        assert_eq!(row.star_count, if row.id == 1 { 2 } else { 1 });
    }
}

#[test]
fn feed_is_newest_first() {
    let mut store = seeded();
    assert_eq!(store.create_prompt(1, "old", "", "c", NOW - 300), Ok(1));
    assert_eq!(store.create_prompt(1, "new", "", "c", NOW - 100), Ok(2));
    assert_eq!(store.create_prompt(2, "mid", "", "c", NOW - 200), Ok(3));
    assert_eq!(store.create_prompt(2, "newest", "", "c", NOW), Ok(4));
    assert_eq!(ids(&store, None, 0, 20), vec![4, 2, 3, 1]);
}

#[test]
fn feed_orders_prompts_of_one_moment_by_key() {
    let mut store = seeded();
    for _ in 0..3 {
        store.create_prompt(1, "t", "", "c", NOW).unwrap();
    }
    assert_eq!(store.create_prompt(1, "t", "", "c", NOW + 1), Ok(4));
    assert_eq!(ids(&store, None, 0, 20), vec![4, 3, 2, 1]);
}

#[test]
fn feed_leaves_out_what_is_older_than_the_window() {
    let mut store = seeded();
    assert_eq!(store.create_prompt(1, "stale", "", "c", NOW - 31 * SECONDS_PER_DAY), Ok(1));
    assert_eq!(store.create_prompt(1, "edge", "", "c", NOW - 30 * SECONDS_PER_DAY), Ok(2));
    assert_eq!(store.create_prompt(1, "past", "", "c", NOW - 30 * SECONDS_PER_DAY - 1), Ok(3));
    assert_eq!(store.create_prompt(1, "fresh", "", "c", NOW), Ok(4));
    assert_eq!(ids(&store, None, 0, 20), vec![4, 2]);
}

#[test]
fn feed_window_can_be_set() {
    let mut store = seeded();
    assert_eq!(store.create_prompt(1, "a", "", "c", NOW - 2 * SECONDS_PER_DAY), Ok(1));
    assert_eq!(store.create_prompt(1, "b", "", "c", NOW), Ok(2));
    let feed = |days| {
        store.list_feed(None, 0, days, 20, NOW).iter().map(|row| row.id).collect::<Vec<_>>()
    };
    assert_eq!(feed(1), vec![2]);
    assert_eq!(feed(2), vec![2, 1]);
    assert_eq!(feed(0), vec![2]);
    assert_eq!(feed(-1), Vec::<i64>::new());
    assert_eq!(feed(i64::MAX), vec![2, 1]);
    assert_eq!(feed(i64::MIN), Vec::<i64>::new());
}

#[test]
fn feed_pages_by_offset_and_limit() {
    let mut store = seeded();
    for i in 0..25 {
        store.create_prompt(1, "t", "", "c", NOW - 100 + i).unwrap();
    }
    let first = ids(&store, None, 0, FEED_PAGE_SIZE);
    assert_eq!(first.len(), 20);
    assert_eq!(first[0], 25);
    assert_eq!(first[19], 6);
    assert_eq!(ids(&store, None, 20, FEED_PAGE_SIZE), vec![5, 4, 3, 2, 1]);
    assert_eq!(ids(&store, None, 23, 1), vec![2]);
    assert_eq!(ids(&store, None, 25, 20), Vec::<i64>::new());
    assert_eq!(ids(&store, None, 26, 20), Vec::<i64>::new());
    assert_eq!(ids(&store, None, usize::MAX, usize::MAX), Vec::<i64>::new());
    assert_eq!(ids(&store, None, 0, 0), Vec::<i64>::new());
    assert_eq!(ids(&store, None, 0, usize::MAX).len(), 25);
}

#[test]
fn feed_leaves_out_prompts_without_an_author() {
    let legacy = PromptRecord {
        id: 1,
        user_id: None,
        parent_prompt_id: None,
        title: "legacy".into(),
        description: String::new(),
        content: "c".into(),
        created_at: NOW,
    };
    let store = Store::restore(vec![], vec![legacy], vec![], vec![], vec![]).unwrap();
    assert!(store.list_feed(None, 0, 30, 20, NOW).is_empty());
    assert_eq!(store.get_prompt(1, None).unwrap_err(), RepoError::NotFound);
    assert_eq!(store.get_prompt_content(1), Ok("c".to_string()));
}

#[test]
fn listing_scopes() {
    let mut store = seeded();
    assert_eq!(store.create_prompt(1, "a", "", "c", 10), Ok(1));
    assert_eq!(store.create_prompt(2, "b", "", "c", 30), Ok(2));
    assert_eq!(store.create_prompt(1, "c", "", "c", 20), Ok(3));
    assert_eq!(store.listing(Scope::Everything), vec![1, 2, 0]);
    assert_eq!(store.listing(Scope::Author { user_id: 1 }), vec![2, 0]);
    assert_eq!(store.listing(Scope::Author { user_id: 3 }), Vec::<usize>::new());
    assert_eq!(store.listing(Scope::Since { cutoff: 20 }), vec![1, 2]);
    assert_eq!(store.listing(Scope::Since { cutoff: 31 }), Vec::<usize>::new());
}

#[test]
fn get_prompt_joins_everything() {
    let mut store = with_greeting();
    assert_eq!(store.set_tags(1, 1, &vec![1]), Ok(()));
    assert_eq!(store.toggle_star(1, 1), Ok(StarToggle::Starred));
    let row = store.get_prompt(1, Some(2)).unwrap();
    assert_eq!(row.id, 1);
    assert_eq!(row.title, "Greet");
    assert_eq!(row.description, "d");
    assert_eq!(row.content, "Hello");
    assert_eq!(row.author, "alice");
    assert_eq!(row.author_id, 1);
    assert_eq!(row.created_at, Some(NOW));
    assert_eq!(row.star_count, 1);
    assert_eq!(row.is_starred, Some(false));
    assert_eq!(row.tags.unwrap().unwrap()[0].name, "Writing");
}

#[test]
fn get_prompt_reports_a_missing_prompt() {
    let store = with_greeting();
    assert_eq!(store.get_prompt(2, None).unwrap_err(), RepoError::NotFound);
    assert_eq!(store.get_prompt(0, Some(1)).unwrap_err(), RepoError::NotFound);
    assert_eq!(store.get_prompt(-1, None).unwrap_err(), RepoError::NotFound);
}

#[test]
fn get_prompt_content_is_the_stored_text() {
    let mut store = with_greeting();
    assert_eq!(store.create_prompt(2, "Markup", "", "<b>&amp;</b>\n", NOW), Ok(2));
    assert_eq!(store.get_prompt_content(1), Ok("Hello".to_string()));
    assert_eq!(store.get_prompt_content(2), Ok("<b>&amp;</b>\n".to_string()));
    assert_eq!(store.get_prompt_content(3), Err(RepoError::NotFound));
}

#[test]
fn set_tags_replaces_the_whole_set() {
    let mut store = with_greeting();
    assert_eq!(store.set_tags(1, 1, &vec![1, 2]), Ok(()));
    assert_eq!(store.tag_links(), &vec![(1, 1), (1, 2)]);
    assert_eq!(store.set_tags(1, 1, &vec![3]), Ok(()));
    assert_eq!(store.tag_links(), &vec![(1, 3)]);
    assert_eq!(store.set_tags(1, 1, &vec![]), Ok(()));
    assert!(store.tag_links().is_empty());
}

#[test]
fn set_tags_ignores_duplicates() {
    let mut store = with_greeting();
    assert_eq!(store.set_tags(1, 1, &vec![2, 5, 2, 2, 5]), Ok(()));
    let mut linked: Vec<i64> = store.tag_links().iter().map(|link| link.1).collect();
    linked.sort();
    assert_eq!(linked, vec![2, 5]);
    let tags = store.tags_of(1);
    assert_eq!(tags.iter().map(|tag| tag.id).collect::<Vec<_>>(), vec![2, 5]);
}

#[test]
fn set_tags_leaves_other_prompts_alone() {
    let mut store = with_greeting();
    assert_eq!(store.create_prompt(2, "Other", "", "c", NOW), Ok(2));
    assert_eq!(store.set_tags(2, 2, &vec![6]), Ok(()));
    assert_eq!(store.set_tags(1, 1, &vec![1]), Ok(()));
    assert_eq!(store.set_tags(1, 1, &vec![2]), Ok(()));
    assert_eq!(store.tags_of(2)[0].name, "Games");
    assert_eq!(store.tags_of(1)[0].name, "Brainstorming");
    assert_eq!(store.tag_links().len(), 2);
}

#[test]
fn set_tags_is_for_the_author_only() {
    let mut store = with_greeting();
    assert_eq!(store.set_tags(1, 1, &vec![1]), Ok(()));
    assert_eq!(store.set_tags(1, 2, &vec![2]), Err(RepoError::Forbidden));
    assert_eq!(store.set_tags(1, 9, &vec![2]), Err(RepoError::Forbidden));
    assert_eq!(store.set_tags(2, 1, &vec![2]), Err(RepoError::Forbidden));
    // forbidden comes before unknown tags
    assert_eq!(store.set_tags(1, 2, &vec![99]), Err(RepoError::Forbidden));
    assert_eq!(store.tag_links(), &vec![(1, 1)]);
}

#[test]
fn set_tags_with_an_unknown_tag_changes_nothing() {
    let mut store = with_greeting();
    assert_eq!(store.set_tags(1, 1, &vec![1, 2]), Ok(()));
    assert_eq!(store.set_tags(1, 1, &vec![3, 99, 4, 77]), Err(RepoError::UnknownTag(99)));
    assert_eq!(store.set_tags(1, 1, &vec![0]), Err(RepoError::UnknownTag(0)));
    assert_eq!(store.set_tags(1, 1, &vec![7, 7]), Err(RepoError::UnknownTag(7)));
    assert_eq!(store.tag_links(), &vec![(1, 1), (1, 2)]);
}

#[test]
fn toggle_star_adds_then_removes() {
    let mut store = with_greeting();
    assert_eq!(store.toggle_star(1, 1), Ok(StarToggle::Starred));
    assert!(store.has_star(1, 1));
    assert_eq!(store.count_stars(1), 1);
    assert_eq!(store.toggle_star(1, 1), Ok(StarToggle::Unstarred));
    assert!(!store.has_star(1, 1));
    assert_eq!(store.count_stars(1), 0);
}

#[test]
fn toggle_star_twice_restores_the_state() {
    let mut store = with_greeting();
    assert_eq!(store.toggle_star(1, 2), Ok(StarToggle::Starred));
    // from unstarred
    let before = store.stars().clone();
    store.toggle_star(1, 1).unwrap();
    store.toggle_star(1, 1).unwrap();
    assert_eq!(store.stars(), &before);
    // from starred
    let mut before = store.stars().clone();
    assert_eq!(store.toggle_star(1, 2), Ok(StarToggle::Unstarred));
    assert_eq!(store.toggle_star(1, 2), Ok(StarToggle::Starred));
    let mut after = store.stars().clone();
    before.sort();
    after.sort();
    assert_eq!(after, before);
    assert_eq!(store.count_stars(1), 1);
}

#[test]
fn toggle_star_keeps_one_row_per_pair() {
    let mut store = with_greeting();
    for round in 0..7 {
        store.toggle_star(1, 1).unwrap();
        store.toggle_star(1, 2).unwrap();
        if round % 2 == 0 {
            store.toggle_star(1, 1).unwrap();
        }
        let stars = store.stars();
        for (i, a) in stars.iter().enumerate() {
            for b in &stars[i + 1..] {
                assert_ne!(a, b);
            }
        }
    }
}

#[test]
fn toggle_star_needs_prompt_and_user() {
    let mut store = with_greeting();
    assert_eq!(
        store.toggle_star(2, 1),
        Err(RepoError::StorageError(StorageDetail::ForeignKeyViolation))
    );
    assert_eq!(
        store.toggle_star(1, 3),
        Err(RepoError::StorageError(StorageDetail::ForeignKeyViolation))
    );
    assert!(store.stars().is_empty());
}

#[test]
fn list_user_prompts_is_newest_first_and_own_only() {
    let mut store = seeded();
    assert_eq!(store.create_prompt(1, "first", "", "one", NOW - 10), Ok(1));
    assert_eq!(store.create_prompt(2, "theirs", "", "two", NOW - 5), Ok(2));
    assert_eq!(store.create_prompt(1, "old", "", "three", NOW - 40 * SECONDS_PER_DAY), Ok(3));
    assert_eq!(store.create_prompt(1, "last", "", "four", NOW), Ok(4));
    let own = store.list_user_prompts(1);
    let seen: Vec<(i64, &str, &str)> =
        own.iter().map(|row| (row.id, row.title.as_str(), row.content.as_str())).collect();
    assert_eq!(seen, vec![(4, "last", "four"), (1, "first", "one"), (3, "old", "three")]);
    assert!(store.list_user_prompts(3).is_empty());
}

#[test]
fn all_tags_lists_every_tag() {
    let store = seeded();
    let names: Vec<String> = store.all_tags().into_iter().map(|tag| tag.name).collect();
    assert_eq!(names, vec!["Writing", "Brainstorming", "Role-playing", "Summary", "System", "Games"]);
}

#[test]
fn restored_users_can_be_authors() {
    let alice = User { id: 5, username: "alice".into(), email: "".into(), password: "$argon2id$h".into() };
    let mut store = Store::restore(vec![alice], vec![], vec![], vec![], vec![]).unwrap();
    assert_eq!(store.create_prompt(5, "t", "", "c", NOW), Ok(1));
    assert_eq!(store.list_feed(None, 0, 30, 20, NOW)[0].author, "alice");
}
