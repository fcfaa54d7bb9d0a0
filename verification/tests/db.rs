use prompt_hub::db::{PromptRecord, StorageDetail};
use prompt_hub::db::defaults::DEFAULT_TAG_COUNT;
use prompt_hub::db::settings::{database_url, is_production, MAX_CONNECTIONS};
use prompt_hub::db::seed;
use prompt_hub::db::store::{check_color_code, Store};
use prompt_hub::prompts::Tag;
use prompt_hub::users::User;

fn user(id: i64, username: &str) -> User {
    User { id, username: username.to_string(), email: String::new(), password: "$argon2id$h".to_string() }
}

fn prompt(id: i64, user_id: Option<i64>, content: &str) -> PromptRecord {
    PromptRecord {
        id,
        user_id,
        parent_prompt_id: None,
        title: "t".to_string(),
        description: String::new(),
        content: content.to_string(),
        created_at: 0,
    }
}

fn tag(id: i64, name: &str, kind: &str) -> Tag {
    Tag {
        id,
        name: name.to_string(),
        bg_color: "FFFFFF".to_string(),
        text_color: "000000".to_string(),
        kind: kind.to_string(),
    }
}

fn small_store() -> Store {
    let mut store = Store::new();
    assert_eq!(seed(&mut store), Ok(()));
    assert_eq!(store.insert_user("alice".into(), "a@x".into(), "$argon2id$h1".into()), Ok(1));
    assert_eq!(store.insert_user("bob".into(), "b@x".into(), "$argon2id$h2".into()), Ok(2));
    assert_eq!(
        store.insert_prompt(Some(1), None, "Greet".into(), "d".into(), "Hello".into(), 100),
        Ok(1)
    );
    store
}

#[test]
fn new_store_is_empty() {
    let store = Store::new();
    assert!(store.users().is_empty());
    assert!(store.prompts().is_empty());
    assert!(store.tags().is_empty());
    assert!(store.tag_links().is_empty());
    assert!(store.stars().is_empty());
}

#[test]
fn seed_inserts_the_default_tags_in_order() {
    let mut store = Store::new();
    assert_eq!(seed(&mut store), Ok(()));
    let tags = store.tags();
    assert_eq!(tags.len(), DEFAULT_TAG_COUNT);
    let expected = [
        ("Writing", "F0DFFF", "46006E"),
        ("Brainstorming", "FFEBCD", "783C00"),
        ("Role-playing", "E0FFF5", "006450"),
        ("Summary", "DAEDFF", "00468C"),
        ("System", "FFF5C8", "786400"),
        ("Games", "D0F2FF", "005A78"),
    ];
    for (i, (name, bg_color, text_color)) in expected.iter().enumerate() {
        assert_eq!(tags[i].id, i as i64 + 1);
        assert_eq!(tags[i].name, *name);
        assert_eq!(tags[i].kind, "category");
        assert_eq!(tags[i].bg_color, *bg_color);
        assert_eq!(tags[i].text_color, *text_color);
    }
}

#[test]
fn seed_twice_is_seed_once() {
    let mut store = Store::new();
    assert_eq!(seed(&mut store), Ok(()));
    assert_eq!(seed(&mut store), Ok(()));
    assert_eq!(store.tags().len(), 6);
    assert_eq!(store.tags()[5].id, 6);
}

#[test]
fn seed_fills_in_what_is_missing() {
    let mut store = Store::new();
    assert_eq!(
        store.insert_tag("Summary".into(), "category".into(), "111111".into(), "222222".into()),
        Ok(1)
    );
    assert_eq!(seed(&mut store), Ok(()));
    let tags = store.tags();
    assert_eq!(tags.len(), 6);
    assert_eq!(tags[0].name, "Summary");
    assert_eq!(tags[0].bg_color, "111111");
    assert_eq!(tags[1].name, "Writing");
    assert_eq!(tags[3].name, "Role-playing");
    assert_eq!(tags[4].name, "System");
}

#[test]
fn seed_goes_by_name() {
    let mut store = Store::new();
    assert_eq!(
        store.insert_tag("Writing".into(), "model".into(), "111111".into(), "222222".into()),
        Ok(1)
    );
    assert_eq!(seed(&mut store), Ok(()));
    assert_eq!(store.tags().len(), 6);
    let writing: Vec<_> = store.tags().iter().filter(|tag| tag.name == "Writing").collect();
    assert_eq!(writing.len(), 1);
    assert_eq!(writing[0].kind, "model");
    assert_eq!(writing[0].bg_color, "111111");
}

#[test]
fn seed_leaves_each_default_name_on_one_row() {
    let mut store = Store::new();
    store.insert_tag("Games".into(), "genre".into(), "111111".into(), "222222".into()).unwrap();
    store.insert_tag("Other".into(), "category".into(), "111111".into(), "222222".into()).unwrap();
    assert_eq!(seed(&mut store), Ok(()));
    assert_eq!(seed(&mut store), Ok(()));
    assert_eq!(store.tags().len(), 7);
    for name in ["Writing", "Brainstorming", "Role-playing", "Summary", "System", "Games"] {
        assert_eq!(store.tags().iter().filter(|tag| tag.name == name).count(), 1, "{name}");
        assert!(store.has_tag_name(name));
    }
    assert!(!store.has_tag_name("writing"));
}

#[test]
fn seed_reports_a_full_tag_table() {
    let mut store =
        Store::restore(vec![], vec![], vec![tag(i64::MAX, "Last", "category")], vec![], vec![])
            .unwrap();
    assert_eq!(seed(&mut store), Err(StorageDetail::KeySpaceExhausted));
    assert_eq!(store.tags().len(), 1);
}

#[test]
fn insert_user_enforces_the_constraints() {
    let mut store = small_store();
    assert_eq!(
        store.insert_user("".into(), "e".into(), "$argon2id$h".into()),
        Err(StorageDetail::CheckViolation)
    );
    assert_eq!(
        store.insert_user(" \n".into(), "e".into(), "$argon2id$h".into()),
        Err(StorageDetail::CheckViolation)
    );
    assert_eq!(
        store.insert_user("alice".into(), "e".into(), "$argon2id$h".into()),
        Err(StorageDetail::UniqueViolation)
    );
    assert_eq!(
        store.insert_user("carol".into(), "e".into(), "password1".into()),
        Err(StorageDetail::CheckViolation)
    );
    assert_eq!(
        store.insert_user("carol".into(), "e".into(), "".into()),
        Err(StorageDetail::CheckViolation)
    );
    assert_eq!(store.users().len(), 2);
    // the e-mail address need not be unique
    assert_eq!(store.insert_user("carol".into(), "a@x".into(), "$argon2id$h".into()), Ok(3));
}

#[test]
fn insert_prompt_enforces_the_constraints() {
    let mut store = small_store();
    assert_eq!(
        store.insert_prompt(Some(1), None, "t".into(), "d".into(), "".into(), 0),
        Err(StorageDetail::CheckViolation)
    );
    assert_eq!(
        store.insert_prompt(Some(9), None, "t".into(), "d".into(), "c".into(), 0),
        Err(StorageDetail::ForeignKeyViolation)
    );
    assert_eq!(
        store.insert_prompt(Some(1), Some(9), "t".into(), "d".into(), "c".into(), 0),
        Err(StorageDetail::ForeignKeyViolation)
    );
    assert_eq!(store.prompts().len(), 1);
    assert_eq!(store.insert_prompt(None, Some(1), "".into(), "".into(), "c".into(), 0), Ok(2));
    let stored = &store.prompts()[1];
    assert_eq!(stored.user_id, None);
    assert_eq!(stored.parent_prompt_id, Some(1));
}

#[test]
fn insert_prompt_reports_a_full_table() {
    let mut store =
        Store::restore(vec![], vec![prompt(i64::MAX, None, "c")], vec![], vec![], vec![]).unwrap();
    assert_eq!(
        store.insert_prompt(None, None, "t".into(), "d".into(), "c".into(), 0),
        Err(StorageDetail::KeySpaceExhausted)
    );
}

#[test]
fn insert_tag_enforces_the_constraints() {
    let mut store = small_store();
    assert_eq!(
        store.insert_tag("New".into(), "category".into(), "FFF".into(), "000000".into()),
        Err(StorageDetail::CheckViolation)
    );
    assert_eq!(
        store.insert_tag("New".into(), "category".into(), "FFFFFF".into(), "00000G".into()),
        Err(StorageDetail::CheckViolation)
    );
    assert_eq!(
        store.insert_tag("Games".into(), "category".into(), "FFFFFF".into(), "000000".into()),
        Err(StorageDetail::UniqueViolation)
    );
    assert_eq!(
        store.insert_tag("Games".into(), "genre".into(), "ffffff".into(), "0a0B0c".into()),
        Ok(7)
    );
}

#[test]
fn color_codes_are_six_hex_digits() {
    assert!(check_color_code("F0DFFF"));
    assert!(check_color_code("abcdef"));
    assert!(check_color_code("012345"));
    assert!(!check_color_code(""));
    assert!(!check_color_code("F0DFF"));
    assert!(!check_color_code("F0DFFFF"));
    assert!(!check_color_code("F0DFFG"));
    assert!(!check_color_code("#F0DFF"));
    assert!(!check_color_code("F0DFFé"));
    assert!(!check_color_code("１２３４５６"));
}

#[test]
fn stars_are_a_set() {
    let mut store = small_store();
    assert_eq!(store.insert_star(1, 2), Ok(true));
    assert_eq!(store.insert_star(1, 2), Ok(false));
    assert_eq!(store.stars().len(), 1);
    assert!(store.has_star(1, 2));
    assert!(!store.has_star(2, 1));
    assert_eq!(store.insert_star(1, 1), Ok(true));
    assert_eq!(store.count_stars(1), 2);
    assert_eq!(store.count_stars(2), 0);
    assert!(store.delete_star(1, 2));
    assert!(!store.delete_star(1, 2));
    assert_eq!(store.count_stars(1), 1);
    assert_eq!(store.stars(), &vec![(1, 1)]);
}

#[test]
fn stars_refer_to_existing_rows() {
    let mut store = small_store();
    assert_eq!(store.insert_star(9, 1), Err(StorageDetail::ForeignKeyViolation));
    assert_eq!(store.insert_star(1, 9), Err(StorageDetail::ForeignKeyViolation));
    assert!(store.stars().is_empty());
}

#[test]
fn tag_links_are_a_set() {
    let mut store = small_store();
    assert_eq!(store.insert_tag_link(1, 3), Ok(true));
    assert_eq!(store.insert_tag_link(1, 3), Ok(false));
    assert_eq!(store.insert_tag_link(1, 1), Ok(true));
    assert_eq!(store.tag_links().len(), 2);
    assert!(store.has_tag_link(1, 3));
    assert!(!store.has_tag_link(3, 1));
    assert_eq!(store.insert_tag_link(1, 7), Err(StorageDetail::ForeignKeyViolation));
    assert_eq!(store.insert_tag_link(2, 1), Err(StorageDetail::ForeignKeyViolation));
    store.delete_tag_links(1);
    assert!(store.tag_links().is_empty());
}

#[test]
fn delete_tag_links_leaves_other_prompts_alone() {
    let mut store = small_store();
    assert_eq!(
        store.insert_prompt(Some(2), None, "Other".into(), "".into(), "c".into(), 0),
        Ok(2)
    );
    assert_eq!(store.insert_tag_link(1, 1), Ok(true));
    assert_eq!(store.insert_tag_link(2, 1), Ok(true));
    assert_eq!(store.insert_tag_link(1, 2), Ok(true));
    store.delete_tag_links(1);
    assert_eq!(store.tag_links(), &vec![(2, 1)]);
}

#[test]
fn lookups_find_rows_by_key_and_name() {
    let store = small_store();
    assert_eq!(store.find_user(2).unwrap().username, "bob");
    assert!(store.find_user(3).is_none());
    assert_eq!(store.find_user_named("alice").unwrap().id, 1);
    assert!(store.find_user_named("Alice").is_none());
    assert_eq!(store.find_prompt(1).unwrap().title, "Greet");
    assert!(store.find_prompt(2).is_none());
    assert!(store.has_tag(6));
    assert!(!store.has_tag(7));
    assert!(store.has_tag_named("System", "category"));
    assert!(!store.has_tag_named("System", "other"));
}

#[test]
fn restore_takes_valid_rows() {
    let store = Store::restore(
        vec![user(3, "alice"), user(8, "bob")],
        vec![prompt(2, Some(8), "c"), prompt(5, None, "c")],
        vec![tag(1, "A", "k"), tag(4, "A", "other")],
        vec![(2, 1), (5, 4), (2, 4)],
        vec![(2, 3), (2, 8)],
    )
    .unwrap();
    assert_eq!(store.users().len(), 2);
    assert_eq!(store.count_stars(2), 2);
    assert_eq!(store.tags_of(2).len(), 2);
}

#[test]
fn restore_continues_the_keys() {
    let mut store =
        Store::restore(vec![user(3, "alice"), user(8, "bob")], vec![], vec![], vec![], vec![])
            .unwrap();
    assert_eq!(store.insert_user("carol".into(), "".into(), "$argon2id$h".into()), Ok(9));
}

#[test]
fn restore_refuses_rows_that_break_an_invariant() {
    // keys out of order
    assert!(Store::restore(vec![user(2, "a"), user(1, "b")], vec![], vec![], vec![], vec![])
        .is_none());
    // a key twice
    assert!(Store::restore(vec![user(1, "a"), user(1, "b")], vec![], vec![], vec![], vec![])
        .is_none());
    // a name twice
    assert!(Store::restore(vec![user(1, "a"), user(2, "a")], vec![], vec![], vec![], vec![])
        .is_none());
    // a blank name
    assert!(Store::restore(vec![user(1, " ")], vec![], vec![], vec![], vec![]).is_none());
    // a password column that holds no hash
    let mut plain = user(1, "a");
    plain.password = "password1".to_string();
    assert!(Store::restore(vec![plain], vec![], vec![], vec![], vec![]).is_none());
    // empty content
    assert!(Store::restore(vec![], vec![prompt(1, None, "")], vec![], vec![], vec![]).is_none());
    // an author that does not exist
    assert!(Store::restore(vec![], vec![prompt(1, Some(1), "c")], vec![], vec![], vec![])
        .is_none());
    // a parent that does not exist
    let mut orphan = prompt(1, None, "c");
    orphan.parent_prompt_id = Some(2);
    assert!(Store::restore(vec![], vec![orphan], vec![], vec![], vec![]).is_none());
    // a tag name and kind twice
    assert!(Store::restore(vec![], vec![], vec![tag(1, "A", "k"), tag(2, "A", "k")], vec![], vec![])
        .is_none());
    // a colour that is none
    let mut pale = tag(1, "A", "k");
    pale.bg_color = "white".to_string();
    assert!(Store::restore(vec![], vec![], vec![pale], vec![], vec![]).is_none());
    // a link to nowhere
    assert!(Store::restore(vec![], vec![prompt(1, None, "c")], vec![], vec![(1, 1)], vec![])
        .is_none());
    // a star twice
    assert!(Store::restore(
        vec![user(1, "a")],
        vec![prompt(1, None, "c")],
        vec![],
        vec![],
        vec![(1, 1), (1, 1)]
    )
    .is_none());
    // a star of nobody
    assert!(Store::restore(vec![], vec![prompt(1, None, "c")], vec![], vec![], vec![(1, 1)])
        .is_none());
}

#[test]
fn restore_accepts_a_prompt_that_is_its_own_parent_row_order_aside() {
    let mut child = prompt(2, None, "c");
    child.parent_prompt_id = Some(1);
    assert!(Store::restore(vec![], vec![prompt(1, None, "c"), child], vec![], vec![], vec![])
        .is_some());
}

#[test]
fn database_url_depends_on_the_mode() {
    assert_eq!(database_url(false), "sqlite://db.sqlite?mode=rwc");
    assert_eq!(database_url(true), "sqlite:///var/lib/data/db.sqlite?mode=rwc");
    assert_eq!(MAX_CONNECTIONS, 5);
}

#[test]
fn production_is_asked_for_by_name() {
    assert!(is_production("PROD"));
    assert!(!is_production(""));
    assert!(!is_production("prod"));
    assert!(!is_production("PRODUCTION"));
}
