use prompt_hub::backend::{
    claims, get_prompt_by_id_handler, get_prompts_handler, login_handler, LoginRequest,
    ACCESS_TOKEN_SECONDS, REFRESH_TOKEN_SECONDS,
};
use prompt_hub::db::PromptRecord;
use prompt_hub::db::seed;
use prompt_hub::db::store::Store;

const NOW: i64 = 1_700_000_000;

fn site() -> Store {
    let mut store = Store::new();
    seed(&mut store).unwrap();
    store.signup("alice", "a@x", "password1").unwrap();
    store.signup("bob", "b@x", "password2").unwrap();
    store.create_prompt(1, "Greet", "d", "Hello", NOW - 10).unwrap();
    store.create_prompt(2, "Later", "", "World", NOW).unwrap();
    store.set_tags(1, 1, &vec![5, 1]).unwrap();
    store.toggle_star(1, 2).unwrap();
    store
}

fn request(username: &str, password: &str) -> LoginRequest {
    LoginRequest { username: username.into(), password: password.into() }
}

#[test]
fn claims_expire_after_their_lifetime() {
    let access = claims("17", false, NOW).unwrap();
    assert_eq!(access.sub, "17");
    assert_eq!(access.iat, NOW);
    assert_eq!(access.exp, NOW + 3_600);
    let refresh = claims("17", true, NOW).unwrap();
    assert_eq!(refresh.iat, NOW);
    assert_eq!(refresh.exp, NOW + 30 * 86_400);
    assert_eq!(ACCESS_TOKEN_SECONDS, 3_600);
    assert_eq!(REFRESH_TOKEN_SECONDS, 2_592_000);
}

#[test]
fn claims_need_an_expiry_that_can_be_written() {
    assert_eq!(claims("1", false, i64::MAX - 3_600).unwrap().exp, i64::MAX);
    assert!(claims("1", false, i64::MAX - 3_599).is_none());
    assert!(claims("1", true, i64::MAX - 3_600).is_none());
    assert_eq!(claims("1", true, i64::MIN).unwrap().exp, i64::MIN + 2_592_000);
}

#[test]
fn login_grants_both_tokens() {
    let store = site();
    let grant = login_handler(&store, &request("bob", "password2"), NOW).unwrap();
    assert_eq!(grant.user.id, 2);
    assert_eq!(grant.user.username, "bob");
    assert_eq!(grant.access.sub, "2");
    assert_eq!(grant.access.iat, NOW);
    assert_eq!(grant.access.exp, NOW + 3_600);
    assert_eq!(grant.refresh.sub, "2");
    assert_eq!(grant.refresh.exp, NOW + 2_592_000);
}

#[test]
fn login_refuses_bad_credentials_alike() {
    let store = site();
    for attempt in [request("bob", "password1"), request("carol", "password2")] {
        let (status, body) = login_handler(&store, &attempt, NOW).unwrap_err();
        assert_eq!(status, 401);
        assert_eq!(body.error, "Invalid credentials");
    }
}

#[test]
fn login_reports_a_hash_it_cannot_read() {
    let mut store = site();
    store.register("mallory", "m@x", "$argon2 is no hash".into()).unwrap();
    let lanes = "$argon2id$v=19$m=8,t=1,p=536870912$c29tZXNhbHQ$AAAAAAAAAAAAAAAAAAAAAAAAAAAAAAAAAAAAAAAAAAA";
    store.register("trudy", "t@x", lanes.into()).unwrap();
    for name in ["mallory", "trudy"] {
        let (status, body) = login_handler(&store, &request(name, "password1"), NOW).unwrap_err();
        assert_eq!(status, 500);
        assert_eq!(body.error, "Invalid password hash");
    }
}

#[test]
fn login_reports_tokens_it_cannot_date() {
    let store = site();
    let (status, body) =
        login_handler(&store, &request("bob", "password2"), i64::MAX).unwrap_err();
    assert_eq!(status, 500);
    assert_eq!(body.error, "Failed to generate access token");
    let (status, body) =
        login_handler(&store, &request("bob", "password2"), i64::MAX - 3_600).unwrap_err();
    assert_eq!(status, 500);
    assert_eq!(body.error, "Failed to generate refresh token");
}

#[test]
fn prompts_come_newest_first_with_all_that_belongs_to_them() {
    let store = site();
    let prompts = get_prompts_handler(&store, None);
    assert_eq!(prompts.iter().map(|prompt| prompt.id).collect::<Vec<_>>(), vec![2, 1]);
    let greet = &prompts[1];
    assert_eq!(greet.title, "Greet");
    assert_eq!(greet.content, "Hello");
    assert_eq!(greet.description, "d");
    assert_eq!(greet.created_at, NOW - 10);
    assert_eq!(greet.user_id, Some(1));
    assert_eq!(greet.parent_prompt_id, None);
    let author = greet.author.as_ref().unwrap();
    assert_eq!(author.id, 1);
    assert_eq!(author.username, "alice");
    assert_eq!(greet.tags.iter().map(|tag| tag.name.as_str()).collect::<Vec<_>>(), vec![
        "Writing", "System"
    ]);
    assert_eq!(greet.star_count, 1);
    assert_eq!(greet.is_starred, None);
    assert_eq!(prompts[0].star_count, 0);
    assert!(prompts[0].tags.is_empty());
}

#[test]
fn prompts_can_be_limited() {
    let store = site();
    let count = |limit| get_prompts_handler(&store, limit).len();
    assert_eq!(count(Some(0)), 0);
    assert_eq!(count(Some(1)), 1);
    assert_eq!(get_prompts_handler(&store, Some(1))[0].id, 2);
    assert_eq!(count(Some(2)), 2);
    assert_eq!(count(Some(3)), 2);
    assert_eq!(count(Some(i64::MAX)), 2);
    assert_eq!(count(Some(-1)), 2);
    assert_eq!(count(Some(i64::MIN)), 2);
    assert_eq!(count(None), 2);
}

#[test]
fn prompts_are_not_bound_to_the_feed_window() {
    let mut store = site();
    store.create_prompt(1, "Ancient", "", "c", 0).unwrap();
    assert_eq!(get_prompts_handler(&store, None).len(), 3);
}

#[test]
fn prompts_without_an_author_are_shown_without_one() {
    let legacy = PromptRecord {
        id: 4,
        user_id: None,
        parent_prompt_id: None,
        title: "legacy".into(),
        description: String::new(),
        content: "c".into(),
        created_at: NOW,
    };
    let store = Store::restore(vec![], vec![legacy], vec![], vec![], vec![]).unwrap();
    let prompts = get_prompts_handler(&store, None);
    assert_eq!(prompts.len(), 1);
    assert!(prompts[0].author.is_none());
    assert_eq!(prompts[0].user_id, None);
    assert!(get_prompt_by_id_handler(&store, 4).unwrap().author.is_none());
}

#[test]
fn prompt_by_id_is_found_or_not() {
    let store = site();
    let greet = get_prompt_by_id_handler(&store, 1).unwrap();
    assert_eq!(greet.id, 1);
    assert_eq!(greet.author.unwrap().username, "alice");
    assert_eq!(greet.tags.len(), 2);
    assert_eq!(greet.star_count, 1);
    let (status, body) = get_prompt_by_id_handler(&store, 3).unwrap_err();
    assert_eq!(status, 404);
    assert_eq!(body.error, "Prompt not found");
}
