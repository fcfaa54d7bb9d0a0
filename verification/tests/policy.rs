use prompt_hub::cors::{origin_allowed, PRODUCTION_ORIGIN};
use prompt_hub::http::Reply;
use prompt_hub::routes::{access, guard, status, Access, Failure, Route, STORAGE_ERROR_TEXT};

#[test]
fn extensions_and_production_are_always_allowed() {
    for production in [false, true] {
        assert!(origin_allowed("moz-extension://0a1b2c", production));
        assert!(origin_allowed("chrome-extension://abcdef", production));
        assert!(origin_allowed("https://tombotower.eu", production));
    }
    assert_eq!(PRODUCTION_ORIGIN, "https://tombotower.eu");
}

#[test]
fn local_origins_are_allowed_outside_production() {
    for origin in
        ["http://localhost", "http://localhost:3000", "http://127.0.0.1", "http://127.0.0.1:8080"]
    {
        assert!(origin_allowed(origin, false));
        assert!(!origin_allowed(origin, true));
    }
}

#[test]
fn origins_are_matched_by_prefix() {
    assert!(origin_allowed("moz-extension://", false));
    assert!(!origin_allowed("moz-extension:/", false));
    assert!(!origin_allowed("xmoz-extension://a", false));
    assert!(origin_allowed("http://localhost.evil.example", false));
    assert!(!origin_allowed("http://localhos", false));
}

#[test]
fn other_origins_are_refused() {
    for production in [false, true] {
        assert!(!origin_allowed("", production));
        assert!(!origin_allowed("https://example.com", production));
        assert!(!origin_allowed("https://tombotower.eu/", production));
        assert!(!origin_allowed("http://tombotower.eu", production));
        assert!(!origin_allowed("https://localhost", production));
        assert!(!origin_allowed("moz-extension:/x", production));
        assert!(!origin_allowed(" chrome-extension://x", production));
    }
}

#[test]
fn routes_that_change_or_show_private_things_ask_for_a_login() {
    for route in [
        Route::Dashboard,
        Route::NewPromptForm,
        Route::NewPrompt,
        Route::TagEditor,
        Route::Star,
    ] {
        assert_eq!(access(route), Access::LoginRequired);
    }
    assert_eq!(access(Route::Tags), Access::AuthorOnly);
    for route in [
        Route::Feed,
        Route::Prompt,
        Route::PromptRaw,
        Route::Signup,
        Route::Login,
        Route::Logout,
        Route::ApiPrompts,
        Route::ApiProfile,
        Route::Asset,
    ] {
        assert_eq!(access(route), Access::Public);
    }
}

#[test]
fn guard_sends_the_anonymous_to_the_login() {
    match guard(Route::Dashboard, None, "/dashboard") {
        Some(Reply::Redirect { location, flash }) => {
            assert_eq!(location, "/login?next=/dashboard");
            assert!(flash.is_none());
        }
        other => panic!("{other:?}"),
    }
    match guard(Route::Tags, None, "/prompt/3/tags") {
        Some(Reply::Redirect { location, .. }) => assert_eq!(location, "/login?next=/prompt/3/tags"),
        other => panic!("{other:?}"),
    }
}

#[test]
fn guard_lets_everyone_else_through() {
    assert!(guard(Route::Dashboard, Some(1), "/dashboard").is_none());
    assert!(guard(Route::Tags, Some(1), "/prompt/3/tags").is_none());
    assert!(guard(Route::Feed, None, "/").is_none());
    assert!(guard(Route::ApiPrompts, None, "/api/prompts").is_none());
    assert!(guard(Route::ApiProfile, None, "/api/profile").is_none());
    assert!(guard(Route::PromptRaw, None, "/prompt/1/raw").is_none());
}

#[test]
fn failures_have_their_status() {
    assert_eq!(status(Failure::NotFound), 404);
    assert_eq!(status(Failure::Forbidden), 401);
    assert_eq!(status(Failure::StorageError), 500);
    assert_eq!(status(Failure::Unauthorized), 303);
    assert_eq!(status(Failure::ValidationError), 303);
    assert_eq!(status(Failure::UsernameTaken), 303);
    assert_eq!(STORAGE_ERROR_TEXT, "Database error");
}
