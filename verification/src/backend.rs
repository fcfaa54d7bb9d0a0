//! The token-based JSON surface: login against the stored accounts, and
//! prompts with their authors, tags and stars for clients that render
//! them on their own.

use vstd::prelude::*;
use crate::db::{prompt_views, Database, PromptRecord, PromptView, TagView};
use crate::db::store::Store;
use crate::prompts::repository::{pick, Scope};
use crate::prompts::{tag_views, Tag};
use crate::text::{decimal, decimal_string};
use crate::users::{hash_verdict, LoginCheck, Verdict};

verus! {

/// How long an access token lasts, in seconds: an hour.
pub const ACCESS_TOKEN_SECONDS: i64 = 3_600;

/// How long a refresh token lasts, in seconds: thirty days.
pub const REFRESH_TOKEN_SECONDS: i64 = 2_592_000;

/// What a token states: whom it is for, until when it holds, and when it
/// was issued. Times count seconds since the Unix epoch.
#[derive(Debug)]
pub struct Claims {
    pub sub: String,
    pub exp: i64,
    pub iat: i64,
}

/// [`Claims`], as the contracts see them.
pub struct ClaimsView {
    pub sub: Seq<char>,
    pub exp: i64,
    pub iat: i64,
}

impl View for Claims {
    type V = ClaimsView;

    open spec fn view(&self) -> ClaimsView {
        ClaimsView { sub: self.sub@, exp: self.exp, iat: self.iat }
    }
}

/// How long a token of either kind lasts.
pub open spec fn lifetime(is_refresh: bool) -> int {
    if is_refresh {
        REFRESH_TOKEN_SECONDS as int
    } else {
        ACCESS_TOKEN_SECONDS as int
    }
}

/// The claims of a token issued at `now`, unless it would expire after the
/// last moment that can be written down.
pub open spec fn claims_at(user_id: Seq<char>, is_refresh: bool, now: i64) -> Option<ClaimsView> {
    if now + lifetime(is_refresh) <= i64::MAX {
        Some(ClaimsView { sub: user_id, exp: (now + lifetime(is_refresh)) as i64, iat: now })
    } else {
        None
    }
}

/// The claims of a token for `user_id` issued at `now`.
pub fn claims(user_id: &str, is_refresh: bool, now: i64) -> (claims: Option<Claims>)
    ensures
        match claims {
            Some(claims) => Some(claims@) == claims_at(user_id@, is_refresh, now),
            None => claims_at(user_id@, is_refresh, now) is None,
        },
{
    let span: i64 = if is_refresh {
        REFRESH_TOKEN_SECONDS
    } else {
        ACCESS_TOKEN_SECONDS
    };
    match now.checked_add(span) {
        Some(exp) => Some(Claims { sub: user_id.to_owned(), exp, iat: now }),
        None => None,
    }
}

/// The body of a login request.
#[derive(Debug)]
pub struct LoginRequest {
    pub username: String,
    pub password: String,
}

/// The account that a login answers with.
#[derive(Debug)]
pub struct User {
    pub id: i64,
    pub username: String,
}

/// What a successful login grants: the account, and the claims of the two
/// tokens to sign for it.
#[derive(Debug)]
pub struct LoginGrant {
    pub access: Claims,
    pub refresh: Claims,
    pub user: User,
}

/// A [`LoginGrant`], as the contracts see it.
pub struct LoginGrantView {
    pub access: ClaimsView,
    pub refresh: ClaimsView,
    pub user_id: i64,
    pub username: Seq<char>,
}

impl View for LoginGrant {
    type V = LoginGrantView;

    open spec fn view(&self) -> LoginGrantView {
        LoginGrantView {
            access: self.access@,
            refresh: self.refresh@,
            user_id: self.user.id,
            username: self.user.username@,
        }
    }
}

/// The body of a failure.
#[derive(Debug)]
pub struct ErrorResponse {
    pub error: String,
}

/// A failure: its status code and the text of its body.
pub open spec fn failure_view(failure: (u16, ErrorResponse)) -> (u16, Seq<char>) {
    (failure.0, failure.1.error@)
}

fn failure(status: u16, error: &str) -> (failure: (u16, ErrorResponse))
    ensures
        failure_view(failure) == (status, error@),
{
    (status, ErrorResponse { error: error.to_owned() })
}

impl Database {
    /// What a login with this name and password at `now` is answered.
    ///
    /// An unknown name and a wrong password are both `401`; a stored hash
    /// that cannot be read, or that names a degree of parallelism out of
    /// bounds, is `500`, and so is a token that cannot be dated.
    pub open spec fn login_answer(self, username: Seq<char>, password: Seq<char>, now: i64)
        -> Result<LoginGrantView, (u16, Seq<char>)> {
        if !self.has_username(username) {
            Err((401u16, "Invalid credentials"@))
        } else {
            let user = self.user_named(username);
            let sub = decimal(user.id as int);
            match hash_verdict(password, user.password) {
                Verdict::Malformed => Err((500u16, "Invalid password hash"@)),
                Verdict::Mismatch => Err((401u16, "Invalid credentials"@)),
                Verdict::Match => match (claims_at(sub, false, now), claims_at(sub, true, now)) {
                    (None, _) => Err((500u16, "Failed to generate access token"@)),
                    (Some(_), None) => Err((500u16, "Failed to generate refresh token"@)),
                    (Some(access), Some(refresh)) => Ok(
                        LoginGrantView {
                            access,
                            refresh,
                            user_id: user.id,
                            username: user.username,
                        },
                    ),
                },
            }
        }
    }
}

/// Answers a login request at `now`.
pub fn login_handler(store: &Store, payload: &LoginRequest, now: i64) -> (result: Result<
    LoginGrant,
    (u16, ErrorResponse),
>)
    requires
        store.wf(),
    ensures
        store@.login_answer(payload.username@, payload.password@, now) == match result {
            Ok(grant) => Ok::<LoginGrantView, (u16, Seq<char>)>(grant@),
            Err(failure) => Err::<LoginGrantView, (u16, Seq<char>)>(failure_view(failure)),
        },
{
    let user = match store.check_credentials(
        payload.username.as_str(),
        payload.password.as_str(),
    ) {
        LoginCheck::Accepted(user) => user,
        LoginCheck::UnknownUser => {
            return Err(failure(401, "Invalid credentials"));
        },
        LoginCheck::WrongPassword => {
            return Err(failure(401, "Invalid credentials"));
        },
        LoginCheck::CorruptHash => {
            return Err(failure(500, "Invalid password hash"));
        },
    };
    let sub = decimal_string(user.id);
    let access = match claims(sub.as_str(), false, now) {
        Some(access) => access,
        None => {
            return Err(failure(500, "Failed to generate access token"));
        },
    };
    let refresh = match claims(sub.as_str(), true, now) {
        Some(refresh) => refresh,
        None => {
            return Err(failure(500, "Failed to generate refresh token"));
        },
    };
    Ok(LoginGrant { access, refresh, user: User { id: user.id, username: user.username } })
}

/// The author of a prompt.
#[derive(Debug)]
pub struct PromptAuthor {
    pub id: i64,
    pub username: String,
}

/// A prompt with all that belongs to it. `created_at` counts seconds since
/// the Unix epoch.
#[derive(Debug)]
pub struct Prompt {
    pub id: i64,
    pub title: String,
    pub content: String,
    pub description: String,
    pub created_at: i64,
    pub user_id: Option<i64>,
    pub parent_prompt_id: Option<i64>,
    pub author: Option<PromptAuthor>,
    pub tags: Vec<Tag>,
    pub star_count: i64,
    pub is_starred: Option<bool>,
}

/// A [`Prompt`], as the contracts see it. The author is given by name.
pub struct PromptJsonView {
    pub id: i64,
    pub title: Seq<char>,
    pub content: Seq<char>,
    pub description: Seq<char>,
    pub created_at: i64,
    pub user_id: Option<i64>,
    pub parent_prompt_id: Option<i64>,
    pub author: Option<(i64, Seq<char>)>,
    pub tags: Seq<TagView>,
    pub star_count: i64,
    pub is_starred: Option<bool>,
}

impl View for Prompt {
    type V = PromptJsonView;

    open spec fn view(&self) -> PromptJsonView {
        PromptJsonView {
            id: self.id,
            title: self.title@,
            content: self.content@,
            description: self.description@,
            created_at: self.created_at,
            user_id: self.user_id,
            parent_prompt_id: self.parent_prompt_id,
            author: match self.author {
                Some(author) => Some((author.id, author.username@)),
                None => None,
            },
            tags: tag_views(self.tags@),
            star_count: self.star_count,
            is_starred: self.is_starred,
        }
    }
}

/// The views of a list of prompts, in order.
pub open spec fn prompt_json_views(prompts: Seq<Prompt>) -> Seq<PromptJsonView> {
    prompts.map_values(|prompt: Prompt| prompt@)
}

/// The first rows of a listing that a `LIMIT` leaves: all of them without
/// one or under a negative one.
pub open spec fn limited(rows: Seq<PromptView>, limit: Option<i64>) -> Seq<PromptView> {
    match limit {
        Some(n) => if 0 <= n < rows.len() {
            rows.take(n as int)
        } else {
            rows
        },
        None => rows,
    }
}

impl Database {
    /// A stored prompt with its author, if it has one, its tags and the
    /// number of its stars. Whether the client starred it is left open.
    pub open spec fn json_prompt(self, prompt: PromptView) -> PromptJsonView {
        PromptJsonView {
            id: prompt.id,
            title: prompt.title,
            content: prompt.content,
            description: prompt.description,
            created_at: prompt.created_at,
            user_id: prompt.user_id,
            parent_prompt_id: prompt.parent_prompt_id,
            author: match prompt.user_id {
                Some(user_id) => Some((user_id, self.user(user_id).username)),
                None => None,
            },
            tags: self.tags_of(prompt.id),
            star_count: self.star_count(prompt.id) as i64,
            is_starred: None,
        }
    }

    /// Every prompt, newest first, cut off at `limit`.
    pub open spec fn json_prompts(self, limit: Option<i64>) -> Seq<PromptJsonView> {
        limited(self.listing(Scope::Everything), limit).map_values(
            |prompt: PromptView| self.json_prompt(prompt),
        )
    }
}

/// Assembles a stored prompt for the JSON surface.
fn json_prompt(store: &Store, prompt: &PromptRecord) -> (row: Prompt)
    requires
        store.wf(),
        store@.prompts.contains(prompt@),
    ensures
        row@ == store@.json_prompt(prompt@),
{
    proof {
        store.lemma_wf_valid();
        let i = choose|i: int| 0 <= i < store@.prompts.len() && store@.prompts[i] == prompt@;
        assert(store@.prompts[i].user_id is Some ==> store@.has_user(store@.prompts[i].user_id->0));
    }
    let author = match prompt.user_id {
        Some(user_id) => {
            let user = store.find_user(user_id).unwrap();
            Some(PromptAuthor { id: user_id, username: user.username.clone() })
        },
        None => None,
    };
    Prompt {
        id: prompt.id,
        title: prompt.title.clone(),
        content: prompt.content.clone(),
        description: prompt.description.clone(),
        created_at: prompt.created_at,
        user_id: prompt.user_id,
        parent_prompt_id: prompt.parent_prompt_id,
        author,
        tags: store.tags_of(prompt.id),
        star_count: store.count_stars(prompt.id),
        is_starred: None,
    }
}

/// Every prompt, newest first, each with its author, tags and stars; at
/// most `limit` of them where a limit that is not negative is given.
pub fn get_prompts_handler(store: &Store, limit: Option<i64>) -> (prompts: Vec<Prompt>)
    requires
        store.wf(),
    ensures
        prompt_json_views(prompts@) == store@.json_prompts(limit),
{
    let order = store.listing(Scope::Everything);
    let rows = store.prompts();
    let total = order.len();
    let end = match limit {
        Some(n) => if n >= 0 && (n as u64) < total as u64 {
            n as usize
        } else {
            total
        },
        None => total,
    };
    let ghost listed = store@.listing(Scope::Everything);
    let ghost wanted = limited(listed, limit);
    let mut prompts: Vec<Prompt> = Vec::new();
    proof {
        assert(wanted =~= listed.take(end as int));
    }
    for k in 0..end
        invariant
            store.wf(),
            end <= total,
            total == order@.len(),
            prompt_views(rows@) == store@.prompts,
            listed == pick(store@.prompts, order@),
            forall|j: int| 0 <= j < order@.len() ==> (#[trigger] order@[j]) < store@.prompts.len(),
            prompts@.len() == k,
            forall|j: int|
                0 <= j < prompts@.len() ==> (#[trigger] prompts@[j])@ == store@.json_prompt(
                    listed[j],
                ),
    {
        let prompt = &rows[order[k]];
        proof {
            assert(prompt@ == store@.prompts[order@[k as int] as int]);
            assert(listed[k as int] == prompt@);
            assert(store@.prompts.contains(prompt@));
        }
        prompts.push(json_prompt(store, prompt));
    }
    proof {
        assert(prompt_json_views(prompts@) =~= store@.json_prompts(limit));
    }
    prompts
}

/// The prompt with this key with its author, tags and stars, or `404`.
pub fn get_prompt_by_id_handler(store: &Store, id: i64) -> (result: Result<
    Prompt,
    (u16, ErrorResponse),
>)
    requires
        store.wf(),
    ensures
        match result {
            Ok(prompt) => store@.has_prompt(id) && prompt@ == store@.json_prompt(
                store@.prompt(id),
            ),
            Err(failure) => !store@.has_prompt(id) && failure_view(failure) == (
                404u16,
                "Prompt not found"@,
            ),
        },
{
    match store.find_prompt(id) {
        Some(prompt) => {
            proof {
                store.lemma_wf_valid();
                let i = choose|i: int|
                    0 <= i < store@.prompts.len() && (#[trigger] store@.prompts[i]).id == id;
                store@.lemma_prompt_at(i);
                assert(store@.prompts[i] == prompt@);
            }
            Ok(json_prompt(store, prompt))
        },
        None => Err(failure(404, "Prompt not found")),
    }
}

} // verus!
