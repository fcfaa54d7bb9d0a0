//! Accounts and the authentication backend.

use vstd::prelude::*;
use vstd::string::StringSliceAdditionalSpecFns;
use vstd::utf8::encode_utf8;
use crate::db::{is_argon2_phc, Database, StorageDetail, UserView};
use crate::db::store::Store;
use crate::text::{blank, chars_of, is_blank, is_digit};

pub mod handlers;

verus! {

/// An account. `password` holds the password hash, never the password.
#[derive(Debug)]
pub struct User {
    pub id: i64,
    pub username: String,
    pub email: String,
    pub password: String,
}

impl View for User {
    type V = UserView;

    open spec fn view(&self) -> UserView {
        UserView {
            id: self.id,
            username: self.username@,
            email: self.email@,
            password: self.password@,
        }
    }
}

impl Clone for User {
    fn clone(&self) -> (copy: Self)
        ensures
            copy == *self,
    {
        User {
            id: self.id,
            username: self.username.clone(),
            email: self.email.clone(),
            password: self.password.clone(),
        }
    }
}

/// The views of a list of users, in order.
pub open spec fn user_views(users: Seq<User>) -> Seq<UserView> {
    users.map_values(|user: User| user@)
}

/// The shortest password that signup accepts, in bytes.
pub const MIN_PASSWORD_LEN: usize = 8;

/// The longest password that the hasher takes, in bytes.
pub const MAX_PASSWORD_LEN: usize = 0xFFFF_FFFF;

/// How long a session lasts after its last use, in seconds: a day.
pub const SESSION_EXPIRY_SECONDS: i64 = 86_400;

/// How often expired sessions are swept away, in seconds.
pub const SESSION_SWEEP_SECONDS: u64 = 60;

/// A well-formed hash that no password is expected to match. Checking a
/// password against it costs as much as checking it against a real one.
pub const DUMMY_HASH: &'static str =
    "$argon2id$v=19$m=19456,t=2,p=1$AAAAAAAAAAAAAAAAAAAAAA$AAAAAAAAAAAAAAAAAAAAAAAAAAAAAAAAAAAAAAAAAAA";

/// What checking a password against a stored hash comes to.
#[derive(Clone, Copy, Debug, PartialEq, Eq, Structural)]
pub enum Verdict {
    /// The hash was made from this password.
    Match,
    /// The hash was made from another password.
    Mismatch,
    /// The text is no password hash.
    Malformed,
}

/// The verdict of `password_auth::verify_password` on a password and a
/// stored hash. It is a function of the two texts alone.
pub uninterp spec fn password_verdict(password: Seq<char>, hash: Seq<char>) -> Verdict;

/// At position `i` the text names a degree of parallelism of nine digits
/// or more: `p=` and then nine digits.
pub open spec fn overlong_parallelism_at(hash: Seq<char>, i: int) -> bool {
    &&& 0 <= i
    &&& i + 11 <= hash.len()
    &&& hash[i] == 'p'
    &&& hash[i + 1] == '='
    &&& forall|k: int| 2 <= k < 11 ==> is_digit(#[trigger] hash[i + k])
}

/// Nowhere does the text name a degree of parallelism of nine digits or
/// more. The hasher takes degrees below 2^24, which have eight digits at
/// most, and cannot safely be asked about degrees from 2^29 on.
pub open spec fn parallelism_bounded(hash: Seq<char>) -> bool {
    forall|i: int| !overlong_parallelism_at(hash, i)
}

/// The mark of the hashes that signup makes: Argon2id in PHC form.
pub open spec fn is_argon2id_phc(text: Seq<char>) -> bool {
    "$argon2id$"@.is_prefix_of(text)
}

/// What checking a password against a stored hash comes to: a hash that
/// names a degree of parallelism out of bounds is not looked at further.
pub open spec fn hash_verdict(password: Seq<char>, hash: Seq<char>) -> Verdict {
    if parallelism_bounded(hash) {
        password_verdict(password, hash)
    } else {
        Verdict::Malformed
    }
}

/// Trusted: `password_auth::verify_password`. It parses `hash` as a PHC
/// string, hashes `password` again with the salt and parameters found there,
/// and compares. The contract only names the outcome; no random or
/// environmental input takes part in it. Where the hash names a degree of
/// parallelism of 2^29 or more, the hasher multiplies it beyond what a
/// `u32` holds before it checks it, and a build with overflow checks panics
/// there; the precondition leaves such hashes out.
#[verifier::external_body]
fn verify_password(password: &str, hash: &str) -> (verdict: Verdict)
    requires
        parallelism_bounded(hash@),
    ensures
        verdict == password_verdict(password@, hash@),
{
    match password_auth::verify_password(password, hash) {
        Ok(()) => Verdict::Match,
        Err(password_auth::VerifyError::PasswordInvalid) => Verdict::Mismatch,
        Err(password_auth::VerifyError::Parse(_)) => Verdict::Malformed,
    }
}

/// Trusted: `password_auth::generate_hash`. It hashes `password` with
/// Argon2id under a fresh random salt and the hasher's default parameters,
/// and returns the PHC string: `$argon2id$v=19$m=19456,t=2,p=1$`, the salt,
/// `$`, and the digest, the last two in an alphabet without `=`. The salt
/// differs from call to call, so the contract says only what holds of every
/// outcome: the result is marked as Argon2id, names no degree of
/// parallelism but 1, and verifying the same password against it succeeds.
/// The hasher refuses passwords beyond [`MAX_PASSWORD_LEN`] bytes, and
/// `generate_hash` panics on a refusal; the precondition leaves them out.
#[verifier::external_body]
fn generate_hash(password: &str) -> (hash: String)
    requires
        password.spec_bytes().len() <= MAX_PASSWORD_LEN,
    ensures
        is_argon2id_phc(hash@),
        parallelism_bounded(hash@),
        password_verdict(password@, hash@) == Verdict::Match,
{
    password_auth::generate_hash(password)
}

/// Whether `hash` names no degree of parallelism of nine digits or more.
pub fn has_bounded_parallelism(hash: &str) -> (bounded: bool)
    ensures
        bounded == parallelism_bounded(hash@),
{
    let chars = chars_of(hash);
    let n = chars.len();
    if n < 11 {
        return true;
    }
    for i in 0..n - 10
        invariant
            chars@ == hash@,
            n == chars@.len(),
            n >= 11,
            forall|a: int| 0 <= a < i ==> !overlong_parallelism_at(hash@, a),
    {
        if chars[i] == 'p' && chars[i + 1] == '=' {
            let mut digits = true;
            for k in 2..11usize
                invariant
                    chars@ == hash@,
                    n == chars@.len(),
                    i + 11 <= n,
                    digits == forall|j: int| 2 <= j < k ==> is_digit(#[trigger] hash@[i + j]),
            {
                let c = chars[i + k];
                digits = digits && '0' <= c && c <= '9';
            }
            if digits {
                assert(overlong_parallelism_at(hash@, i as int));
                return false;
            }
        }
    }
    true
}

/// Checks a password against a stored hash.
pub fn check_password(password: &str, hash: &str) -> (verdict: Verdict)
    ensures
        verdict == hash_verdict(password@, hash@),
{
    if has_bounded_parallelism(hash) {
        verify_password(password, hash)
    } else {
        Verdict::Malformed
    }
}

/// What is marked as Argon2id is marked as Argon2.
pub proof fn lemma_argon2id_is_argon2(hash: Seq<char>)
    requires
        is_argon2id_phc(hash),
    ensures
        is_argon2_phc(hash),
{
    reveal_strlit("$argon2id$");
    reveal_strlit("$argon2");
    assert("$argon2"@ =~= hash.subrange(0, 7)) by {
        assert forall|j: int| 0 <= j < 7 implies "$argon2"@[j] == hash.subrange(0, 7)[j] by {
            assert(hash.subrange(0, 10)[j] == "$argon2id$"@[j]);
        }
    }
}

/// A hash that signup makes is not the password that was typed, unless
/// what was typed is itself marked as an Argon2id hash.
pub proof fn lemma_hash_is_no_password(password: Seq<char>, hash: Seq<char>)
    requires
        is_argon2id_phc(hash),
        !is_argon2id_phc(password),
    ensures
        hash != password,
{
}

/// Why a signup was refused.
#[derive(Clone, Copy, Debug, PartialEq, Eq, Structural)]
pub enum SignupError {
    /// The name is empty or holds whitespace only.
    EmptyUsername,
    /// The password is shorter than [`MIN_PASSWORD_LEN`] bytes.
    WeakPassword,
    /// Another account has the name.
    UsernameTaken,
    /// The store refused the new row: it takes no more rows, or the value
    /// for the password column is none that it admits, as where the
    /// password is too long to hash.
    StorageError(StorageDetail),
}

/// What a login attempt comes to.
#[derive(Debug)]
pub enum LoginCheck {
    /// The password matches the hash of this account.
    Accepted(User),
    /// No account has the name.
    UnknownUser,
    /// The password does not match.
    WrongPassword,
    /// The stored hash cannot be read.
    CorruptHash,
}

/// What a login form carries.
#[derive(Debug)]
pub struct Credentials {
    pub username: String,
    pub password: String,
    pub next: Option<String>,
}

impl Clone for Credentials {
    fn clone(&self) -> (copy: Self)
        ensures
            copy == *self,
    {
        Credentials {
            username: self.username.clone(),
            password: self.password.clone(),
            next: match &self.next {
                Some(next) => Some(next.clone()),
                None => None,
            },
        }
    }
}

impl User {
    /// The identity that a session stores.
    pub fn id(&self) -> (id: i64)
        ensures
            id == self.id,
    {
        self.id
    }

    /// The bytes by which a session is tied to the password hash: the hash
    /// itself, in UTF-8. A session that stored other bytes is no longer valid.
    pub fn session_auth_hash(&self) -> (bytes: &[u8])
        ensures
            bytes@ == encode_utf8(self@.password),
    {
        self.password.as_str().as_bytes()
    }
}

/// Two password hashes give the same session bytes only if they are the
/// same hash: whenever the password hash of an account changes, so do the
/// bytes, and the sessions that stored the old ones end.
pub proof fn lemma_session_auth_hash_tracks_password(a: UserView, b: UserView)
    requires
        encode_utf8(a.password) == encode_utf8(b.password),
    ensures
        a.password == b.password,
{
    vstd::utf8::encode_utf8_decode_utf8(a.password);
    vstd::utf8::encode_utf8_decode_utf8(b.password);
}

impl Database {
    /// Why an account with this name and password hash cannot be
    /// registered, if it cannot.
    pub open spec fn register_refusal(self, username: Seq<char>, password_hash: Seq<char>)
        -> Option<SignupError> {
        if blank(username) {
            Some(SignupError::EmptyUsername)
        } else if !is_argon2_phc(password_hash) {
            Some(SignupError::StorageError(StorageDetail::CheckViolation))
        } else if self.has_username(username) {
            Some(SignupError::UsernameTaken)
        } else if self.next_user_id() > i64::MAX {
            Some(SignupError::StorageError(StorageDetail::KeySpaceExhausted))
        } else {
            None
        }
    }

    /// Why a signup with this name and password is refused, if it is: the
    /// name is looked at first, then the length of the password, then
    /// whether the name is taken. A password too long to hash is a value
    /// that the store does not admit.
    pub open spec fn signup_refusal(self, username: Seq<char>, password: Seq<char>) -> Option<
        SignupError,
    > {
        if blank(username) {
            Some(SignupError::EmptyUsername)
        } else if encode_utf8(password).len() < MIN_PASSWORD_LEN {
            Some(SignupError::WeakPassword)
        } else if self.has_username(username) {
            Some(SignupError::UsernameTaken)
        } else if encode_utf8(password).len() > MAX_PASSWORD_LEN {
            Some(SignupError::StorageError(StorageDetail::CheckViolation))
        } else if self.next_user_id() > i64::MAX {
            Some(SignupError::StorageError(StorageDetail::KeySpaceExhausted))
        } else {
            None
        }
    }

    /// What a login attempt with this name and password comes to, but for
    /// the account that an accepted one carries.
    pub open spec fn login_accepted(self, username: Seq<char>, password: Seq<char>) -> bool {
        self.has_username(username) && hash_verdict(password, self.user_named(username).password)
            == Verdict::Match
    }
}

impl Store {
    /// Creates the account of `username` with a password hash made elsewhere.
    ///
    /// The name is stored as given. A hash that is not marked as an Argon2
    /// hash is a value that the store does not admit. A refusal changes
    /// nothing.
    pub fn register(&mut self, username: &str, email: &str, password_hash: String) -> (result:
        Result<i64, SignupError>)
        requires
            old(self).wf(),
        ensures
            final(self).wf(),
            match result {
                Ok(id) => {
                    &&& old(self)@.register_refusal(username@, password_hash@) is None
                    &&& id == old(self)@.next_user_id()
                    &&& final(self)@ == old(self)@.with_user(
                        UserView {
                            id,
                            username: username@,
                            email: email@,
                            password: password_hash@,
                        },
                    )
                },
                Err(error) => {
                    &&& old(self)@.register_refusal(username@, password_hash@) == Some(error)
                    &&& final(self)@ == old(self)@
                },
            },
    {
        if is_blank(username) {
            return Err(SignupError::EmptyUsername);
        }
        match self.insert_user(username.to_owned(), email.to_owned(), password_hash) {
            Ok(id) => Ok(id),
            Err(StorageDetail::UniqueViolation) => Err(SignupError::UsernameTaken),
            Err(detail) => Err(SignupError::StorageError(detail)),
        }
    }

    /// Signs a new user up: validates the name and the password, hashes the
    /// password under a fresh salt, and stores the account.
    ///
    /// The stored hash differs from call to call; of every outcome it holds
    /// that it is marked as an Argon2id hash and that the password verifies
    /// against it. A refusal changes nothing.
    pub fn signup(&mut self, username: &str, email: &str, password: &str) -> (result: Result<
        i64,
        SignupError,
    >)
        requires
            old(self).wf(),
        ensures
            final(self).wf(),
            match result {
                Ok(id) => {
                    &&& old(self)@.signup_refusal(username@, password@) is None
                    &&& id == old(self)@.next_user_id()
                    &&& final(self)@.users.len() == old(self)@.users.len() + 1
                    &&& final(self)@ == old(self)@.with_user(
                        UserView {
                            id,
                            username: username@,
                            email: email@,
                            password: final(self)@.users.last().password,
                        },
                    )
                    &&& is_argon2id_phc(final(self)@.users.last().password)
                    &&& hash_verdict(password@, final(self)@.users.last().password)
                        == Verdict::Match
                },
                Err(error) => {
                    &&& old(self)@.signup_refusal(username@, password@) == Some(error)
                    &&& final(self)@ == old(self)@
                },
            },
    {
        if is_blank(username) {
            return Err(SignupError::EmptyUsername);
        }
        let length = password.as_bytes().len();
        if length < MIN_PASSWORD_LEN {
            return Err(SignupError::WeakPassword);
        }
        if self.find_user_named(username).is_some() {
            return Err(SignupError::UsernameTaken);
        }
        if length > MAX_PASSWORD_LEN {
            return Err(SignupError::StorageError(StorageDetail::CheckViolation));
        }
        let password_hash = generate_hash(password);
        proof {
            lemma_argon2id_is_argon2(password_hash@);
        }
        self.register(username, email, password_hash)
    }

    /// Checks a name and a password against the stored accounts.
    ///
    /// When no account has the name, the password is still checked, against
    /// [`DUMMY_HASH`], so that the answer takes as long as a wrong password.
    /// A stored hash that names a degree of parallelism out of bounds is
    /// corrupt: the hasher is not asked about it.
    pub fn check_credentials(&self, username: &str, password: &str) -> (outcome: LoginCheck)
        requires
            self.wf(),
        ensures
            match outcome {
                LoginCheck::Accepted(user) => {
                    &&& self@.login_accepted(username@, password@)
                    &&& user@ == self@.user_named(username@)
                },
                LoginCheck::UnknownUser => !self@.has_username(username@),
                LoginCheck::WrongPassword => {
                    &&& self@.has_username(username@)
                    &&& hash_verdict(password@, self@.user_named(username@).password)
                        == Verdict::Mismatch
                },
                LoginCheck::CorruptHash => {
                    &&& self@.has_username(username@)
                    &&& hash_verdict(password@, self@.user_named(username@).password)
                        == Verdict::Malformed
                },
            },
    {
        match self.find_user_named(username) {
            Some(user) => match check_password(password, user.password.as_str()) {
                Verdict::Match => LoginCheck::Accepted(user.clone()),
                Verdict::Mismatch => LoginCheck::WrongPassword,
                Verdict::Malformed => LoginCheck::CorruptHash,
            },
            None => {
                let _ = check_password(password, DUMMY_HASH);
                LoginCheck::UnknownUser
            },
        }
    }

    /// The account with this name, if the password verifies against its
    /// hash. An unknown name and a wrong password give the same answer.
    pub fn authenticate(&self, username: &str, password: &str) -> (user: Option<User>)
        requires
            self.wf(),
        ensures
            user is Some == self@.login_accepted(username@, password@),
            user is Some ==> user.unwrap()@ == self@.user_named(username@),
    {
        match self.check_credentials(username, password) {
            LoginCheck::Accepted(user) => Some(user),
            _ => None,
        }
    }

    /// The account with this key, if there is one.
    pub fn load_user(&self, id: i64) -> (user: Option<User>)
        requires
            self.wf(),
        ensures
            user is Some == self@.has_user(id),
            user is Some ==> user.unwrap()@ == self@.user(id),
    {
        match self.find_user(id) {
            Some(user) => Some(user.clone()),
            None => None,
        }
    }
}

impl Database {
    /// A signup under a name that is taken is refused as such, whatever
    /// else the form holds, provided the password is long enough.
    pub proof fn lemma_signup_duplicate(self, username: Seq<char>, password: Seq<char>)
        requires
            self.valid(),
            self.has_username(username),
            encode_utf8(password).len() >= MIN_PASSWORD_LEN,
        ensures
            self.signup_refusal(username, password) == Some(SignupError::UsernameTaken),
    {
        let i = choose|i: int|
            0 <= i < self.users.len() && (#[trigger] self.users[i]).username == username;
        assert(!blank(self.users[i].username));
    }

    /// Once an account is stored with a hash that a password verifies
    /// against, a login under its name with that password is accepted,
    /// and with the account just stored.
    pub proof fn lemma_login_after_signup(self, user: UserView, password: Seq<char>)
        requires
            self.valid(),
            self.user_fault(user.username, user.password) is None,
            user.id == self.next_user_id(),
            hash_verdict(password, user.password) == Verdict::Match,
        ensures
            self.with_user(user).valid(),
            self.with_user(user).login_accepted(user.username, password),
            self.with_user(user).user_named(user.username) == user,
    {
        let after = self.with_user(user);
        let last = self.users.len() as int;
        assert(after.users[last] == user);
        self.lemma_grown(after);
        assert(after.users_valid()) by {
            assert forall|i: int, j: int| 0 <= i < j < after.users.len() implies (
            #[trigger] after.users[i]).id < (#[trigger] after.users[j]).id by {
                if j == last && last > 0 {
                    if i < last - 1 {
                        assert(self.users[i].id < self.users[last - 1].id);
                    }
                }
            }
        }
        assert(after.prompts_valid());
        after.lemma_user_at(last);
    }
}

} // verus!
