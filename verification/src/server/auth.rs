//! Account rules: registration checks, new accounts and login lookup.
use vstd::prelude::*;
use vstd::utf8::encode_utf8;
use crate::server::state::{User, UserView};
use crate::server::stamps::{new_id, now_timestamp};
use crate::server::credentials::{bcrypt_verifies, hash_password, verify_password};

verus! {

broadcast use vstd::string::group_string_axioms;

/// A registration request.
#[derive(Debug)]
pub struct RegisterRequest {
    pub username: String,
    pub password: String,
}

/// A login request.
#[derive(Debug)]
pub struct LoginRequest {
    pub username: String,
    pub password: String,
}

/// The account data sent back after registering or logging in.
#[derive(Debug)]
pub struct UserInfo {
    pub id: String,
    pub username: String,
    pub score: i32,
    pub wins: i32,
    pub losses: i32,
}

/// Why a registration or a login is refused.
#[derive(Debug, Clone, Copy, PartialEq, Eq, Structural)]
pub enum AuthError {
    BadFormat,
    UsernameTaken,
    WrongCredentials,
    HashFailed,
}

/// The HTTP status code of a refusal.
pub open spec fn auth_error_code(e: AuthError) -> u16 {
    match e {
        AuthError::BadFormat => 400,
        AuthError::UsernameTaken => 409,
        AuthError::WrongCredentials => 401,
        AuthError::HashFailed => 500,
    }
}

/// The message of a refusal.
pub open spec fn auth_error_text(e: AuthError) -> Seq<char> {
    match e {
        AuthError::BadFormat => "用户名或密码格式错误"@,
        AuthError::UsernameTaken => "用户名已存在"@,
        AuthError::WrongCredentials => "用户名或密码错误"@,
        AuthError::HashFailed => "密码处理失败"@,
    }
}

impl AuthError {
    pub fn status_code(&self) -> (c: u16)
        ensures
            c == auth_error_code(*self),
    {
        match self {
            AuthError::BadFormat => 400,
            AuthError::UsernameTaken => 409,
            AuthError::WrongCredentials => 401,
            AuthError::HashFailed => 500,
        }
    }

    pub fn message(&self) -> (m: String)
        ensures
            m@ == auth_error_text(*self),
    {
        match self {
            AuthError::BadFormat => "用户名或密码格式错误".to_string(),
            AuthError::UsernameTaken => "用户名已存在".to_string(),
            AuthError::WrongCredentials => "用户名或密码错误".to_string(),
            AuthError::HashFailed => "密码处理失败".to_string(),
        }
    }
}

/// The score a new account starts with.
pub open spec fn starting_score() -> i32 {
    1000
}

/// Why a registration is refused, in the order the checks run: an empty user
/// name or a password under six bytes; a user name already taken.
pub open spec fn registration_refusal(username: Seq<char>, password: Seq<char>, taken: Seq<Seq<char>>) -> Option<AuthError> {
    if username.len() == 0 || byte_len(password) < 6 {
        Some(AuthError::BadFormat)
    } else if taken.contains(username) {
        Some(AuthError::UsernameTaken)
    } else {
        None
    }
}

/// The length of a text in bytes, as UTF-8 encodes it.
pub open spec fn byte_len(s: Seq<char>) -> usize {
    encode_utf8(s).len() as usize
}

/// Checks a registration against the user names already taken.
pub fn validate_registration(payload: &RegisterRequest, taken: &Vec<String>) -> (r: Result<(), AuthError>)
    ensures
        r == match registration_refusal(payload.username@, payload.password@, taken@.map_values(|s: String| s@)) {
            Some(e) => Err(e),
            None => Ok::<(), AuthError>(()),
        },
{
    if payload.username.as_str().is_empty() || payload.password.as_str().len() < 6 {
        return Err(AuthError::BadFormat);
    }
    let ghost names = taken@.map_values(|s: String| s@);
    let mut i: usize = 0;
    while i < taken.len()
        invariant
            i <= taken@.len(),
            names == taken@.map_values(|s: String| s@),
            !(payload.username@.len() == 0 || byte_len(payload.password@) < 6),
            forall|j: int| 0 <= j < i ==> names[j] != payload.username@,
        decreases taken@.len() - i,
    {
        if taken[i] == payload.username {
            assert(names[i as int] == payload.username@);
            assert(names.contains(payload.username@));
            return Err(AuthError::UsernameTaken);
        }
        i = i + 1;
    }
    assert(!names.contains(payload.username@));
    Ok(())
}

/// A new account with the given id, name, password hash and time: score 1000,
/// no wins and no losses.
pub fn account(id: String, username: String, password_hash: String, created_at: i64) -> (u: User)
    ensures
        u@ == (UserView {
            id: id@,
            username: username@,
            password_hash: password_hash@,
            score: starting_score(),
            wins: 0,
            losses: 0,
            created_at,
        }),
{
    User { id, username, password_hash, score: 1000, wins: 0, losses: 0, created_at }
}

/// A new account under a fresh id and the current time (0 where the clock
/// cannot be read).
pub fn new_account(username: String, password_hash: String) -> (u: User)
    ensures
        u@.username == username@,
        u@.password_hash == password_hash@,
        u@.score == starting_score(),
        u@.wins == 0,
        u@.losses == 0,
        u@.id.len() == 36,
{
    let id = new_id();
    let created_at: i64 = match now_timestamp() {
        Some(t) => t,
        None => 0,
    };
    account(id, username, password_hash, created_at)
}

/// The account data sent back to a client.
pub fn user_info(user: &User) -> (i: UserInfo)
    ensures
        i.id@ == user.id@,
        i.username@ == user.username@,
        i.score == user.score,
        i.wins == user.wins,
        i.losses == user.losses,
{
    UserInfo {
        id: user.id.clone(),
        username: user.username.clone(),
        score: user.score,
        wins: user.wins,
        losses: user.losses,
    }
}

/// The position of the first account with the user name, if any.
pub fn find_by_username(users: &Vec<User>, username: &String) -> (r: Option<usize>)
    ensures
        r matches Some(i) ==> i < users@.len() && users@[i as int].username@ == username@ && forall|
            j: int,
        | 0 <= j < i ==> (#[trigger] users@[j]).username@ != username@,
        r is None ==> forall|j: int| 0 <= j < users@.len() ==> (#[trigger] users@[j]).username@ != username@,
{
    let mut i: usize = 0;
    while i < users.len()
        invariant
            i <= users@.len(),
            forall|j: int| 0 <= j < i ==> (#[trigger] users@[j]).username@ != username@,
        decreases users@.len() - i,
    {
        if users[i].username == *username {
            return Some(i);
        }
        i = i + 1;
    }
    None
}

/// Registers an account against the user names already taken: refused as
/// `registration_refusal` says; else a new account (see `new_account`) whose
/// password hash verifies the password, or `HashFailed` where bcrypt could
/// not make a hash.
pub fn register_account(taken: &Vec<String>, payload: RegisterRequest) -> (r: Result<User, AuthError>)
    ensures
        registration_refusal(payload.username@, payload.password@, taken@.map_values(|s: String| s@)) matches Some(e)
            ==> r == Err::<User, AuthError>(e),
        registration_refusal(payload.username@, payload.password@, taken@.map_values(|s: String| s@)) is None
            ==> (r is Ok || r == Err::<User, AuthError>(AuthError::HashFailed)),
        r matches Ok(u) ==> {
            &&& u@.username == payload.username@
            &&& bcrypt_verifies(payload.password@, u@.password_hash)
            &&& u@.score == starting_score()
            &&& u@.wins == 0
            &&& u@.losses == 0
            &&& u@.id.len() == 36
        },
{
    match validate_registration(&payload, taken) {
        Err(e) => return Err(e),
        Ok(()) => {},
    }
    match hash_password(payload.password.as_str()) {
        Ok(password_hash) => Ok(new_account(payload.username, password_hash)),
        Err(_) => Err(AuthError::HashFailed),
    }
}

/// The first account with the user name.
pub open spec fn is_first_named(users: Seq<User>, username: Seq<char>, i: int) -> bool {
    &&& 0 <= i < users.len()
    &&& users[i].username@ == username
    &&& forall|j: int| 0 <= j < i ==> (#[trigger] users[j]).username@ != username
}

/// Logs in: the position of the first account with the user name, where the
/// password verifies against that account's hash; `None` otherwise.
pub fn login_user(users: &Vec<User>, username: &String, password: &String) -> (r: Option<usize>)
    ensures
        r matches Some(i) ==> is_first_named(users@, username@, i as int) && bcrypt_verifies(
            password@,
            users@[i as int].password_hash@,
        ),
        r is None ==> forall|i: int|
            is_first_named(users@, username@, i) ==> !bcrypt_verifies(password@, #[trigger] users@[i].password_hash@),
{
    match find_by_username(users, username) {
        None => None,
        Some(i) => {
            if verify_password(password.as_str(), users[i].password_hash.as_str()) {
                Some(i)
            } else {
                proof {
                    assert forall|k: int| is_first_named(users@, username@, k) implies !bcrypt_verifies(
                        password@,
                        #[trigger] users@[k].password_hash@,
                    ) by {
                        if k < i {
                            assert(users@[k].username@ != username@);
                        } else if k > i {
                            assert(users@[i as int].username@ == username@);
                        }
                    }
                }
                None
            }
        },
    }
}

} // verus!

verus! {

/// User names stay unique: a registration whose name is already taken is
/// refused, so an accepted one adds a name nobody has.
pub proof fn law_names_stay_unique(username: Seq<char>, password: Seq<char>, taken: Seq<Seq<char>>)
    requires
        taken.no_duplicates(),
        registration_refusal(username, password, taken) is None,
    ensures
        taken.push(username).no_duplicates(),
{
    let t = taken.push(username);
    assert forall|i: int, j: int| 0 <= i < t.len() && 0 <= j < t.len() && i != j implies t[i] != t[j] by {
        if i == taken.len() {
            assert(t[j] == taken[j]);
            assert(taken.contains(taken[j]));
        } else if j == taken.len() {
            assert(t[i] == taken[i]);
            assert(taken.contains(taken[i]));
        }
    }
}

} // verus!

verus! {

/// Registration rules: an empty user name or a password under six bytes is
/// refused as badly formed; otherwise a name already taken is refused as
/// taken; any other registration goes through. (The password's bytes fit in
/// memory, as those of every `String` do.)
pub proof fn law_registration_rules(username: Seq<char>, password: Seq<char>, taken: Seq<Seq<char>>)
    requires
        encode_utf8(password).len() <= usize::MAX,
    ensures
        username.len() == 0 ==> registration_refusal(username, password, taken) == Some(AuthError::BadFormat),
        encode_utf8(password).len() < 6 ==> registration_refusal(username, password, taken) == Some(
            AuthError::BadFormat,
        ),
        username.len() > 0 && encode_utf8(password).len() >= 6 && taken.contains(username)
            ==> registration_refusal(username, password, taken) == Some(AuthError::UsernameTaken),
        username.len() > 0 && encode_utf8(password).len() >= 6 && !taken.contains(username)
            ==> registration_refusal(username, password, taken) is None,
{
}

} // verus!
