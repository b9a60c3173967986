use std::borrow::Cow;
use std::collections::HashMap;
use vstd::prelude::*;
use vstd::std_specs::hash::{contains_borrowed_key, maps_borrowed_key_to_value, obeys_key_model};
use vstd::string::{StringExecFns, StringSliceAdditionalSpecFns};

verus! {

broadcast use vstd::std_specs::hash::group_hash_axioms;

/// HTTP status 201, Created.
pub const CREATED: u16 = 201;

/// HTTP status 400, Bad Request.
pub const BAD_REQUEST: u16 = 400;

/// The body of a request to create a user.
pub struct CreateUser {
    pub username: String,
}

/// A user of the service.
pub struct User {
    pub id: u64,
    pub username: String,
}

/// An error answer: what failed, its status and details.
pub struct AppError {
    pub message: String,
    pub status: u16,
    pub details: String,
}

/// The number of bytes of the UTF-8 encoding of `s`, as `str::len` gives it.
pub open spec fn byte_len(s: Seq<char>) -> usize {
    vstd::utf8::encode_utf8(s).len() as usize
}

/// Creates a user from the request: user names of fewer than 4 bytes are refused with
/// Bad Request; any other name gives user 1 with status Created.
pub fn create_user(payload: CreateUser) -> (r: Result<(u16, User), AppError>)
    ensures
        byte_len(payload.username@) < 4 <==> r is Err,
        r is Err ==> r->Err_0.status == BAD_REQUEST && r->Err_0.message@ == "create user"@
            && r->Err_0.details@ == "username too short"@,
        r is Ok ==> r->Ok_0.0 == CREATED && r->Ok_0.1.id == 1 && r->Ok_0.1.username@
            == payload.username@,
{
    if payload.username.as_str().len() < 4 {
        return Err(
            AppError {
                message: String::from_str("create user"),
                status: BAD_REQUEST,
                details: String::from_str("username too short"),
            },
        );
    }
    let user = User { id: 1, username: payload.username };
    Ok((CREATED, user))
}

/// `m` holds no value under `key`.
pub open spec fn misses<'a>(m: &HashMap<Cow<'a, str>, Cow<'a, str>>, key: &str) -> bool {
    !contains_borrowed_key(m@, key)
}

/// `m` holds a value under `key` whose text is `text`.
pub open spec fn finds<'a>(m: &HashMap<Cow<'a, str>, Cow<'a, str>>, key: &str, text: Seq<char>) -> bool {
    exists|v: Cow<'a, str>| maps_borrowed_key_to_value(m@, key, v) && v@ == text
}

/// `r` is the value of the first option whose map holds its key, or `None` where no map does.
pub open spec fn first_match<'a>(
    options: Seq<(&HashMap<Cow<'a, str>, Cow<'a, str>>, &str)>,
    r: Option<String>,
) -> bool {
    match r {
        None => forall|j: int| 0 <= j < options.len() ==> misses(#[trigger] options[j].0, options[j].1),
        Some(s) => exists|i: int|
            0 <= i < options.len() && finds(#[trigger] options[i].0, options[i].1, s@) && forall|j: int|
                0 <= j < i ==> misses(#[trigger] options[j].0, options[j].1),
    }
}

/// The text held by a borrowed-or-owned text, owned.
fn cow_to_string(v: &Cow<str>) -> (s: String)
    ensures
        s@ == v@,
{
    match v {
        Cow::Borrowed(b) => String::from_str(b),
        Cow::Owned(o) => o.clone(),
    }
}

/// The value of the first `(map, key)` option whose map holds its key, as a string.
pub fn get_first_match<'a, const N: usize>(
    options: &[(&'a HashMap<Cow<str>, Cow<str>>, &'a str); N],
) -> (r: Option<String>)
    ensures
        obeys_key_model::<Cow<str>>() ==> first_match(options@, r),
{
    let mut i: usize = 0;
    while i < N
        invariant
            i <= N,
            N == options@.len(),
            obeys_key_model::<Cow<str>>() ==> forall|j: int|
                0 <= j < i ==> misses(#[trigger] options@[j].0, options@[j].1),
        decreases N - i,
    {
        let (h, s) = options[i];
        match h.get(s) {
            Some(v) => {
                let text = cow_to_string(v);
                assert(obeys_key_model::<Cow<str>>() ==> finds(options@[i as int].0, options@[i as int].1, text@));
                return Some(text);
            },
            None => {},
        }
        i += 1;
    }
    None
}

/// The session id of a request: from the header "session-id", else the header "session_id",
/// else the query parameter "session_id".
pub fn get_session_id(
    headers: &HashMap<Cow<str>, Cow<str>>,
    query: &HashMap<Cow<str>, Cow<str>>,
) -> (r: Option<String>)
    ensures
        obeys_key_model::<Cow<str>>() ==> first_match(
            seq![(headers, "session-id"), (headers, "session_id"), (query, "session_id")],
            r,
        ),
{
    let options = [(headers, "session-id"), (headers, "session_id"), (query, "session_id")];
    let r = get_first_match(&options);
    assert(options@ =~= seq![(headers, "session-id"), (headers, "session_id"), (query, "session_id")]);
    r
}

/// The users that the service lists: user 1 "a" and user 2 "b".
pub open spec fn listed_users(users: Seq<User>) -> bool {
    &&& users.len() == 2
    &&& users[0].id == 1 && users[0].username@ == "a"@
    &&& users[1].id == 2 && users[1].username@ == "b"@
}

/// Answers a request for the user list: the session id that the request carries (found as
/// `get_session_id` finds it), and the users.
pub fn get_users(
    headers: &HashMap<Cow<str>, Cow<str>>,
    query: &HashMap<Cow<str>, Cow<str>>,
) -> (r: (Option<String>, Vec<User>))
    ensures
        obeys_key_model::<Cow<str>>() ==> first_match(
            seq![(headers, "session-id"), (headers, "session_id"), (query, "session_id")],
            r.0,
        ),
        listed_users(r.1@),
{
    let session_id = get_session_id(headers, query);
    let mut users: Vec<User> = Vec::new();
    users.push(User { id: 1, username: String::from_str("a") });
    users.push(User { id: 2, username: String::from_str("b") });
    (session_id, users)
}

} // verus!
