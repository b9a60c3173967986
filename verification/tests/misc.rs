use idioms::allocator::{next_remaining, ARENA_SIZE};
use idioms::eventbus::{Handler, Request};
use idioms::http::{create_user, get_session_id, CreateUser, BAD_REQUEST, CREATED};
use idioms::network::{
    close_step, poll_step, registration, wait_timeout, Closing, Interests, PollStep, Registration,
    WaitOutcome,
};
use idioms::password::generic;
use idioms::password::no_generic;
use std::borrow::Cow;
use std::collections::HashMap;

#[test]
fn interests_are_read_or_write() {
    assert!(Interests::readable().is_readable());
    assert!(!Interests::readable().is_writable());
    assert!(Interests::writable().is_writable());
    assert!(!Interests::writable().is_readable());
}

#[test]
fn bump_allocation_from_the_top() {
    assert_eq!(Some(ARENA_SIZE - 16), next_remaining(ARENA_SIZE, 16, 8));
    assert_eq!(Some(96), next_remaining(100, 3, 32));
    assert_eq!(None, next_remaining(10, 11, 1));
    assert_eq!(None, next_remaining(ARENA_SIZE, 1, 8192));
    assert_eq!(Some(0), next_remaining(5, 5, 1));
}

#[test]
fn typestate_password_manager() {
    let manager = generic::PasswordManager::new("password".to_owned());
    let mut manager = manager.unlock("password".to_owned());
    assert!(manager.list_passwords().is_empty());
    manager.add_password("u1".to_string(), "p1".to_string());
    assert_eq!(Some(&"p1".to_string()), manager.list_passwords().get("u1"));
    let manager = manager.lock();
    assert_eq!("", manager.encryption());
    assert_eq!("", manager.version());
}

#[test]
fn plain_password_manager() {
    let mut manager = no_generic::PasswordManager::new("password".to_owned());
    manager.unlock("password".to_owned());
    manager.add_password("u1".to_string(), "p1".to_string());
    manager.lock();
    assert_eq!(1, manager.list_passwords().len());
    assert_eq!("", manager.encryption());
}

#[test]
fn create_user_checks_the_name_length() {
    let err = create_user(CreateUser { username: "abc".to_string() }).err().unwrap();
    assert_eq!(BAD_REQUEST, err.status);
    assert_eq!("username too short", err.details);
    let (status, user) = create_user(CreateUser { username: "abcd".to_string() }).ok().unwrap();
    assert_eq!(CREATED, status);
    assert_eq!(1, user.id);
    assert_eq!("abcd", user.username);
}

#[test]
fn session_id_prefers_headers() {
    let mut headers: HashMap<Cow<str>, Cow<str>> = HashMap::new();
    let mut query: HashMap<Cow<str>, Cow<str>> = HashMap::new();
    assert_eq!(None, get_session_id(&headers, &query));
    query.insert(Cow::Borrowed("session_id"), Cow::Borrowed("q"));
    assert_eq!(Some("q".to_string()), get_session_id(&headers, &query));
    headers.insert(Cow::Owned("session_id".to_string()), Cow::Borrowed("h2"));
    assert_eq!(Some("h2".to_string()), get_session_id(&headers, &query));
    headers.insert(Cow::Borrowed("session-id"), Cow::Owned("h1".to_string()));
    assert_eq!(Some("h1".to_string()), get_session_id(&headers, &query));
}

#[test]
fn eventbus_handlers_receive_the_data() {
    fn takes_two(x: i32, y: i32) {
        assert_eq!((1, 2), (x, y));
    }
    fn takes_slice(x: &[i32]) {
        assert_eq!(&[1, 2][..], x);
    }
    Handler::call(&takes_two, Request::new((1i32, 2i32)));
    Handler::call(&takes_slice, Request::new((&[1i32, 2][..],)));
    Handler::call(&|| (), Request::new(()));
    assert_eq!(5, Request::new(5).data);
}

#[test]
fn get_users_lists_two_users_and_the_session() {
    let mut headers: HashMap<Cow<str>, Cow<str>> = HashMap::new();
    let query: HashMap<Cow<str>, Cow<str>> = HashMap::new();
    headers.insert(Cow::Borrowed("session-id"), Cow::Borrowed("abc"));
    let (session, users) = idioms::http::get_users(&headers, &query);
    assert_eq!(Some("abc".to_string()), session);
    assert_eq!(2, users.len());
    assert_eq!((1, "a"), (users[0].id, users[0].username.as_str()));
    assert_eq!((2, "b"), (users[1].id, users[1].username.as_str()));
}

#[test]
fn hello_service_greets() {
    let service = idioms::grpc::HelloService {};
    let reply = service.send_message(idioms::grpc::HelloRequest { name: "cae".to_string() });
    assert!(reply.ok);
    assert_eq!("hello: cae", reply.message);
}

#[test]
fn registration_and_poll_decisions() {
    assert_eq!(Registration::Closed, registration(true, &Interests::readable()));
    assert_eq!(
        Registration::Register { read: true, write: false },
        registration(false, &Interests::readable())
    );
    assert_eq!(
        Registration::Register { read: false, write: true },
        registration(false, &Interests::writable())
    );
    assert_eq!(PollStep::Retry, poll_step(WaitOutcome::Interrupted, false, 0));
    assert_eq!(PollStep::Fail, poll_step(WaitOutcome::Failed, false, 0));
    assert_eq!(PollStep::Closed, poll_step(WaitOutcome::Delivered, true, 3));
    assert_eq!(PollStep::Events(3), poll_step(WaitOutcome::Delivered, false, 3));
}

#[test]
fn wait_timeout_in_milliseconds() {
    assert_eq!(-1, wait_timeout(None));
    assert_eq!(0, wait_timeout(Some(0)));
    assert_eq!(1500, wait_timeout(Some(1500)));
    assert_eq!(5, wait_timeout(Some((1u128 << 32) + 5)));
}

#[test]
fn a_closed_loop_stays_closed() {
    let (closed, first) = close_step(false);
    assert!(closed);
    assert_eq!(Closing::Close, first);
    assert_eq!(Registration::Closed, registration(closed, &Interests::readable()));
    assert_eq!(PollStep::Closed, poll_step(WaitOutcome::Delivered, closed, 2));
    assert_eq!(PollStep::Retry, poll_step(WaitOutcome::Interrupted, closed, 0));
    let (still_closed, second) = close_step(closed);
    assert!(still_closed);
    assert_eq!(Closing::AlreadyClosed, second);
}
