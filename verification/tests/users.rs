use axum_course::routes::{create_user, get_user, CreateUserResponse, NOT_FOUND};
use axum_course::text::decimal_string;
use axum_course::users::{MissingUser, UpdateUserRequest, UserWithoutId, UsersState};

fn user(name: &str, email: &str) -> UserWithoutId {
    UserWithoutId { name: name.to_string(), email: email.to_string() }
}

#[test]
fn decimal_string_values() {
    assert_eq!(decimal_string(0), "0");
    assert_eq!(decimal_string(7), "7");
    assert_eq!(decimal_string(42), "42");
    assert_eq!(decimal_string(1000), "1000");
    assert_eq!(decimal_string(u64::MAX), u64::MAX.to_string());
}

#[test]
fn new_store_is_empty() {
    let s = UsersState::new();
    assert_eq!(s.last_id(), 0);
    assert!(s.get_users().is_empty());
    assert!(s.get_user(1).is_none());
}

#[test]
fn read_after_create() {
    let mut s = UsersState::new();
    let id = s.create_user(user("Ann", "ann@example.com"));
    assert_eq!(id, 1);
    let u = s.get_user(id).unwrap();
    assert_eq!(u.id, 1);
    assert_eq!(u.name, "Ann");
    assert_eq!(u.email, "ann@example.com");
}

#[test]
fn consecutive_ids() {
    let mut s = UsersState::new();
    assert_eq!(s.create_user(user("a", "a@x")), 1);
    assert_eq!(s.create_user(user("b", "b@x")), 2);
    assert_eq!(s.create_user(user("c", "c@x")), 3);
    assert_eq!(s.last_id(), 3);
}

#[test]
fn create_user_route_answers_id() {
    let mut s = UsersState::new();
    assert_eq!(create_user(&mut s, user("a", "a@x")), CreateUserResponse { id: 1 });
    assert_eq!(create_user(&mut s, user("b", "b@x")), CreateUserResponse { id: 2 });
}

#[test]
fn get_user_route() {
    let mut s = UsersState::new();
    s.create_user(user("Ann", "ann@x"));
    let u = get_user(&s, 1).unwrap();
    assert_eq!((u.id, u.name.as_str(), u.email.as_str()), (1, "Ann", "ann@x"));
    assert_eq!(get_user(&s, 2).unwrap_err(), MissingUser { id: 2 });
}

#[test]
fn get_users_lists_each_once() {
    let mut s = UsersState::new();
    s.create_user(user("a", "a@x"));
    s.create_user(user("b", "b@x"));
    s.create_user(user("c", "c@x"));
    s.delete_user(2).unwrap();
    let mut all: Vec<(u64, String, String)> =
        s.get_users().into_iter().map(|u| (u.id, u.name, u.email)).collect();
    all.sort();
    assert_eq!(
        all,
        vec![(1, "a".to_string(), "a@x".to_string()), (3, "c".to_string(), "c@x".to_string())]
    );
}

#[test]
fn update_replaces_given_fields_only() {
    let mut s = UsersState::new();
    s.create_user(user("a", "a@x"));
    s.create_user(user("b", "b@x"));
    let r = s.update_user(1, UpdateUserRequest { name: Some("z".to_string()), email: None });
    assert_eq!(r, Ok(()));
    let u = s.get_user(1).unwrap();
    assert_eq!((u.name.as_str(), u.email.as_str()), ("z", "a@x"));
    let r = s.update_user(1, UpdateUserRequest { name: None, email: Some("z@x".to_string()) });
    assert_eq!(r, Ok(()));
    let u = s.get_user(1).unwrap();
    assert_eq!((u.name.as_str(), u.email.as_str()), ("z", "z@x"));
    let other = s.get_user(2).unwrap();
    assert_eq!((other.name.as_str(), other.email.as_str()), ("b", "b@x"));
}

#[test]
fn empty_update_changes_nothing() {
    let mut s = UsersState::new();
    s.create_user(user("a", "a@x"));
    assert_eq!(s.update_user(1, UpdateUserRequest { name: None, email: None }), Ok(()));
    let u = s.get_user(1).unwrap();
    assert_eq!((u.name.as_str(), u.email.as_str()), ("a", "a@x"));
    assert_eq!(s.last_id(), 1);
}

#[test]
fn update_of_missing_user_fails() {
    let mut s = UsersState::new();
    s.create_user(user("a", "a@x"));
    let r = s.update_user(9, UpdateUserRequest { name: Some("z".to_string()), email: None });
    assert_eq!(r, Err(MissingUser { id: 9 }));
    assert_eq!(s.get_users().len(), 1);
    assert_eq!(s.get_user(1).unwrap().name, "a");
}

#[test]
fn read_after_delete() {
    let mut s = UsersState::new();
    s.create_user(user("a", "a@x"));
    s.create_user(user("b", "b@x"));
    assert_eq!(s.delete_user(1), Ok(()));
    assert!(s.get_user(1).is_none());
    assert_eq!(s.delete_user(1), Err(MissingUser { id: 1 }));
    assert_eq!(s.get_user(2).unwrap().name, "b");
}

#[test]
fn delete_undoes_create() {
    let mut s = UsersState::new();
    s.create_user(user("a", "a@x"));
    let id = s.create_user(user("b", "b@x"));
    s.delete_user(id).unwrap();
    let all = s.get_users();
    assert_eq!(all.len(), 1);
    assert_eq!(all[0].id, 1);
    assert_eq!(s.last_id(), 2);
}

#[test]
fn ids_never_reused() {
    let mut s = UsersState::new();
    let id = s.create_user(user("a", "a@x"));
    s.delete_user(id).unwrap();
    let next = s.create_user(user("b", "b@x"));
    assert_ne!(next, id);
    assert_eq!(next, 2);
    assert!(s.get_user(id).is_none());
}

#[test]
fn missing_user_reply() {
    let reply = MissingUser { id: 5 }.into_response();
    assert_eq!(reply.status, NOT_FOUND);
    assert_eq!(reply.status, 404);
    assert_eq!(reply.details.id, 5);
    assert_eq!(reply.details.message, "User with id 5 not found");
    let reply = MissingUser { id: 1234567890 }.into_response();
    assert_eq!(reply.details.message, "User with id 1234567890 not found");
}

#[test]
fn created_user_persists_across_other_operations() {
    let mut s = UsersState::new();
    let id = s.create_user(user("Ann", "ann@x"));
    let other = s.create_user(user("b", "b@x"));
    s.update_user(other, UpdateUserRequest { name: Some("z".to_string()), email: None }).unwrap();
    s.delete_user(other).unwrap();
    assert_eq!(s.delete_user(77), Err(MissingUser { id: 77 }));
    s.create_user(user("c", "c@x"));
    let u = s.get_user(id).unwrap();
    assert_eq!((u.id, u.name.as_str(), u.email.as_str()), (1, "Ann", "ann@x"));
}
