use auth_gateway::config::TupleKey;
use auth_gateway::webhooks::{
    created_response, decimal_of, deleted_response, registration_tuple, removal_batch,
    updated_response, UserCreatedEvent, UserDeletedEvent, UserUpdatedEvent,
};

#[test]
fn created_user_is_registered() {
    let t = registration_tuple("42");
    assert_eq!(t.user, "user:42");
    assert_eq!(t.relation, "member");
    assert_eq!(t.object, "organization:users");
    let e = UserCreatedEvent { user_id: "42".into(), user_name: "ann".into(), user_type: Some("human".into()) };
    let r = created_response(&e);
    assert_eq!(r.status, "success");
    assert_eq!(r.message, "User 42 registered in OpenFGA. Admin can now assign permissions.");
}

#[test]
fn update_is_acknowledged() {
    let e = UserUpdatedEvent { user_id: "7".into(), user_name: "bo".into() };
    let r = updated_response(&e);
    assert_eq!(r.status, "acknowledged");
    assert_eq!(r.message, "User 7 update acknowledged");
}

#[test]
fn deletion_answers() {
    let e = UserDeletedEvent { user_id: "9".into() };
    assert_eq!(deleted_response(&e, 0).message, "User 9 had no permissions to clean up");
    let r = deleted_response(&e, 12);
    assert_eq!(r.status, "success");
    assert_eq!(r.message, "User 9 deleted: cleaned up 12 permissions");
}

#[test]
fn removal_batch_deletes_everything_read() {
    let ts = vec![TupleKey { user: "user:9".into(), relation: "viewer".into(), object: "feature:a".into() }];
    let b = removal_batch(ts);
    assert_eq!(b.deletes.len(), 1);
    assert_eq!(b.deletes[0].object, "feature:a");
    assert!(b.writes.is_empty());
}

#[test]
fn decimal_numbers() {
    assert_eq!(decimal_of(0), "0");
    assert_eq!(decimal_of(7), "7");
    assert_eq!(decimal_of(10), "10");
    assert_eq!(decimal_of(1234567890), "1234567890");
    assert_eq!(decimal_of(u64::MAX), u64::MAX.to_string());
}
