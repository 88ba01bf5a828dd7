//! Identity-provider lifecycle callbacks: what each one writes to or removes
//! from the policy engine, and what it answers.
use vstd::prelude::*;
use crate::config::{TupleKey, concat_str, user_ref, user_ref_of};
use crate::migration::WriteBatch;

verus! {

/// A user was created at the identity provider.
#[derive(Clone, Debug)]
pub struct UserCreatedEvent {
    pub user_id: String,
    pub user_name: String,
    pub user_type: Option<String>,
}

/// A user was updated at the identity provider.
#[derive(Clone, Debug)]
pub struct UserUpdatedEvent {
    pub user_id: String,
    pub user_name: String,
}

/// A user was deleted at the identity provider.
#[derive(Clone, Debug)]
pub struct UserDeletedEvent {
    pub user_id: String,
}

/// The answer to a callback.
#[derive(Clone, Debug)]
pub struct WebhookResponse {
    pub status: String,
    pub message: String,
}

/// The decimal digit `d`.
pub open spec fn digit(d: nat) -> char {
    if d == 0 { '0' } else if d == 1 { '1' } else if d == 2 { '2' } else if d == 3 { '3' }
    else if d == 4 { '4' } else if d == 5 { '5' } else if d == 6 { '6' } else if d == 7 { '7' }
    else if d == 8 { '8' } else { '9' }
}

/// `n` written in decimal, without leading zeros.
pub open spec fn decimal(n: nat) -> Seq<char>
    decreases n,
{
    if n < 10 {
        seq![digit(n)]
    } else {
        decimal(n / 10).push(digit(n % 10))
    }
}

fn digit_str(d: u64) -> (r: &'static str)
    requires
        d < 10,
    ensures
        r@ == seq![digit(d as nat)],
{
    proof {
        reveal_strlit("0");
        reveal_strlit("1");
        reveal_strlit("2");
        reveal_strlit("3");
        reveal_strlit("4");
        reveal_strlit("5");
        reveal_strlit("6");
        reveal_strlit("7");
        reveal_strlit("8");
        reveal_strlit("9");
    }
    let r = if d == 0 { "0" } else if d == 1 { "1" } else if d == 2 { "2" } else if d == 3 { "3" }
    else if d == 4 { "4" } else if d == 5 { "5" } else if d == 6 { "6" } else if d == 7 { "7" }
    else if d == 8 { "8" } else { "9" };
    assert(r@ =~= seq![digit(d as nat)]);
    r
}

/// `n` written in decimal.
pub fn decimal_of(n: u64) -> (r: String)
    ensures
        r@ == decimal(n as nat),
    decreases n,
{
    if n < 10 {
        String::from_str(digit_str(n))
    } else {
        let mut s = decimal_of(n / 10);
        s.append(digit_str(n % 10));
        assert(s@ =~= decimal(n as nat));
        s
    }
}

/// The tuple that registers a user with the organization's user list.
pub open spec fn registration(user_id: Seq<char>) -> (Seq<char>, Seq<char>, Seq<char>) {
    (user_ref(user_id), "member"@, "organization:users"@)
}

/// The tuple written when a user is created: `user:<id>` is `member` of
/// `organization:users`. It grants no permission.
pub fn registration_tuple(user_id: &str) -> (r: TupleKey)
    ensures
        r@ == registration(user_id@),
{
    TupleKey {
        user: user_ref_of(user_id),
        relation: String::from_str("member"),
        object: String::from_str("organization:users"),
    }
}

/// The answer once a created user is registered.
pub fn created_response(event: &UserCreatedEvent) -> (r: WebhookResponse)
    ensures
        r.status@ == "success"@,
        r.message@ == "User "@ + event.user_id@ + " registered in OpenFGA. Admin can now assign permissions."@,
{
    let mut message = concat_str("User ", event.user_id.as_str());
    message.append(" registered in OpenFGA. Admin can now assign permissions.");
    WebhookResponse { status: String::from_str("success"), message }
}

/// The answer to an update: acknowledged, with nothing changed.
pub fn updated_response(event: &UserUpdatedEvent) -> (r: WebhookResponse)
    ensures
        r.status@ == "acknowledged"@,
        r.message@ == "User "@ + event.user_id@ + " update acknowledged"@,
{
    let mut message = concat_str("User ", event.user_id.as_str());
    message.append(" update acknowledged");
    WebhookResponse { status: String::from_str("acknowledged"), message }
}

/// The single batch that removes every tuple read for a deleted user.
pub fn removal_batch(tuples: Vec<TupleKey>) -> (r: WriteBatch)
    ensures
        r.deletes@ == tuples@,
        r.writes@.len() == 0,
{
    WriteBatch { deletes: tuples, writes: Vec::new() }
}

/// The answer once a deleted user's `removed` tuples are gone.
pub fn deleted_response(event: &UserDeletedEvent, removed: u64) -> (r: WebhookResponse)
    ensures
        r.status@ == "success"@,
        removed == 0 ==> r.message@ == "User "@ + event.user_id@ + " had no permissions to clean up"@,
        removed != 0 ==> r.message@ == "User "@ + event.user_id@ + " deleted: cleaned up "@ + decimal(
            removed as nat,
        ) + " permissions"@,
{
    let mut message = concat_str("User ", event.user_id.as_str());
    if removed == 0 {
        message.append(" had no permissions to clean up");
    } else {
        message.append(" deleted: cleaned up ");
        let count = decimal_of(removed);
        message.append(count.as_str());
        message.append(" permissions");
    }
    WebhookResponse { status: String::from_str("success"), message }
}

} // verus!
