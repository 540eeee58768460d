//! What the users routes answer: the results of the handlers for
//! `GET /users/:id` and `POST /users`, and the reply to a missing user.

use crate::text::{decimal, push_decimal};
use crate::users::{MissingUser, User, UserWithoutId, UsersState};
use vstd::prelude::*;
use vstd::string::StringExecFns;

verus! {

/// The HTTP status of a reply about a missing user: 404 Not Found.
pub const NOT_FOUND: u16 = 404;

/// The reply body of a successful creation.
#[derive(Debug, PartialEq, Eq, Structural)]
pub struct CreateUserResponse {
    pub id: u64,
}

/// The body of a reply about a missing user.
#[derive(Debug)]
pub struct MissingUserErrorDetails {
    pub id: u64,
    pub message: String,
}

/// A reply about a missing user: its status and its body.
#[derive(Debug)]
pub struct ErrorReply {
    pub status: u16,
    pub details: MissingUserErrorDetails,
}

/// The message of a reply about the missing user `id`:
/// `User with id <id> not found`.
pub open spec fn missing_user_message(id: u64) -> Seq<char> {
    "User with id "@ + decimal(id as nat) + " not found"@
}

impl MissingUser {
    /// The reply for this error: 404 with the id and a message naming it.
    pub fn into_response(self) -> (reply: ErrorReply)
        ensures
            reply.status == NOT_FOUND,
            reply.details.id == self.id,
            reply.details.message@ == missing_user_message(self.id),
    {
        let mut message = String::from_str("User with id ");
        push_decimal(&mut message, self.id);
        message.append(" not found");
        ErrorReply { status: NOT_FOUND, details: MissingUserErrorDetails { id: self.id, message } }
    }
}

/// The answer to `GET /users/:id`: the stored user, or the missing-user
/// error for `id`.
pub fn get_user(state: &UsersState, id: u64) -> (r: Result<User, MissingUser>)
    ensures
        match state@.lookup(id) {
            Some(rec) => r matches Ok(u) && u.id == id && u.record() == rec && u.name@ == rec.name
                && u.email@ == rec.email,
            None => r == Err::<User, MissingUser>(MissingUser { id }),
        },
{
    match state.get_user(id) {
        Some(user) => Ok(user),
        None => Err(MissingUser { id }),
    }
}

/// The answer to `POST /users`: stores the user under the next id and
/// returns that id.
pub fn create_user(state: &mut UsersState, create_request: UserWithoutId) -> (r: CreateUserResponse)
    requires
        old(state).wf(),
        old(state)@.last_id < u64::MAX,
    ensures
        final(state).wf(),
        r.id == old(state)@.next_id(),
        final(state)@ == old(state)@.create(create_request@),
{
    let id = state.create_user(create_request);
    CreateUserResponse { id }
}

} // verus!
