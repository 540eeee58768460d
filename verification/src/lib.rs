//! Request-handling logic of a small users web service: the in-memory user
//! store behind the CRUD routes, the replies of its routes, and the text that
//! the individual route handlers compute from their extracted inputs.

pub mod basics;
pub mod handlers;
pub mod routes;
pub mod text;
pub mod users;
