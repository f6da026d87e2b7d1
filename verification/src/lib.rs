//! The logic of a bar's recipe library service: user permissions, password
//! checks, recipe assembly and search, and the decisions that each request
//! handler takes between its database round trips.

pub mod clock;
pub mod ids;
pub mod passwords;
pub mod reply;
pub mod routes;
