//! The durable outbox for unsent messages.
//!
//! - [`models`]: what a draft is and the one decision this library makes, whether a draft may
//!   go out now.
//! - [`store`]: the outbox, its orderings, and the claim that keeps two dispatchers from
//!   sending the same draft twice.
//! - [`api`]: what each route does to the outbox and what it answers.
//! - [`query`]: what a query string says.
//! - [`auth`]: the shared secret in front of the routes.
//! - [`dispatch`]: what the loop that sends ready drafts decides.
//! - [`laws`]: what holds of all of it together.
//! - [`text`], [`number`], [`percent`]: texts, whole numbers and percentages.

pub mod api;
pub mod auth;
pub mod dispatch;
pub mod laws;
pub mod models;
pub mod number;
pub mod percent;
pub mod query;
pub mod store;
pub mod text;
