//! What holds of the outbox as a whole, and what each call on it is for.

pub mod answers;
pub mod calls;
pub mod changes;
pub mod fields;
pub mod judging;
pub mod keeping;
pub mod lists;
pub mod parts;
pub mod reading;
pub mod routes;
pub mod sending;
pub mod waiting;
pub mod wording;
