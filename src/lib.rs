//! Birthday records for chat community members: a validated day-and-month
//! parser, a keyed store holding at most one record per member, and the
//! command handler that ties the two together, beside the small pieces of
//! logic behind the general commands.
pub mod date;
pub mod general;
pub mod handler;
pub mod laws;
pub mod store;
