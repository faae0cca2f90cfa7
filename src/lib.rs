//! Subscriber lifecycle of a newsletter service: input validation,
//! idempotent registration with a confirmation token, one-way confirmation,
//! operator credential checks and newsletter dispatch policy.
pub mod text;
pub mod token;
pub mod domain;
pub mod errors;
pub mod registry;
pub mod auth;
pub mod login;
pub mod newsletter;
