//! Session and identity management for visitors who sign in through an
//! OAuth identity provider.
//!
//! The crate performs no I/O. A caller hands it the session cookie and the
//! current time, carries out the token exchanges it asks for, and writes back
//! the cookie it leaves behind.
//!
//! - [`identity`]: the credentials of the providers and the session made of
//!   them.
//! - [`codec`]: the text of the session cookie, with [`text`] for its
//!   building blocks.
//! - [`refresh`]: which refresh token to exchange next, and what to make of
//!   the token endpoint's answer.
//! - [`session`]: the reading of a visitor's identity from the cookie of a
//!   request.
//! - [`lookup`]: the questions that lead from a session to an RCOS account.
//! - [`error`]: the errors of a request and the status each is answered
//!   with.
//! - [`meetings`]: the rules of the meeting edit form.

pub mod codec;
pub mod error;
pub mod identity;
pub mod lookup;
pub mod meetings;
pub mod refresh;
pub mod session;
pub mod text;
