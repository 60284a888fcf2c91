//! Core of a single-sign-on identity provider: credential checks, scope
//! resolution, single-use authorization tickets, token issuance with rotating
//! refresh tokens, and fixed-window request quotas.
//!
//! The core does no I/O. Its stores ([`ticket::TicketStore`],
//! [`refresh::RefreshStore`], [`quota::QuotaStore`]) say what the fast store
//! and the durable store must do in one step: place a ticket unless its code
//! is taken, take a ticket out if it is bound to the presenter, revoke a
//! refresh record and open its successor, count a request. A service loads
//! what a request touches into such a store, lets the core decide, and writes
//! the decision back with the one-step operation of the real store. Times are
//! seconds since the epoch, handed in by the caller.

pub mod authorize;
pub mod credential;
pub mod exchange;
pub mod handlers;
pub mod json;
pub mod otp;
pub mod permission;
pub mod quota;
pub mod refresh;
pub mod registry;
pub mod scope;
pub mod text;
pub mod ticket;
pub mod token;
