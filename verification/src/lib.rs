//! Keeps a device whitelist on a session-authenticated web dashboard in step
//! with the addresses that a list of dynamic-DNS hostnames resolves to.
//!
//! The crate holds the decisions only: how a session cookie jar is kept, how a
//! redirect chain is followed, how a settings page is read back into its form
//! fields, and when the form is sent again. Sending requests, resolving names
//! and sleeping are left to the caller, which feeds each outcome back in.

pub mod cookies;
pub mod form;
pub mod markup;
pub mod percent;
pub mod reconcile;
pub mod session;
pub mod text;
pub mod textmap;
pub mod whitelist;
