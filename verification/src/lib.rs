//! Server side of the line printer daemon protocol (RFC 1179): a grammar
//! for its three kinds of lines, and the session that sequences commands,
//! files and acknowledgements.
//!
//! Nothing here reads or writes. [`parse`] turns a line into a value;
//! [`Worker`] says what is to be read or written next and takes what came of
//! it. Both are specified over models of their values, in [`parse::grammar`]
//! and [`session::model`], and what holds of all lines and of all sessions is
//! proved beside them.

pub mod error;
pub mod lpd;
pub mod parse;
pub mod session;

pub use crate::error::{Failure, LpdError};
pub use crate::session::{Event, Log, Worker};
pub use crate::session::model::Action;
