//! A single-document text-editing core: a character buffer with
//! Emacs-style navigation, killing and yanking, undo/redo, incremental
//! search, and interactive query-replace.
//!
//! Every position handed to or returned by the library is a character
//! offset into the buffer, never a byte offset.

use vstd::prelude::*;

pub mod commands;
pub mod complete;
pub mod config;
pub mod cursor;
pub mod decode;
pub mod edit;
pub mod laws;
pub mod model;
pub mod msg;
pub mod search;
pub mod state;
pub mod text;
pub mod textops;
pub mod undo;

verus! {

} // verus!
