//! A byte viewer: it cuts a byte stream into rows of fixed width, writes
//! each byte in a chosen base, and lets a user browse the rows with a
//! selection cursor and a scrolling window.
use vstd::prelude::*;

pub mod ansi;
pub mod app;
pub mod config;
pub mod format;
pub mod helpers;
pub mod nav;
pub mod row;
pub mod stream;
pub mod table;

pub use ansi::{Color, Colorable};
pub use app::App;
pub use config::{Args, Command, Output, View};
pub use format::Format;
pub use helpers::is_printable_ascii_character;
pub use nav::Key;
pub use row::Row;

verus! {

} // verus!
