//! The rules of a directory listing.
//!
//! A listing shows the entries of one directory, one line each: the
//! permissions as `rwx` triplets and as octal digits, owner and group, the
//! time of the last change, the size with a decimal unit, and the name in
//! the colour of its kind. This crate holds what decides the lines and
//! their order. It reads no directory and prints nothing: a caller hands it
//! what it has read of each entry.
//!
//! - [`sorter`] orders the entries by path or by size, [`path_order`] is the
//!   order of paths, and [`order_laws`] states what holds of every order.
//! - [`options`] holds the options of a listing and the filter that they
//!   define.
//! - [`permissions`], [`size`], [`timestamp`] and [`style`] render the
//!   fields of a line, and [`line`] puts them together.
//! - [`text`] holds digits, numbers and right alignment.

pub mod line;
pub mod options;
pub mod order_laws;
pub mod path_order;
pub mod permissions;
pub mod size;
pub mod sorter;
pub mod style;
pub mod text;
pub mod timestamp;

pub use line::{compose_line, entry_line, entry_line_with, DirectoryEntry};
pub use options::{is_hidden, is_visible, ListingOptions, SortingKey};
pub use path_order::path_before;
pub use permissions::{mode_short, parse_permissions, triplet};
pub use size::{convert, hundredths_string};
pub use sorter::{entry_before, sort_order, EntryKeys};
pub use style::{name_style, paint, NameColor, NameStyle};
pub use text::{decimal_string, pad_left};
pub use timestamp::{format_modified, Timestamp};
