//! Browsing a feed hierarchy on a 128x64 monochrome panel with three buttons:
//! a list of categories, the titles of one category's feed, and the
//! description of one entry.
//!
//! The crate holds the logic only and performs no input or output of its own:
//! the panel driver queues the bus transactions it wants written, the
//! navigation controller says which outside work it needs next, and the
//! caller carries both out.
//!
//! - [`pane`]: the windowed list with one highlighted row that every list
//!   screen is built on.
//! - [`bitmap`]: greyscale rasters and the pixel operations on them.
//! - [`compositor`]: the frame of a list, the rows that move a highlight,
//!   and the wrapping of text.
//! - [`nanohat`]: the panel's protocol and the meaning of a button wake-up.
//! - [`redraw`]: full and two-row redraws, from a pane to bus transactions.
//! - [`feed`] and [`rss`]: the categories and the entries that are listed.
//! - [`navigation`]: the three screens and the moves between them.

pub mod bitmap;
pub mod compositor;
pub mod feed;
pub mod nanohat;
pub mod navigation;
pub mod pane;
pub mod redraw;
pub mod rss;
