//! The feed document as it comes from the network.

use vstd::prelude::*;

verus! {

/// A feed document.
#[derive(Debug)]
pub struct RSS {
    pub channel: Channel,
}

/// The one channel of a feed document.
#[derive(Debug)]
pub struct Channel {
    pub language: String,
    pub copyright: String,
    pub pub_date: String,
    pub title: String,
    pub link: String,
    pub description: String,
    pub items: Vec<Item>,
}

/// One entry of a channel. A feed may leave the description out.
#[derive(Debug)]
pub struct Item {
    pub title: String,
    pub link: String,
    pub pub_date: String,
    pub description: Option<String>,
    pub comments: String,
}

} // verus!
