//! What the lists show: the fixed table of categories and the entries of
//! the feed that was fetched last.

use crate::bitmap::{Bitmap, BitmapView};
use crate::compositor::{is_row, Labeled, ROW_HEIGHT, ROW_WIDTH};
use crate::rss::RSS;
use vstd::prelude::*;

verus! {

/// Number of categories.
pub const CATEGORY_COUNT: usize = 9;

/// Why a feed could not be had.
#[derive(Clone, Copy, Debug, PartialEq, Eq, Structural)]
pub enum FetchError {
    /// The document could not be retrieved.
    Network,
    /// The document could not be read as a feed.
    Parse,
}

/// Names and addresses of the categories, in display order.
pub open spec fn category_table() -> Seq<(Seq<char>, Seq<char>)> {
    seq![
        ("主要"@, "https://news.yahoo.co.jp/rss/topics/top-picks.xml"@),
        ("国内"@, "https://news.yahoo.co.jp/rss/topics/domestic.xml"@),
        ("国際"@, "https://news.yahoo.co.jp/rss/topics/world.xml"@),
        ("経済"@, "https://news.yahoo.co.jp/rss/topics/business.xml"@),
        ("エンタメ"@, "https://news.yahoo.co.jp/rss/topics/entertainment.xml"@),
        ("スポーツ"@, "https://news.yahoo.co.jp/rss/topics/sports.xml"@),
        ("IT"@, "https://news.yahoo.co.jp/rss/topics/it.xml"@),
        ("科学"@, "https://news.yahoo.co.jp/rss/topics/science.xml"@),
        ("地域"@, "https://news.yahoo.co.jp/rss/topics/local.xml"@),
    ]
}

/// Name and address of the category at `index` of the table.
pub fn category_entry(index: usize) -> (entry: (&'static str, &'static str))
    requires
        index < CATEGORY_COUNT,
    ensures
        entry.0@ == category_table()[index as int].0,
        entry.1@ == category_table()[index as int].1,
{
    match index {
        0 => ("主要", "https://news.yahoo.co.jp/rss/topics/top-picks.xml"),
        1 => ("国内", "https://news.yahoo.co.jp/rss/topics/domestic.xml"),
        2 => ("国際", "https://news.yahoo.co.jp/rss/topics/world.xml"),
        3 => ("経済", "https://news.yahoo.co.jp/rss/topics/business.xml"),
        4 => ("エンタメ", "https://news.yahoo.co.jp/rss/topics/entertainment.xml"),
        5 => ("スポーツ", "https://news.yahoo.co.jp/rss/topics/sports.xml"),
        6 => ("IT", "https://news.yahoo.co.jp/rss/topics/it.xml"),
        7 => ("科学", "https://news.yahoo.co.jp/rss/topics/science.xml"),
        _ => ("地域", "https://news.yahoo.co.jp/rss/topics/local.xml"),
    }
}

/// Mathematical model of a category.
pub struct FeedCategoryView {
    pub name: Seq<char>,
    pub source_url: Seq<char>,
    pub label: BitmapView,
}

/// A category: its name, where its feed is fetched from, and the raster of
/// its name.
#[derive(Debug)]
pub struct FeedCategory {
    name: String,
    source_url: String,
    label: Bitmap,
}

impl View for FeedCategory {
    type V = FeedCategoryView;

    closed spec fn view(&self) -> FeedCategoryView {
        FeedCategoryView { name: self.name@, source_url: self.source_url@, label: self.label@ }
    }
}

impl FeedCategory {
    #[verifier::type_invariant]
    spec fn inv(self) -> bool {
        is_row(self.label@)
    }

    /// A category, if `label` has the size of a row.
    pub fn new(name: String, source_url: String, label: Bitmap) -> (category: Option<Self>)
        ensures
            category is Some <==> is_row(label@),
            category matches Some(c) ==> c@ == (FeedCategoryView {
                name: name@,
                source_url: source_url@,
                label: label@,
            }),
    {
        if label.width() == ROW_WIDTH && label.height() == ROW_HEIGHT {
            Some(FeedCategory { name, source_url, label })
        } else {
            None
        }
    }

    /// The category's name.
    pub fn name(&self) -> (name: &String)
        ensures
            name@ == self@.name,
    {
        &self.name
    }

    /// Where the category's feed is fetched from.
    pub fn source_url(&self) -> (url: &String)
        ensures
            url@ == self@.source_url,
    {
        &self.source_url
    }
}

impl Labeled for FeedCategory {
    open spec fn label_view(&self) -> BitmapView {
        self@.label
    }

    fn label(&self) -> (img: &Bitmap) {
        proof {
            use_type_invariant(self);
        }
        &self.label
    }
}

/// The categories of the table, each with the raster of its name, or nothing
/// unless there is one raster of the size of a row for each of them.
pub fn categories(labels: &Vec<Bitmap>) -> (table: Option<Vec<FeedCategory>>)
    ensures
        table is Some <==> labels@.len() == CATEGORY_COUNT && forall|i: int|
            0 <= i < labels@.len() ==> is_row(#[trigger] labels@[i]@),
        table matches Some(t) ==> t@.len() == CATEGORY_COUNT && forall|i: int|
            0 <= i < CATEGORY_COUNT ==> (#[trigger] t@[i])@ == (FeedCategoryView {
                name: category_table()[i].0,
                source_url: category_table()[i].1,
                label: labels@[i]@,
            }),
{
    if labels.len() != CATEGORY_COUNT {
        return None;
    }
    let mut table: Vec<FeedCategory> = Vec::new();
    let mut i: usize = 0;
    while i < CATEGORY_COUNT
        invariant
            i <= CATEGORY_COUNT,
            labels@.len() == CATEGORY_COUNT,
            table@.len() == i,
            forall|j: int| 0 <= j < i ==> is_row(#[trigger] labels@[j]@),
            forall|j: int|
                0 <= j < i ==> (#[trigger] table@[j])@ == (FeedCategoryView {
                    name: category_table()[j].0,
                    source_url: category_table()[j].1,
                    label: labels@[j]@,
                }),
        decreases CATEGORY_COUNT - i,
    {
        let (name, url) = category_entry(i);
        match FeedCategory::new(name.to_owned(), url.to_owned(), labels[i].clone()) {
            None => {
                return None;
            },
            Some(category) => {
                table.push(category);
            },
        }
        i = i + 1;
    }
    Some(table)
}

/// Text that stands in for a description that the feed left out.
pub open spec fn placeholder() -> Seq<char> {
    "Not Found"@
}

/// Mathematical model of a feed entry.
pub struct FeedItemView {
    pub title: Seq<char>,
    pub description: Option<Seq<char>>,
    pub label: BitmapView,
}

impl FeedItemView {
    /// The text that the entry's own screen shows.
    pub open spec fn description_text(self) -> Seq<char> {
        match self.description {
            Some(text) => text,
            None => placeholder(),
        }
    }
}

/// The view of an optional text.
pub open spec fn text_view(text: Option<String>) -> Option<Seq<char>> {
    match text {
        Some(t) => Some(t@),
        None => None,
    }
}

/// An entry of a feed: its title, its description where the feed gave
/// one, and the raster of its title.
#[derive(Debug)]
pub struct FeedItem {
    title: String,
    description: Option<String>,
    label: Bitmap,
}

impl View for FeedItem {
    type V = FeedItemView;

    closed spec fn view(&self) -> FeedItemView {
        FeedItemView {
            title: self.title@,
            description: text_view(self.description),
            label: self.label@,
        }
    }
}

impl FeedItem {
    #[verifier::type_invariant]
    spec fn inv(self) -> bool {
        is_row(self.label@)
    }

    /// An entry, if `label` has the size of a row.
    pub fn new(title: String, description: Option<String>, label: Bitmap) -> (item: Option<Self>)
        ensures
            item is Some <==> is_row(label@),
            item matches Some(it) ==> it@ == (FeedItemView {
                title: title@,
                description: text_view(description),
                label: label@,
            }),
    {
        if label.width() == ROW_WIDTH && label.height() == ROW_HEIGHT {
            Some(FeedItem { title, description, label })
        } else {
            None
        }
    }

    /// The entry's title.
    pub fn title(&self) -> (title: &String)
        ensures
            title@ == self@.title,
    {
        &self.title
    }

    /// The text that the entry's own screen shows: its description, or the
    /// placeholder where the feed gave none.
    pub fn description_text(&self) -> (text: String)
        ensures
            text@ == self@.description_text(),
    {
        match &self.description {
            Some(text) => text.clone(),
            None => "Not Found".to_owned(),
        }
    }
}

impl Labeled for FeedItem {
    open spec fn label_view(&self) -> BitmapView {
        self@.label
    }

    fn label(&self) -> (img: &Bitmap) {
        proof {
            use_type_invariant(self);
        }
        &self.label
    }
}

/// The entries of a feed document, each with the raster of its title, or
/// nothing unless there is one raster of the size of a row for each of them.
pub fn feed_items(rss: &RSS, labels: &Vec<Bitmap>) -> (items: Option<Vec<FeedItem>>)
    ensures
        items is Some <==> labels@.len() == rss.channel.items@.len() && forall|i: int|
            0 <= i < labels@.len() ==> is_row(#[trigger] labels@[i]@),
        items matches Some(list) ==> list@.len() == labels@.len() && forall|i: int|
            0 <= i < list@.len() ==> (#[trigger] list@[i])@ == (FeedItemView {
                title: rss.channel.items@[i].title@,
                description: text_view(rss.channel.items@[i].description),
                label: labels@[i]@,
            }),
{
    let n = rss.channel.items.len();
    if labels.len() != n {
        return None;
    }
    let mut list: Vec<FeedItem> = Vec::new();
    let mut i: usize = 0;
    while i < n
        invariant
            i <= n,
            n == rss.channel.items@.len(),
            labels@.len() == n,
            list@.len() == i,
            forall|j: int| 0 <= j < i ==> is_row(#[trigger] labels@[j]@),
            forall|j: int|
                0 <= j < i ==> (#[trigger] list@[j])@ == (FeedItemView {
                    title: rss.channel.items@[j].title@,
                    description: text_view(rss.channel.items@[j].description),
                    label: labels@[j]@,
                }),
        decreases n - i,
    {
        let source = &rss.channel.items[i];
        let description = match &source.description {
            Some(text) => Some(text.clone()),
            None => None,
        };
        match FeedItem::new(source.title.clone(), description, labels[i].clone()) {
            None => {
                return None;
            },
            Some(item) => {
                list.push(item);
            },
        }
        i = i + 1;
    }
    Some(list)
}

} // verus!
