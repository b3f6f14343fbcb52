//! News sources: what is collected from a feed or a page, and how.

pub mod html;
pub mod rss;

use vstd::prelude::*;
use crate::model::Timestamp;

verus! {

/// A configured news source.
pub enum Config {
    Rss(rss::Config),
    Html(html::Config),
}

/// The channel that a source's items belong to.
pub struct Channel {
    pub title: String,
    pub link: String,
    pub language: String,
    pub last_build_date: Option<Timestamp>,
}

/// A collected news item.
pub struct Item {
    pub guid: String,
    pub title: String,
    pub link: String,
    pub pub_date: Timestamp,
    /// The item's categories, as a JSON array of strings.
    pub tags: Option<String>,
}

/// What one source gave: its channel and items.
pub struct Data {
    pub channel: Channel,
    pub items: Vec<Item>,
}

/// The view of an optional string.
pub open spec fn opt_view(o: Option<String>) -> Option<Seq<char>> {
    match o {
        Some(s) => Some(s@),
        None => None,
    }
}

/// A channel, as text.
pub struct ChannelView {
    pub title: Seq<char>,
    pub link: Seq<char>,
    pub language: Seq<char>,
    pub last_build_date: Option<Timestamp>,
}

/// An item, as text.
pub struct ItemView {
    pub guid: Seq<char>,
    pub title: Seq<char>,
    pub link: Seq<char>,
    pub pub_date: Timestamp,
    pub tags: Option<Seq<char>>,
}

/// What a source gave, as text.
pub struct DataView {
    pub channel: ChannelView,
    pub items: Seq<ItemView>,
}

impl View for Channel {
    type V = ChannelView;

    open spec fn view(&self) -> ChannelView {
        ChannelView {
            title: self.title@,
            link: self.link@,
            language: self.language@,
            last_build_date: self.last_build_date,
        }
    }
}

impl View for Item {
    type V = ItemView;

    open spec fn view(&self) -> ItemView {
        ItemView {
            guid: self.guid@,
            title: self.title@,
            link: self.link@,
            pub_date: self.pub_date,
            tags: opt_view(self.tags),
        }
    }
}

/// The views of a list of items.
pub open spec fn items_view(items: Seq<Item>) -> Seq<ItemView> {
    items.map_values(|i: Item| i@)
}

impl View for Data {
    type V = DataView;

    open spec fn view(&self) -> DataView {
        DataView { channel: self.channel@, items: items_view(self.items@) }
    }
}

/// Why a source could not be collected.
#[derive(Debug)]
pub enum CollectError {
    /// Required data is missing; the text says which.
    MissingData(String),
    /// A date is not in the form the source was expected to use.
    InvalidDate,
    /// The document is not a readable RSS feed.
    InvalidFeed,
    /// The item selector is not valid, or an item of the page lacks an element that a
    /// field selector describes, or one of its fields cannot be read.
    Unscrapable,
}

/// Why a source could not be collected, as text.
pub enum CollectErrorView {
    MissingData(Seq<char>),
    InvalidDate,
    InvalidFeed,
    Unscrapable,
}

impl View for CollectError {
    type V = CollectErrorView;

    open spec fn view(&self) -> CollectErrorView {
        match self {
            CollectError::MissingData(d) => CollectErrorView::MissingData(d@),
            CollectError::InvalidDate => CollectErrorView::InvalidDate,
            CollectError::InvalidFeed => CollectErrorView::InvalidFeed,
            CollectError::Unscrapable => CollectErrorView::Unscrapable,
        }
    }
}

/// The view of a collection result.
pub open spec fn result_view(r: Result<Data, CollectError>) -> Result<DataView, CollectErrorView> {
    match r {
        Ok(d) => Ok(d@),
        Err(e) => Err(e@),
    }
}

/// What the source `config` gives, from the document fetched from its URL.
pub open spec fn source_data(config: Config, document: Seq<char>) -> Result<DataView, CollectErrorView> {
    match config {
        Config::Rss(c) => rss::rss_data(c.url@, rss::parsed_feed(document)),
        Config::Html(c) => html::html_data(c@, document),
    }
}

/// Collects from the document fetched from a source's URL.
pub fn fetch(config: &Config, document: &str) -> (r: Result<Data, CollectError>)
    ensures
        result_view(r) == source_data(*config, document@),
{
    match config {
        Config::Rss(c) => rss::fetch(c, document),
        Config::Html(c) => html::fetch(c, document),
    }
}

} // verus!
