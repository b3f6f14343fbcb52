//! A feed's channel with its items, as read in full from an RSS feed.

use vstd::prelude::*;
use crate::model::Timestamp;

verus! {

/// A feed's channel with all of its items.
pub struct Channel {
    pub title: String,
    pub link: String,
    pub language: String,
    pub last_build_date: Timestamp,
    pub items: Vec<Item>,
}

/// An item of a channel.
pub struct Item {
    pub guid: String,
    pub title: String,
    pub link: String,
    pub description: String,
    pub pub_date: Timestamp,
}

/// An item, as text.
pub struct ItemView {
    pub guid: Seq<char>,
    pub title: Seq<char>,
    pub link: Seq<char>,
    pub description: Seq<char>,
    pub pub_date: Timestamp,
}

/// A channel with its items, as text.
pub struct ChannelView {
    pub title: Seq<char>,
    pub link: Seq<char>,
    pub language: Seq<char>,
    pub last_build_date: Timestamp,
    pub items: Seq<ItemView>,
}

impl View for Item {
    type V = ItemView;

    open spec fn view(&self) -> ItemView {
        ItemView {
            guid: self.guid@,
            title: self.title@,
            link: self.link@,
            description: self.description@,
            pub_date: self.pub_date,
        }
    }
}

/// The views of a list of items.
pub open spec fn items_view(items: Seq<Item>) -> Seq<ItemView> {
    items.map_values(|i: Item| i@)
}

impl View for Channel {
    type V = ChannelView;

    open spec fn view(&self) -> ChannelView {
        ChannelView {
            title: self.title@,
            link: self.link@,
            language: self.language@,
            last_build_date: self.last_build_date,
            items: items_view(self.items@),
        }
    }
}

impl Channel {
    /// A channel with the given fields.
    pub fn new(
        title: &str,
        link: &str,
        language: &str,
        last_build_date: Timestamp,
        items: Vec<Item>,
    ) -> (c: Self)
        ensures
            c.title@ == title@,
            c.link@ == link@,
            c.language@ == language@,
            c.last_build_date == last_build_date,
            c.items@ == items@,
    {
        Channel {
            title: title.to_owned(),
            link: link.to_owned(),
            language: language.to_owned(),
            last_build_date,
            items,
        }
    }

    /// The channel's title.
    pub fn title(&self) -> (r: &str)
        ensures
            r@ == self.title@,
    {
        self.title.as_str()
    }

    /// The channel's link.
    pub fn link(&self) -> (r: &str)
        ensures
            r@ == self.link@,
    {
        self.link.as_str()
    }

    /// The channel's language.
    pub fn language(&self) -> (r: &str)
        ensures
            r@ == self.language@,
    {
        self.language.as_str()
    }

    /// When the channel was last built.
    pub fn last_build_date(&self) -> (r: Timestamp)
        ensures
            r == self.last_build_date,
    {
        self.last_build_date
    }

    /// The channel's items.
    pub fn items(&self) -> (r: &[Item])
        ensures
            r@ == self.items@,
    {
        self.items.as_slice()
    }
}

impl Item {
    /// An item with the given fields.
    pub fn new(guid: &str, title: &str, link: &str, description: &str, pub_date: Timestamp) -> (i: Self)
        ensures
            i.guid@ == guid@,
            i.title@ == title@,
            i.link@ == link@,
            i.description@ == description@,
            i.pub_date == pub_date,
    {
        Item {
            guid: guid.to_owned(),
            title: title.to_owned(),
            link: link.to_owned(),
            description: description.to_owned(),
            pub_date,
        }
    }

    /// The item's guid.
    pub fn guid(&self) -> (r: &str)
        ensures
            r@ == self.guid@,
    {
        self.guid.as_str()
    }

    /// The item's title.
    pub fn title(&self) -> (r: &str)
        ensures
            r@ == self.title@,
    {
        self.title.as_str()
    }

    /// The item's link.
    pub fn link(&self) -> (r: &str)
        ensures
            r@ == self.link@,
    {
        self.link.as_str()
    }

    /// The item's description.
    pub fn description(&self) -> (r: &str)
        ensures
            r@ == self.description@,
    {
        self.description.as_str()
    }

    /// When the item was published.
    pub fn pub_date(&self) -> (r: Timestamp)
        ensures
            r == self.pub_date,
    {
        self.pub_date
    }
}

} // verus!
