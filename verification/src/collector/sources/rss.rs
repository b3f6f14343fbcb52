//! RSS sources: the channel and items of a feed.

use vstd::prelude::*;
use crate::collector::sources::{
    items_view, opt_view, Channel, ChannelView, CollectError, CollectErrorView, Data, DataView,
    Item, ItemView,
};
use crate::dates::{parse_rfc2822, rfc2822_local_time};
use crate::error::IsRequired;
use crate::model::strings_view;
use crate::models;

verus! {

/// An RSS source: the URL of its feed.
pub struct Config {
    pub url: String,
}

/// An item of a feed, as the feed gives it.
pub struct FeedItem {
    pub title: Option<String>,
    pub link: Option<String>,
    pub description: Option<String>,
    /// The value of the item's guid.
    pub guid: Option<String>,
    pub pub_date: Option<String>,
    /// The names of the item's categories.
    pub categories: Vec<String>,
}

/// A feed's channel, as the feed gives it.
pub struct Feed {
    pub title: String,
    pub language: Option<String>,
    pub last_build_date: Option<String>,
    pub items: Vec<FeedItem>,
}

/// A feed item, as text.
pub struct FeedItemView {
    pub title: Option<Seq<char>>,
    pub link: Option<Seq<char>>,
    pub description: Option<Seq<char>>,
    pub guid: Option<Seq<char>>,
    pub pub_date: Option<Seq<char>>,
    pub categories: Seq<Seq<char>>,
}

/// A feed, as text.
pub struct FeedView {
    pub title: Seq<char>,
    pub language: Option<Seq<char>>,
    pub last_build_date: Option<Seq<char>>,
    pub items: Seq<FeedItemView>,
}

impl View for FeedItem {
    type V = FeedItemView;

    open spec fn view(&self) -> FeedItemView {
        FeedItemView {
            title: opt_view(self.title),
            link: opt_view(self.link),
            description: opt_view(self.description),
            guid: opt_view(self.guid),
            pub_date: opt_view(self.pub_date),
            categories: strings_view(self.categories@),
        }
    }
}

impl View for Feed {
    type V = FeedView;

    open spec fn view(&self) -> FeedView {
        FeedView {
            title: self.title@,
            language: opt_view(self.language),
            last_build_date: opt_view(self.last_build_date),
            items: self.items@.map_values(|i: FeedItem| i@),
        }
    }
}

/// The view of an optional feed.
pub open spec fn feed_view(f: Option<Feed>) -> Option<FeedView> {
    match f {
        Some(f) => Some(f@),
        None => None,
    }
}

/// The feed that the RSS document `xml` holds, or `None` if it is not a readable feed.
pub uninterp spec fn parsed_feed(xml: Seq<char>) -> Option<FeedView>;

/// The hexadecimal digit, in lower case, of a number below 16.
pub open spec fn hex_digit(d: int) -> char {
    if d < 10 {
        (('0' as int) + d) as char
    } else {
        (('a' as int) + d - 10) as char
    }
}

/// How a character is written inside a JSON string: a quote and a backslash behind a
/// backslash; backspace, tab, line feed, form feed and carriage return as `\b`, `\t`,
/// `\n`, `\f` and `\r`; the other control characters below U+0020 as `\u00` and two
/// hexadecimal digits; every other character as itself.
pub open spec fn json_escaped_char(c: char) -> Seq<char> {
    let n = c as int;
    if c == '"' || c == '\\' {
        seq!['\\', c]
    } else if n == 8 {
        seq!['\\', 'b']
    } else if n == 9 {
        seq!['\\', 't']
    } else if n == 10 {
        seq!['\\', 'n']
    } else if n == 12 {
        seq!['\\', 'f']
    } else if n == 13 {
        seq!['\\', 'r']
    } else if n < 32 {
        seq!['\\', 'u', '0', '0', hex_digit(n / 16), hex_digit(n % 16)]
    } else {
        seq![c]
    }
}

/// The characters of `s`, each as it is written inside a JSON string.
pub open spec fn json_escaped(s: Seq<char>) -> Seq<char>
    decreases s.len(),
{
    if s.len() == 0 {
        seq![]
    } else {
        json_escaped(s.drop_last()) + json_escaped_char(s.last())
    }
}

/// `s` as a JSON string: its escaped characters between double quotes.
pub open spec fn json_string(s: Seq<char>) -> Seq<char> {
    seq!['"'] + json_escaped(s) + seq!['"']
}

/// The JSON strings of `names`, separated by commas.
pub open spec fn json_elements(names: Seq<Seq<char>>) -> Seq<char>
    decreases names.len(),
{
    if names.len() == 0 {
        seq![]
    } else if names.len() == 1 {
        json_string(names[0])
    } else {
        json_elements(names.drop_last()) + seq![','] + json_string(names.last())
    }
}

/// `names` as a JSON array of strings, written without white space.
pub open spec fn json_string_array(names: Seq<Seq<char>>) -> Seq<char> {
    seq!['['] + json_elements(names) + seq![']']
}

/// Reads an RSS document (`rss::Channel::read_from`) and keeps, field for field, what
/// the pipeline reads of it (of each item's guid its value, of its categories their
/// names). The result is named by `parsed_feed`: it depends on `xml` alone.
#[verifier::external_body]
fn read_feed(xml: &str) -> (r: Option<Feed>)
    ensures
        feed_view(r) == parsed_feed(xml@),
{
    match ::rss::Channel::read_from(xml.as_bytes()) {
        Ok(ch) => Some(Feed {
            title: ch.title, language: ch.language, last_build_date: ch.last_build_date,
            items: ch.items.into_iter().map(|i| FeedItem {
                title: i.title, link: i.link, description: i.description,
                guid: i.guid.map(|g| g.value), pub_date: i.pub_date,
                categories: i.categories.into_iter().map(|c| c.name).collect(),
            }).collect(),
        }),
        Err(_) => None,
    }
}

/// Writes a list of strings as a JSON array (`serde_json::to_string`, with its compact
/// formatter). Writing a sequence of strings into a `String` cannot fail; the text is
/// `json_string_array` of the strings: `[`, the strings in order between double quotes
/// and separated by commas, `]`, with serde_json's escapes inside the strings.
#[verifier::external_body]
fn strings_json(names: &Vec<String>) -> (r: String)
    ensures
        r@ == json_string_array(strings_view(names@)),
{
    serde_json::to_string(names).unwrap_or_default()
}

/// The item made of a feed item, or why it cannot be made: its publication date, guid,
/// title and link are required, the date must be an RFC 2822 date (its local date and
/// time is kept), and its categories become a JSON array of their names.
pub open spec fn feed_item_result(fi: FeedItemView) -> Result<ItemView, CollectErrorView> {
    match fi.pub_date {
        None => Err(CollectErrorView::MissingData("item pub_date"@)),
        Some(d) => match rfc2822_local_time(d) {
            None => Err(CollectErrorView::InvalidDate),
            Some(t) => match fi.guid {
                None => Err(CollectErrorView::MissingData("item guid"@)),
                Some(g) => match fi.title {
                    None => Err(CollectErrorView::MissingData("item title"@)),
                    Some(ti) => match fi.link {
                        None => Err(CollectErrorView::MissingData("item link"@)),
                        Some(l) => Ok(
                            ItemView {
                                guid: g,
                                title: ti,
                                link: l,
                                pub_date: t,
                                tags: Some(json_string_array(fi.categories)),
                            },
                        ),
                    },
                },
            },
        },
    }
}

/// The items made of the feed items, or the first reason why one cannot be made.
pub open spec fn feed_items_result(fis: Seq<FeedItemView>) -> Result<Seq<ItemView>, CollectErrorView>
    decreases fis.len(),
{
    if fis.len() == 0 {
        Ok(seq![])
    } else {
        match feed_items_result(fis.drop_last()) {
            Err(e) => Err(e),
            Ok(prev) => match feed_item_result(fis.last()) {
                Err(e) => Err(e),
                Ok(i) => Ok(prev.push(i)),
            },
        }
    }
}

/// What an RSS source at `url` gives, from its feed (`None` if the document was no
/// readable feed): the channel takes its title from the feed, its link from `url`, its
/// required language from the feed, and its last build date from the feed when that is
/// an RFC 2822 date; then come the items.
pub open spec fn rss_data(url: Seq<char>, feed: Option<FeedView>) -> Result<DataView, CollectErrorView> {
    match feed {
        None => Err(CollectErrorView::InvalidFeed),
        Some(f) => {
            let last_build_date = match f.last_build_date {
                Some(d) => rfc2822_local_time(d),
                None => None,
            };
            match f.language {
                None => Err(CollectErrorView::MissingData("channel language"@)),
                Some(language) => match feed_items_result(f.items) {
                    Err(e) => Err(e),
                    Ok(items) => Ok(
                        DataView {
                            channel: ChannelView { title: f.title, link: url, language, last_build_date },
                            items,
                        },
                    ),
                },
            }
        },
    }
}

/// The view of an item result.
pub open spec fn item_result_view(r: Result<Item, CollectError>) -> Result<ItemView, CollectErrorView> {
    match r {
        Ok(i) => Ok(i@),
        Err(e) => Err(e@),
    }
}

/// A missing value reported as a collection error.
fn require_text(value: Option<String>, details: &str) -> (r: Result<String, CollectError>)
    ensures
        match value {
            Some(v) => r is Ok && r->Ok_0@ == v@,
            None => r is Err && r->Err_0@ == CollectErrorView::MissingData(details@),
        },
{
    match value.required(details) {
        Ok(v) => Ok(v),
        Err(m) => Err(CollectError::MissingData(m.details)),
    }
}

/// The item made of a feed item.
pub fn item_from_feed(fi: FeedItem) -> (r: Result<Item, CollectError>)
    ensures
        item_result_view(r) == feed_item_result(fi@),
{
    let ghost v = fi@;
    let pub_date = require_text(fi.pub_date, "item pub_date")?;
    let pub_date = match parse_rfc2822(pub_date.as_str()) {
        Some(t) => t,
        None => return Err(CollectError::InvalidDate),
    };
    let guid = require_text(fi.guid, "item guid")?;
    let title = require_text(fi.title, "item title")?;
    let link = require_text(fi.link, "item link")?;
    let tags = strings_json(&fi.categories);
    let item = Item { guid, title, link, pub_date, tags: Some(tags) };
    assert(item@ == feed_item_result(v)->Ok_0);
    Ok(item)
}

/// What an RSS source at `url` gives, from its feed.
pub fn data_from_feed(url: &str, feed: Feed) -> (r: Result<Data, CollectError>)
    ensures
        crate::collector::sources::result_view(r) == rss_data(url@, Some(feed@)),
{
    let ghost fv = feed@;
    let last_build_date = match feed.last_build_date {
        Some(d) => parse_rfc2822(d.as_str()),
        None => None,
    };
    let language = require_text(feed.language, "channel language")?;
    let channel = Channel { title: feed.title, link: url.to_owned(), language, last_build_date };
    let mut rest = feed.items;
    let mut items: Vec<Item> = Vec::new();
    let ghost mut i: int = 0;
    let ghost all = fv.items;
    assert(all.take(0) =~= Seq::<FeedItemView>::empty());
    assert(items_view(items@) =~= Seq::<ItemView>::empty());
    assert(all.skip(0) =~= all);
    assert(rest@.map_values(|x: FeedItem| x@) =~= all.skip(0));
    while rest.len() > 0
        invariant
            all == fv.items,
            fv == feed@,
            fv.language is Some,
            0 <= i <= all.len(),
            rest@.map_values(|x: FeedItem| x@) == all.skip(i),
            feed_items_result(all.take(i)) == Ok::<Seq<ItemView>, CollectErrorView>(items_view(items@)),
        decreases rest.len(),
    {
        let ghost before = rest@;
        assert(before.map_values(|x: FeedItem| x@).len() == before.len());
        assert(i < all.len());
        let fi = rest.remove(0);
        assert(fi@ == all[i]) by {
            assert(before.map_values(|x: FeedItem| x@)[0] == all.skip(i)[0]);
        }
        assert(all.take(i + 1).drop_last() =~= all.take(i));
        assert(all.take(i + 1).last() == all[i]);
        let item = match item_from_feed(fi) {
            Ok(item) => item,
            Err(e) => {
                proof {
                    lemma_first_error_stays(all, i + 1);
                }
                return Err(e);
            },
        };
        let ghost prev = items@;
        items.push(item);
        assert(items_view(items@) =~= items_view(prev).push(item@));
        assert(rest@.map_values(|x: FeedItem| x@) =~= before.map_values(|x: FeedItem| x@).skip(1));
        assert(all.skip(i).skip(1) =~= all.skip(i + 1));
        proof {
            i = i + 1;
        }
    }
    assert(all.take(i) =~= all);
    Ok(Data { channel, items })
}

/// An error among the first items is the error of all the items.
proof fn lemma_first_error_stays(all: Seq<FeedItemView>, k: int)
    requires
        0 <= k <= all.len(),
        feed_items_result(all.take(k)) is Err,
    ensures
        feed_items_result(all) == feed_items_result(all.take(k)),
    decreases all.len() - k,
{
    if k == all.len() {
        assert(all.take(k) =~= all);
    } else {
        assert(all.take(k + 1).drop_last() =~= all.take(k));
        lemma_first_error_stays(all, k + 1);
    }
}

/// What the RSS source `config` gives, from the document fetched from its URL.
pub fn fetch(config: &Config, document: &str) -> (r: Result<Data, CollectError>)
    ensures
        crate::collector::sources::result_view(r) == rss_data(config.url@, parsed_feed(document@)),
{
    match read_feed(document) {
        Some(feed) => data_from_feed(config.url.as_str(), feed),
        None => Err(CollectError::InvalidFeed),
    }
}

/// Whether a feed item has all that an item is made of: a guid, a title, a link and a
/// publication date that is an RFC 2822 date.
pub open spec fn feed_item_complete(fi: FeedItemView) -> bool {
    &&& fi.pub_date is Some
    &&& rfc2822_local_time(fi.pub_date->Some_0) is Some
    &&& fi.guid is Some
    &&& fi.title is Some
    &&& fi.link is Some
}

/// The feed items give items exactly when each of them is complete, one item for each.
proof fn lemma_items_complete(fis: Seq<FeedItemView>)
    ensures
        feed_items_result(fis) is Ok <==> forall|k: int|
            0 <= k < fis.len() ==> #[trigger] feed_item_complete(fis[k]),
        feed_items_result(fis) is Ok ==> feed_items_result(fis)->Ok_0.len() == fis.len(),
    decreases fis.len(),
{
    if fis.len() > 0 {
        let init = fis.drop_last();
        lemma_items_complete(init);
        assert forall|k: int| 0 <= k < init.len() implies init[k] == fis[k] by {}
        if feed_items_result(fis) is Ok {
            assert forall|k: int| 0 <= k < fis.len() implies #[trigger] feed_item_complete(fis[k]) by {
                if k < init.len() {
                    assert(feed_item_complete(init[k]));
                }
            }
        }
        if forall|k: int| 0 <= k < fis.len() ==> #[trigger] feed_item_complete(fis[k]) {
            assert(feed_item_complete(fis[fis.len() - 1]));
            assert forall|k: int| 0 <= k < init.len() implies #[trigger] feed_item_complete(init[k]) by {
                assert(feed_item_complete(fis[k]));
            }
        }
    }
}

/// An RSS source gives its data exactly when the feed has a language and every item of
/// it has a guid, a title, a link and an RFC 2822 publication date; it then gives one
/// item per feed item, in the feed's order, whether or not the feed has a readable last
/// build date.
pub proof fn law_rss_data_needs_complete_items(url: Seq<char>, f: FeedView)
    ensures
        rss_data(url, Some(f)) is Ok <==> (f.language is Some && forall|k: int|
            0 <= k < f.items.len() ==> #[trigger] feed_item_complete(f.items[k])),
        rss_data(url, Some(f)) is Ok ==> {
            let d = rss_data(url, Some(f))->Ok_0;
            &&& d.items.len() == f.items.len()
            &&& forall|k: int| 0 <= k < f.items.len() ==> feed_item_result(#[trigger] f.items[k])
                == Ok::<ItemView, CollectErrorView>(d.items[k])
        },
{
    lemma_items_complete(f.items);
    lemma_items_in_order(f.items);
}

/// Each item that the feed items give is made of the feed item in its place.
proof fn lemma_items_in_order(fis: Seq<FeedItemView>)
    ensures
        feed_items_result(fis) is Ok ==> forall|k: int| 0 <= k < fis.len() ==> feed_item_result(
            #[trigger] fis[k],
        ) == Ok::<ItemView, CollectErrorView>(feed_items_result(fis)->Ok_0[k]),
    decreases fis.len(),
{
    if fis.len() > 0 {
        let init = fis.drop_last();
        lemma_items_in_order(init);
        lemma_items_complete(init);
        if feed_items_result(fis) is Ok {
            assert forall|k: int| 0 <= k < fis.len() implies feed_item_result(#[trigger] fis[k])
                == Ok::<ItemView, CollectErrorView>(feed_items_result(fis)->Ok_0[k]) by {
                if k < init.len() {
                    assert(init[k] == fis[k]);
                }
            }
        }
    }
}

/// An item made of a feed item keeps the feed item's guid, title and link, takes the
/// local time of its RFC 2822 publication date, and has as tags the JSON array of the
/// names of all of the feed item's categories, in order.
pub proof fn law_item_keeps_feed_item(fi: FeedItemView)
    ensures
        feed_item_result(fi) matches Ok(item) ==> {
            &&& fi.guid == Some(item.guid)
            &&& fi.title == Some(item.title)
            &&& fi.link == Some(item.link)
            &&& fi.pub_date is Some
            &&& rfc2822_local_time(fi.pub_date->Some_0) == Some(item.pub_date)
            &&& item.tags == Some(json_string_array(fi.categories))
        },
        feed_item_complete(fi) ==> feed_item_result(fi) is Ok,
{
}

/// Whether no character of `s` is escaped in a JSON string: no quote, no backslash and
/// no control character below U+0020.
pub open spec fn json_plain(s: Seq<char>) -> bool {
    forall|i: int| 0 <= i < s.len() ==> (#[trigger] s[i]) != '"' && s[i] != '\\' && (s[i] as int) >= 32
}

proof fn lemma_json_escaped_plain(s: Seq<char>)
    requires
        json_plain(s),
    ensures
        json_escaped(s) == s,
    decreases s.len(),
{
    if s.len() > 0 {
        let p = s.drop_last();
        assert forall|i: int| 0 <= i < p.len() implies (#[trigger] p[i]) != '"' && p[i] != '\\'
            && (p[i] as int) >= 32 by {
            assert(p[i] == s[i]);
        }
        lemma_json_escaped_plain(p);
        assert(s.last() == s[s.len() - 1]);
        assert(p + seq![s.last()] =~= s);
    }
}

/// The JSON array of strings: `[]` for none; a string that needs no escape is written
/// as itself between double quotes; and one more string adds a comma and that string
/// before the closing bracket.
pub proof fn law_json_string_array(names: Seq<Seq<char>>, s: Seq<char>)
    ensures
        json_string_array(Seq::<Seq<char>>::empty()) == seq!['[', ']'],
        json_plain(s) ==> json_string(s) == seq!['"'] + s + seq!['"'],
        json_string_array(seq![s]) == seq!['['] + json_string(s) + seq![']'],
        names.len() > 0 ==> json_string_array(names.push(s)) == json_string_array(names).drop_last()
            + seq![','] + json_string(s) + seq![']'],
        json_escaped(s.push('"')) == json_escaped(s) + seq!['\\', '"'],
        json_escaped(s.push('\\')) == json_escaped(s) + seq!['\\', '\\'],
{
    assert(json_string_array(Seq::<Seq<char>>::empty()) =~= seq!['[', ']']);
    if json_plain(s) {
        lemma_json_escaped_plain(s);
    }
    assert(seq![s].len() == 1);
    assert(json_elements(seq![s]) == json_string(s));
    if names.len() > 0 {
        assert(names.push(s).drop_last() =~= names);
        let a = json_string_array(names);
        assert(a.drop_last() =~= seq!['['] + json_elements(names));
        assert(json_string_array(names.push(s)) =~= a.drop_last() + seq![','] + json_string(s)
            + seq![']']);
    }
    assert(s.push('"').drop_last() =~= s);
    assert(s.push('\\').drop_last() =~= s);
}

/// The item of a full channel made of a feed item, or why it cannot be made: its
/// publication date (an RFC 2822 date, of which the local date and time is kept), guid,
/// title, link and description are all required.
pub open spec fn channel_item_result(fi: FeedItemView) -> Result<models::ItemView, CollectErrorView> {
    match fi.pub_date {
        None => Err(CollectErrorView::MissingData("item pub_date"@)),
        Some(d) => match rfc2822_local_time(d) {
            None => Err(CollectErrorView::InvalidDate),
            Some(t) => match fi.guid {
                None => Err(CollectErrorView::MissingData("item guid"@)),
                Some(g) => match fi.title {
                    None => Err(CollectErrorView::MissingData("item title"@)),
                    Some(ti) => match fi.link {
                        None => Err(CollectErrorView::MissingData("item link"@)),
                        Some(l) => match fi.description {
                            None => Err(CollectErrorView::MissingData("item description"@)),
                            Some(de) => Ok(
                                models::ItemView {
                                    guid: g,
                                    title: ti,
                                    link: l,
                                    description: de,
                                    pub_date: t,
                                },
                            ),
                        },
                    },
                },
            },
        },
    }
}

/// The items of a full channel made of the feed items, or the first reason why one
/// cannot be made.
pub open spec fn channel_items_result(fis: Seq<FeedItemView>) -> Result<Seq<models::ItemView>, CollectErrorView>
    decreases fis.len(),
{
    if fis.len() == 0 {
        Ok(seq![])
    } else {
        match channel_items_result(fis.drop_last()) {
            Err(e) => Err(e),
            Ok(prev) => match channel_item_result(fis.last()) {
                Err(e) => Err(e),
                Ok(i) => Ok(prev.push(i)),
            },
        }
    }
}

/// The full channel of the feed at `url` (`None` if the document was no readable feed):
/// its last build date (required, an RFC 2822 date) and language (required) come from
/// the feed, and so do all of its items.
pub open spec fn channel_result(url: Seq<char>, feed: Option<FeedView>) -> Result<models::ChannelView, CollectErrorView> {
    match feed {
        None => Err(CollectErrorView::InvalidFeed),
        Some(f) => match f.last_build_date {
            None => Err(CollectErrorView::MissingData("channel last_build_date"@)),
            Some(d) => match rfc2822_local_time(d) {
                None => Err(CollectErrorView::InvalidDate),
                Some(t) => match f.language {
                    None => Err(CollectErrorView::MissingData("channel language"@)),
                    Some(language) => match channel_items_result(f.items) {
                        Err(e) => Err(e),
                        Ok(items) => Ok(
                            models::ChannelView {
                                title: f.title,
                                link: url,
                                language,
                                last_build_date: t,
                                items,
                            },
                        ),
                    },
                },
            },
        },
    }
}

/// The view of a full-channel result.
pub open spec fn channel_result_view(r: Result<models::Channel, CollectError>) -> Result<models::ChannelView, CollectErrorView> {
    match r {
        Ok(c) => Ok(c@),
        Err(e) => Err(e@),
    }
}

/// The item of a full channel made of a feed item.
pub fn channel_item_from_feed(fi: FeedItem) -> (r: Result<models::Item, CollectError>)
    ensures
        match r {
            Ok(i) => channel_item_result(fi@) == Ok::<models::ItemView, CollectErrorView>(i@),
            Err(e) => channel_item_result(fi@) == Err::<models::ItemView, CollectErrorView>(e@),
        },
{
    let pub_date = require_text(fi.pub_date, "item pub_date")?;
    let pub_date = match parse_rfc2822(pub_date.as_str()) {
        Some(t) => t,
        None => return Err(CollectError::InvalidDate),
    };
    let guid = require_text(fi.guid, "item guid")?;
    let title = require_text(fi.title, "item title")?;
    let link = require_text(fi.link, "item link")?;
    let description = require_text(fi.description, "item description")?;
    Ok(models::Item::new(guid.as_str(), title.as_str(), link.as_str(), description.as_str(), pub_date))
}

proof fn lemma_first_channel_error_stays(all: Seq<FeedItemView>, k: int)
    requires
        0 <= k <= all.len(),
        channel_items_result(all.take(k)) is Err,
    ensures
        channel_items_result(all) == channel_items_result(all.take(k)),
    decreases all.len() - k,
{
    if k == all.len() {
        assert(all.take(k) =~= all);
    } else {
        assert(all.take(k + 1).drop_last() =~= all.take(k));
        lemma_first_channel_error_stays(all, k + 1);
    }
}

/// The full channel of the feed at `url`.
pub fn channel_from_feed(url: &str, feed: Feed) -> (r: Result<models::Channel, CollectError>)
    ensures
        channel_result_view(r) == channel_result(url@, Some(feed@)),
{
    let ghost fv = feed@;
    let last_build_date = require_text(feed.last_build_date, "channel last_build_date")?;
    let last_build_date = match parse_rfc2822(last_build_date.as_str()) {
        Some(t) => t,
        None => return Err(CollectError::InvalidDate),
    };
    let language = require_text(feed.language, "channel language")?;
    let mut rest = feed.items;
    let mut items: Vec<models::Item> = Vec::new();
    let ghost mut i: int = 0;
    let ghost all = fv.items;
    assert(all.take(0) =~= Seq::<FeedItemView>::empty());
    assert(models::items_view(items@) =~= Seq::<models::ItemView>::empty());
    assert(all.skip(0) =~= all);
    assert(rest@.map_values(|x: FeedItem| x@) =~= all.skip(0));
    while rest.len() > 0
        invariant
            all == fv.items,
            fv == feed@,
            fv.language is Some,
            fv.last_build_date is Some,
            rfc2822_local_time(fv.last_build_date->Some_0) is Some,
            0 <= i <= all.len(),
            rest@.map_values(|x: FeedItem| x@) == all.skip(i),
            channel_items_result(all.take(i)) == Ok::<Seq<models::ItemView>, CollectErrorView>(
                models::items_view(items@),
            ),
        decreases rest.len(),
    {
        let ghost before = rest@;
        assert(before.map_values(|x: FeedItem| x@).len() == before.len());
        assert(i < all.len());
        let fi = rest.remove(0);
        assert(fi@ == all[i]) by {
            assert(before.map_values(|x: FeedItem| x@)[0] == all.skip(i)[0]);
        }
        assert(all.take(i + 1).drop_last() =~= all.take(i));
        assert(all.take(i + 1).last() == all[i]);
        let item = match channel_item_from_feed(fi) {
            Ok(item) => item,
            Err(e) => {
                proof {
                    lemma_first_channel_error_stays(all, i + 1);
                }
                return Err(e);
            },
        };
        let ghost prev = items@;
        items.push(item);
        assert(models::items_view(items@) =~= models::items_view(prev).push(item@));
        assert(rest@.map_values(|x: FeedItem| x@) =~= before.map_values(|x: FeedItem| x@).skip(1));
        assert(all.skip(i).skip(1) =~= all.skip(i + 1));
        proof {
            i = i + 1;
        }
    }
    assert(all.take(i) =~= all);
    Ok(models::Channel::new(feed.title.as_str(), url, language.as_str(), last_build_date, items))
}

/// The full channel of the feed at `url`, from the document fetched from there.
pub fn fetch_channel(url: &str, document: &str) -> (r: Result<models::Channel, CollectError>)
    ensures
        channel_result_view(r) == channel_result(url@, parsed_feed(document@)),
{
    match read_feed(document) {
        Some(feed) => channel_from_feed(url, feed),
        None => Err(CollectError::InvalidFeed),
    }
}

} // verus!
