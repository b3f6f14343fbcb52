//! HTML sources: items read from a page with CSS selectors.

use vstd::prelude::*;
use crate::collector::sources::{
    opt_view, Channel, ChannelView, CollectError, CollectErrorView, Data, DataView, Item,
    ItemView, items_view,
};
use crate::dates::{formatted_time, parse_formatted};
use crate::model::{strings_view, Timestamp};
use crate::text::{trim, trimmed};
use scraper::{Html, Selector};

verus! {

/// What a text extractor reads from the element it selects.
#[derive(Clone, Copy, Debug, PartialEq, Eq, Structural)]
pub enum Getter {
    /// The element's first text, without surrounding white space.
    Text,
    /// The element's `href` attribute.
    Href,
}

/// Reads a text from the first element that `sel` selects within an item.
pub struct TextExtractor {
    pub sel: String,
    pub get: Getter,
}

/// Reads a link from the `href` of the first element that `sel` selects within an item.
pub struct LinkExtractor {
    pub sel: String,
}

/// Reads a date, written in `format`, from the first text of the first element that
/// `sel` selects within an item.
pub struct DateExtractor {
    pub sel: String,
    pub format: String,
}

/// An HTML source: the page at `url`, whose items are the elements that `items`
/// selects, read with one extractor per field.
pub struct Config {
    pub url: String,
    pub name: String,
    pub language: String,
    pub items: String,
    pub title: TextExtractor,
    pub guid: TextExtractor,
    pub link: LinkExtractor,
    pub pub_date: DateExtractor,
}

/// What an extractor reads of the element that its selector picks within an item:
/// the element's first text, and its `href` attribute.
pub struct Element {
    pub text: Option<String>,
    pub href: Option<String>,
}

/// An element, as text.
pub struct ElementView {
    pub text: Option<Seq<char>>,
    pub href: Option<Seq<char>>,
}

impl View for Element {
    type V = ElementView;

    open spec fn view(&self) -> ElementView {
        ElementView { text: opt_view(self.text), href: opt_view(self.href) }
    }
}

/// A text extractor, as text.
pub struct TextExtractorView {
    pub sel: Seq<char>,
    pub get: Getter,
}

/// An HTML source, as text.
pub struct ConfigView {
    pub url: Seq<char>,
    pub name: Seq<char>,
    pub language: Seq<char>,
    pub items: Seq<char>,
    pub title: TextExtractorView,
    pub guid: TextExtractorView,
    pub link_sel: Seq<char>,
    pub date_sel: Seq<char>,
    pub date_format: Seq<char>,
}

impl View for TextExtractor {
    type V = TextExtractorView;

    open spec fn view(&self) -> TextExtractorView {
        TextExtractorView { sel: self.sel@, get: self.get }
    }
}

impl View for Config {
    type V = ConfigView;

    open spec fn view(&self) -> ConfigView {
        ConfigView {
            url: self.url@,
            name: self.name@,
            language: self.language@,
            items: self.items@,
            title: self.title@,
            guid: self.guid@,
            link_sel: self.link.sel@,
            date_sel: self.pub_date.sel@,
            date_format: self.pub_date.format@,
        }
    }
}

/// The view of an optional element.
pub open spec fn element_view(e: Option<Element>) -> Option<ElementView> {
    match e {
        Some(e) => Some(e@),
        None => None,
    }
}

/// For each element of `document` that the selector `items` selects, in document order,
/// one entry per selector of `fields`: the first element within it that this selector
/// selects, or `None` if it selects nothing there or is not a valid selector. The whole
/// is `None` if `items` is not a valid selector.
pub uninterp spec fn scraped(document: Seq<char>, items: Seq<char>, fields: Seq<Seq<char>>) -> Option<
    Seq<Seq<Option<ElementView>>>,
>;

/// The views of the rows of elements that a page gave.
pub open spec fn rows_view(rows: Seq<Vec<Option<Element>>>) -> Seq<Seq<Option<ElementView>>> {
    rows.map_values(|row: Vec<Option<Element>>| row@.map_values(|e: Option<Element>| element_view(e)))
}

/// The URL that `href` refers to, relative to the URL `base`, or `None` if `base` is
/// not a URL or `href` cannot be resolved against it.
pub uninterp spec fn joined_url(base: Seq<char>, href: Seq<char>) -> Option<Seq<char>>;

/// Parses a page (`scraper::Html::parse_document`) and the selectors
/// (`scraper::Selector::parse`), selects the items (`select`) and, within each item, for
/// each selector of `fields`, the first element it selects, keeping that element's first
/// text (`text`) and its `href` (`attr`). The result is named by `scraped`: it depends on
/// its arguments alone. Each row has one entry per selector of `fields`.
#[verifier::external_body]
fn scrape(document: &str, items: &str, fields: &Vec<String>) -> (r: Option<Vec<Vec<Option<Element>>>>)
    ensures
        match r {
            Some(rows) => scraped(document@, items@, strings_view(fields@)) == Some(rows_view(rows@)),
            None => scraped(document@, items@, strings_view(fields@)) is None,
        },
        r matches Some(rows) ==> forall|k: int| 0 <= k < rows.len() ==> #[trigger] rows[k].len() == fields.len(),
{
    let page = Html::parse_document(document);
    let items = Selector::parse(items).ok()?;
    let sels: Vec<Option<Selector>> = fields.iter().map(|f| Selector::parse(f).ok()).collect();
    Some(page.select(&items).map(|item| sels.iter().map(|sel| {
        let el = item.select(sel.as_ref()?).next()?;
        Some(Element { text: el.text().next().map(String::from), href: el.attr("href").map(String::from) })
    }).collect()).collect())
}

/// Resolves `href` against the URL `base` (`url::Url::parse`, then `Url::join`) and
/// writes the resulting URL out. The result is named by `joined_url`: it depends on its
/// arguments alone.
#[verifier::external_body]
fn join_url(base: &str, href: &str) -> (r: Option<String>)
    ensures
        opt_view(r) == joined_url(base@, href@),
{
    let base = url::Url::parse(base).ok()?;
    base.join(href).ok().map(String::from)
}

/// Whether `s` begins with "http".
pub open spec fn starts_with_http(s: Seq<char>) -> bool {
    s.len() >= 4 && s[0] == 'h' && s[1] == 't' && s[2] == 't' && s[3] == 'p'
}

/// What a text extractor reads from an element, if the element has it.
pub open spec fn text_value(e: TextExtractorView, el: ElementView) -> Option<Seq<char>> {
    match e.get {
        Getter::Text => match el.text {
            Some(t) => Some(trimmed(t)),
            None => None,
        },
        Getter::Href => el.href,
    }
}

/// The absolute link for a `href` found on the page at `base`: the `href` itself when it
/// begins with "http", else the `href` resolved against `base`.
pub open spec fn link_value(href: Seq<char>, base: Seq<char>) -> Option<Seq<char>> {
    if starts_with_http(href) {
        Some(href)
    } else {
        joined_url(base, href)
    }
}

impl TextExtractor {
    /// What this extractor reads from `el`, the element its selector picked.
    pub fn extract(&self, el: &Element) -> (r: String)
        requires
            text_value(self@, el@) is Some,
        ensures
            r@ == text_value(self@, el@)->Some_0,
    {
        match self.get {
            Getter::Text => match &el.text {
                Some(t) => trim(t.as_str()),
                None => String::new(),
            },
            Getter::Href => match &el.href {
                Some(h) => h.clone(),
                None => String::new(),
            },
        }
    }
}

/// Whether `s` begins with "http".
pub fn begins_with_http(s: &str) -> (b: bool)
    ensures
        b == starts_with_http(s@),
{
    let n = s.unicode_len();
    n >= 4 && s.get_char(0) == 'h' && s.get_char(1) == 't' && s.get_char(2) == 't'
        && s.get_char(3) == 'p'
}

impl LinkExtractor {
    /// The absolute link that `el`, the element this extractor's selector picked on the
    /// page at `base`, points to; `None` if its `href` cannot be resolved against `base`.
    pub fn extract(&self, el: &Element, base: &str) -> (r: Option<String>)
        requires
            el.href is Some,
        ensures
            opt_view(r) == link_value(el@.href->Some_0, base@),
    {
        match &el.href {
            Some(href) => {
                if begins_with_http(href.as_str()) {
                    Some(href.clone())
                } else {
                    join_url(base, href.as_str())
                }
            },
            None => None,
        }
    }
}

impl DateExtractor {
    /// The date written in the first text of `el`, the element this extractor's selector
    /// picked; `None` if the text is not a date in this extractor's format.
    pub fn extract(&self, el: &Element) -> (r: Option<Timestamp>)
        requires
            el.text is Some,
        ensures
            r == formatted_time(trimmed(el@.text->Some_0), self.format@),
    {
        match &el.text {
            Some(t) => {
                let text = trim(t.as_str());
                parse_formatted(text.as_str(), self.format.as_str())
            },
            None => None,
        }
    }
}

/// The item read from the elements that the source's selectors picked within one item
/// of the page, or `None` if one of them is missing or unreadable.
pub open spec fn html_item(
    config: ConfigView,
    guid: Option<ElementView>,
    title: Option<ElementView>,
    link: Option<ElementView>,
    date: Option<ElementView>,
) -> Option<ItemView> {
    match (guid, title, link, date) {
        (Some(g), Some(t), Some(l), Some(d)) => match (
            text_value(config.guid, g),
            text_value(config.title, t),
            l.href,
            d.text,
        ) {
            (Some(gv), Some(tv), Some(href), Some(dt)) => match (
                link_value(href, config.url),
                formatted_time(trimmed(dt), config.date_format),
            ) {
                (Some(lv), Some(pd)) => Some(
                    ItemView { guid: gv, title: tv, link: lv, pub_date: pd, tags: None },
                ),
                _ => None,
            },
            _ => None,
        },
        _ => None,
    }
}

/// The selectors of the fields of an item, in the order guid, title, link, date.
pub open spec fn field_selectors(config: ConfigView) -> Seq<Seq<char>> {
    seq![config.guid.sel, config.title.sel, config.link_sel, config.date_sel]
}

/// The item read from one row of elements (guid, title, link, date).
pub open spec fn row_item(config: ConfigView, row: Seq<Option<ElementView>>) -> Option<ItemView> {
    html_item(config, row[0], row[1], row[2], row[3])
}

/// The items read from the first `n` rows of elements, or `None` if one of them cannot
/// be read.
pub open spec fn html_rows(config: ConfigView, rows: Seq<Seq<Option<ElementView>>>, n: int) -> Option<
    Seq<ItemView>,
>
    decreases n,
{
    if n <= 0 {
        Some(seq![])
    } else {
        match html_rows(config, rows, n - 1) {
            None => None,
            Some(prev) => match row_item(config, rows[n - 1]) {
                None => None,
                Some(i) => Some(prev.push(i)),
            },
        }
    }
}

/// What an HTML source gives from its page: the channel named after the source, linked
/// to its URL, in its language, with no build date; and one item per element that the
/// item selector selects, in document order. The page cannot be read if the item
/// selector is not valid, or if an item lacks one of the fields (a field selector that
/// is not valid finds nothing); a page with no items gives no items.
pub open spec fn html_data(config: ConfigView, document: Seq<char>) -> Result<DataView, CollectErrorView> {
    let channel = ChannelView {
        title: config.name,
        link: config.url,
        language: config.language,
        last_build_date: None,
    };
    match scraped(document, config.items, field_selectors(config)) {
        Some(rows) => match html_rows(config, rows, rows.len() as int) {
            Some(items) => Ok(DataView { channel, items }),
            None => Err(CollectErrorView::Unscrapable),
        },
        None => Err(CollectErrorView::Unscrapable),
    }
}

/// The item read from the elements that the source's selectors picked within one item
/// of the page (`None` for a selector that picked nothing there).
pub fn item_from_elements(
    config: &Config,
    guid: &Option<Element>,
    title: &Option<Element>,
    link: &Option<Element>,
    date: &Option<Element>,
) -> (r: Option<Item>)
    ensures
        match r {
            Some(i) => html_item(config@, element_view(*guid), element_view(*title), element_view(*link), element_view(*date)) == Some(i@),
            None => html_item(config@, element_view(*guid), element_view(*title), element_view(*link), element_view(*date)) is None,
        },
{
    match (guid, title, link, date) {
        (Some(g), Some(t), Some(l), Some(d)) => {
            let gv_ok = match config.guid.get {
                Getter::Text => g.text.is_some(),
                Getter::Href => g.href.is_some(),
            };
            let tv_ok = match config.title.get {
                Getter::Text => t.text.is_some(),
                Getter::Href => t.href.is_some(),
            };
            if !gv_ok || !tv_ok || l.href.is_none() || d.text.is_none() {
                return None;
            }
            let gv = config.guid.extract(g);
            let tv = config.title.extract(t);
            let lv = match config.link.extract(l, config.url.as_str()) {
                Some(lv) => lv,
                None => return None,
            };
            let pd = match config.pub_date.extract(d) {
                Some(pd) => pd,
                None => return None,
            };
            Some(Item { guid: gv, title: tv, link: lv, pub_date: pd, tags: None })
        },
        _ => None,
    }
}

/// What the HTML source `config` gives from its page `document`.
pub fn fetch(config: &Config, document: &str) -> (r: Result<Data, CollectError>)
    ensures
        crate::collector::sources::result_view(r) == html_data(config@, document@),
{
    let channel = Channel {
        title: config.name.clone(),
        link: config.url.clone(),
        language: config.language.clone(),
        last_build_date: None,
    };
    let fields: Vec<String> = vec![
        config.guid.sel.clone(),
        config.title.sel.clone(),
        config.link.sel.clone(),
        config.pub_date.sel.clone(),
    ];
    let ghost cv = config@;
    assert(strings_view(fields@) =~= field_selectors(cv));
    let rows = match scrape(document, config.items.as_str(), &fields) {
        Some(rows) => rows,
        None => return Err(CollectError::Unscrapable),
    };
    let ghost rv = rows_view(rows@);
    let n = rows.len();
    let mut items: Vec<Item> = Vec::new();
    let mut k: usize = 0;
    assert(items_view(items@) =~= Seq::<ItemView>::empty());
    while k < n
        invariant
            0 <= k <= n,
            n == rows.len(),
            rv == rows_view(rows@),
            forall|j: int| 0 <= j < rows.len() ==> #[trigger] rows[j].len() == 4,
            cv == config@,
            scraped(document@, cv.items, field_selectors(cv)) == Some(rv),
            html_rows(cv, rv, k as int) == Some(items_view(items@)),
        decreases n - k,
    {
        let row = &rows[k];
        assert(row.len() == 4);
        assert(rv[k as int] == row@.map_values(|e: Option<Element>| element_view(e)));
        let item = match item_from_elements(config, &row[0], &row[1], &row[2], &row[3]) {
            Some(item) => item,
            None => {
                proof {
                    lemma_rows_fail(cv, rv, k as int + 1, n as int);
                }
                return Err(CollectError::Unscrapable);
            },
        };
        let ghost prev = items@;
        items.push(item);
        assert(items_view(items@) =~= items_view(prev).push(item@));
        k = k + 1;
    }
    Ok(Data { channel, items })
}

proof fn lemma_rows_fail(config: ConfigView, rows: Seq<Seq<Option<ElementView>>>, k: int, n: int)
    requires
        0 <= k <= n,
        html_rows(config, rows, k) is None,
    ensures
        html_rows(config, rows, n) is None,
    decreases n - k,
{
    if k < n {
        lemma_rows_fail(config, rows, k + 1, n);
    }
}

/// Each item read from the rows is read from the row in its place.
proof fn lemma_rows_in_order(config: ConfigView, rows: Seq<Seq<Option<ElementView>>>, n: int)
    requires
        0 <= n,
    ensures
        html_rows(config, rows, n) is Some <==> forall|k: int|
            0 <= k < n ==> #[trigger] row_item(config, rows[k]) is Some,
        html_rows(config, rows, n) is Some ==> {
            let items = html_rows(config, rows, n)->Some_0;
            &&& items.len() == n
            &&& forall|k: int| 0 <= k < n ==> #[trigger] row_item(config, rows[k]) == Some(items[k])
        },
    decreases n,
{
    if n > 0 {
        lemma_rows_in_order(config, rows, n - 1);
        if forall|k: int| 0 <= k < n ==> #[trigger] row_item(config, rows[k]) is Some {
            assert(row_item(config, rows[n - 1]) is Some);
        }
    }
}

/// An item's link is its `href` itself when that begins with the four characters
/// "http", and otherwise exactly that `href` resolved against the page URL `base`
/// (`None` when it cannot be resolved).
pub proof fn law_link_is_href_or_resolved(href: Seq<char>, base: Seq<char>)
    ensures
        (href.len() >= 4 && href[0] == 'h' && href[1] == 't' && href[2] == 't' && href[3] == 'p')
            ==> link_value(href, base) == Some(href),
        !(href.len() >= 4 && href[0] == 'h' && href[1] == 't' && href[2] == 't' && href[3] == 'p')
            ==> link_value(href, base) == joined_url(base, href),
{
}

/// A text extractor reads an element's first text without the white space around it,
/// or the element's `href` unchanged, as its getter says.
pub proof fn law_text_extractor_reads(e: TextExtractorView, el: ElementView)
    ensures
        e.get == Getter::Href ==> text_value(e, el) == el.href,
        e.get == Getter::Text && el.text is None ==> text_value(e, el) is None,
        e.get == Getter::Text && el.text is Some ==> text_value(e, el) == Some(
            trimmed(el.text->Some_0),
        ),
{
}

/// An item read from a row of elements takes its link from the `href` of the link
/// element, kept or resolved against the source's URL, and its other fields from the
/// other elements; it has no tags.
pub proof fn law_item_fields(
    config: ConfigView,
    g: ElementView,
    t: ElementView,
    l: ElementView,
    d: ElementView,
)
    ensures
        html_item(config, Some(g), Some(t), Some(l), Some(d)) matches Some(item) ==> {
            &&& l.href is Some
            &&& Some(item.link) == link_value(l.href->Some_0, config.url)
            &&& Some(item.guid) == text_value(config.guid, g)
            &&& Some(item.title) == text_value(config.title, t)
            &&& d.text is Some
            &&& Some(item.pub_date) == formatted_time(trimmed(d.text->Some_0), config.date_format)
            &&& item.tags is None
        },
{
}

/// An HTML source whose item selector is valid gives one item per element that the
/// item selector selects on the page, in document order, each read from that element,
/// when every such element has all the fields; when one of them lacks a field, the page
/// cannot be read. A page on which the item selector selects nothing gives no items,
/// whatever the field selectors are.
pub proof fn law_html_one_item_per_element(config: ConfigView, document: Seq<char>)
    requires
        scraped(document, config.items, field_selectors(config)) is Some,
    ensures
        ({
            let rows = scraped(document, config.items, field_selectors(config))->Some_0;
            &&& html_data(config, document) is Ok <==> forall|k: int|
                0 <= k < rows.len() ==> #[trigger] row_item(config, rows[k]) is Some
            &&& html_data(config, document) is Err ==> html_data(config, document)
                == Err::<DataView, CollectErrorView>(CollectErrorView::Unscrapable)
            &&& html_data(config, document) is Ok ==> {
                let items = html_data(config, document)->Ok_0.items;
                &&& items.len() == rows.len()
                &&& forall|k: int| 0 <= k < rows.len() ==> #[trigger] row_item(config, rows[k])
                    == Some(items[k])
            }
            &&& rows.len() == 0 ==> html_data(config, document) is Ok
                && html_data(config, document)->Ok_0.items.len() == 0
        }),
{
    let rows = scraped(document, config.items, field_selectors(config))->Some_0;
    lemma_rows_in_order(config, rows, rows.len() as int);
}

} // verus!
