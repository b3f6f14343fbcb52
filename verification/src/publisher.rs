//! Publication of collected items: which titles need translating, what is sent to the
//! news API, and what becomes of the id it answers.

use vstd::prelude::*;
use crate::model::Timestamp;
use crate::text::same_text;

verus! {

/// The language that published titles are in.
pub const TARGET_LANGUAGE: &'static str = "en";

/// A collected item that has not been published yet, with its channel's language.
pub struct PendingItem {
    pub id: i32,
    pub link: String,
    pub title: String,
    pub pub_date: Timestamp,
    pub language: String,
}

/// What is sent to the news API for one item.
pub struct Publication {
    pub sources: Vec<String>,
    pub title: String,
    pub pub_date: Timestamp,
}

/// The next thing to do for a pending item.
pub enum PublishStep {
    /// Translate `text` from `source_lang` into `target_lang`, then publish.
    Translate { text: String, source_lang: String, target_lang: String },
    /// Publish this.
    Post(Publication),
}

/// Whether a title in `language` has to be translated before publication: every
/// language but English.
pub fn needs_translation(language: &str) -> (b: bool)
    ensures
        b == (language@ != TARGET_LANGUAGE@),
{
    !same_text(language, TARGET_LANGUAGE)
}

/// What is published for `item` under the title `title`: the title, the item's date,
/// and the item's link as its only source.
pub fn publication(item: &PendingItem, title: String) -> (p: Publication)
    ensures
        p.title@ == title@,
        p.pub_date == item.pub_date,
        p.sources@.len() == 1,
        p.sources@[0]@ == item.link@,
{
    let mut sources: Vec<String> = Vec::new();
    sources.push(item.link.clone());
    Publication { sources, title, pub_date: item.pub_date }
}

/// The first step of publishing `item`: an English title is published as it is; any
/// other is first translated into English.
pub fn first_step(item: &PendingItem) -> (s: PublishStep)
    ensures
        item.language@ == TARGET_LANGUAGE@ ==> (s matches PublishStep::Post(p) && p.title@
            == item.title@ && p.pub_date == item.pub_date && p.sources@.len() == 1
            && p.sources@[0]@ == item.link@),
        item.language@ != TARGET_LANGUAGE@ ==> (s matches PublishStep::Translate {
            text,
            source_lang,
            target_lang,
        } && text@ == item.title@ && source_lang@ == item.language@ && target_lang@
            == TARGET_LANGUAGE@),
{
    if needs_translation(item.language.as_str()) {
        PublishStep::Translate {
            text: item.title.clone(),
            source_lang: item.language.clone(),
            target_lang: TARGET_LANGUAGE.to_owned(),
        }
    } else {
        PublishStep::Post(publication(item, item.title.clone()))
    }
}

/// The id under which an item is recorded as published: the id the news API answered,
/// taken modulo 2^32 as a signed 32-bit number.
pub fn published_id(answered: u64) -> (id: i32)
    ensures
        id == answered as i32,
{
    answered as i32
}

} // verus!
