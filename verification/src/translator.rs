//! Translation of news titles: the request sent to a translation service and what is
//! made of its reply.

use vstd::prelude::*;
use crate::text::{trim, trimmed};

verus! {

/// The endpoint of the local translation model when none is configured.
pub const DEFAULT_ENDPOINT: &'static str = "http://localhost:11433/api/generate";

/// The translation model used when none is configured.
pub const DEFAULT_MODEL: &'static str = "translator";

/// A client of a local text-generation service running a translation model.
pub struct Translator {
    pub endpoint: String,
    pub model: String,
}

/// The body of a generation request.
pub struct TranslationRequest {
    pub model: String,
    pub prompt: String,
    pub stream: bool,
}

/// What the service answered: its HTTP status and, when its body could be read, the
/// `response` field of that body.
pub struct TranslationReply {
    pub status: u16,
    pub response: Option<String>,
}

/// Why a translation failed.
#[derive(Debug, PartialEq, Eq, Structural)]
pub enum TranslateError {
    /// The service answered with a status outside 200-299.
    Status(u16),
    /// The service's answer had no readable `response`.
    Decode,
}

/// Whether an HTTP status means success (200-299).
pub open spec fn is_success(status: u16) -> bool {
    200 <= status < 300
}

impl Translator {
    /// A translator for the configured endpoint and model (the values of
    /// `OLLAMA_ENDPOINT` and `OLLAMA_TRANSLATOR_MODEL`), each falling back to its default.
    pub fn new(endpoint: Option<String>, model: Option<String>) -> (t: Self)
        ensures
            t.endpoint@ == (match endpoint {
                Some(e) => e@,
                None => DEFAULT_ENDPOINT@,
            }),
            t.model@ == (match model {
                Some(m) => m@,
                None => DEFAULT_MODEL@,
            }),
    {
        let endpoint = match endpoint {
            Some(e) => e,
            None => DEFAULT_ENDPOINT.to_owned(),
        };
        let model = match model {
            Some(m) => m,
            None => DEFAULT_MODEL.to_owned(),
        };
        Translator { endpoint, model }
    }

    /// The request that asks the model to translate `text`, in one piece (not streamed).
    pub fn request(&self, text: &str) -> (r: TranslationRequest)
        ensures
            r.model@ == self.model@,
            r.prompt@ == text@,
            !r.stream,
    {
        TranslationRequest { model: self.model.clone(), prompt: text.to_owned(), stream: false }
    }
}

/// The translated text in the service's reply: its `response` without surrounding
/// white space, if the service answered with success.
pub fn translate(reply: TranslationReply) -> (r: Result<String, TranslateError>)
    ensures
        !is_success(reply.status) ==> r == Err::<String, TranslateError>(
            TranslateError::Status(reply.status),
        ),
        is_success(reply.status) && reply.response is None ==> r == Err::<String, TranslateError>(
            TranslateError::Decode,
        ),
        is_success(reply.status) && reply.response is Some ==> r is Ok && r->Ok_0@ == trimmed(
            reply.response->Some_0@,
        ),
{
    if !(200 <= reply.status && reply.status < 300) {
        return Err(TranslateError::Status(reply.status));
    }
    match reply.response {
        Some(text) => Ok(trim(text.as_str())),
        None => Err(TranslateError::Decode),
    }
}

/// The endpoint of the hosted translation API.
pub const GOOGLE_TRANSLATE_URL: &'static str = "https://translation.googleapis.com/language/translate/v2";

/// A client of the hosted translation API for one pair of languages.
pub struct GoogleTranslator {
    pub api_key: String,
    pub source_lang: String,
    pub target_lang: String,
}

/// The body of a request to the hosted translation API.
pub struct GoogleRequest {
    pub q: String,
    pub source: String,
    pub target: String,
    pub format: String,
}

impl GoogleTranslator {
    /// A translator from `source_lang` to `target_lang` with the given API key.
    pub fn new(api_key: String, source_lang: String, target_lang: String) -> (t: Self)
        ensures
            t.api_key@ == api_key@,
            t.source_lang@ == source_lang@,
            t.target_lang@ == target_lang@,
    {
        GoogleTranslator { api_key, source_lang, target_lang }
    }

    /// The request that translates `text` as plain text.
    pub fn request(&self, text: &str) -> (r: GoogleRequest)
        ensures
            r.q@ == text@,
            r.source@ == self.source_lang@,
            r.target@ == self.target_lang@,
            r.format@ == "text"@,
    {
        GoogleRequest {
            q: text.to_owned(),
            source: self.source_lang.clone(),
            target: self.target_lang.clone(),
            format: "text".to_owned(),
        }
    }
}

/// The translation that the hosted API answered: the first of its translations.
pub fn first_translation(translations: &Vec<String>) -> (r: String)
    requires
        translations.len() > 0,
    ensures
        r@ == translations@[0]@,
{
    translations[0].clone()
}

} // verus!
