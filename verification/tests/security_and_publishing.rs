use news::api::AppError;
use news::error::{IsRequired, MissingData};
use news::model::{News, NewsData, NewsInput, Timestamp};
use news::publisher::{first_step, needs_translation, publication, published_id, PendingItem, PublishStep};
use news::security::{auth, get_token, token_is_valid, TokenError, UNAUTHORIZED};
use news::transformer::Model;
use news::translator::{
    first_translation, translate, GoogleTranslator, TranslateError, TranslationReply, Translator,
};

fn ts() -> Timestamp {
    Timestamp { year: 2024, month: 3, day: 5, hour: 7, minute: 30, second: 0, nanosecond: 0 }
}

#[test]
fn missing_auth_header_is_refused() {
    assert_eq!(get_token(None), Err(TokenError::MissingHeader));
    assert!(!auth("test", None));
    assert_eq!(UNAUTHORIZED, 401);
}

#[test]
fn matching_auth_header_is_let_through() {
    assert_eq!(get_token(Some(b"test")), Ok("test".to_string()));
    assert!(auth("test", Some(b"test")));
}

#[test]
fn wrong_auth_header_is_refused() {
    assert!(!auth("test", Some(b"Test")));
    assert!(!auth("test", Some(b"test ")));
    assert!(!auth("test", Some(b"")));
}

#[test]
fn unreadable_auth_header_is_refused() {
    assert_eq!(get_token(Some(&[0x74, 0x80])), Err(TokenError::NotVisibleAscii));
    assert_eq!(get_token(Some(b"a\nb")), Err(TokenError::NotVisibleAscii));
    assert_eq!(get_token(Some(b"a\tb")), Ok("a\tb".to_string()));
    assert!(!auth("t\u{80}", Some("t\u{80}".as_bytes())));
}

#[test]
fn token_comparison() {
    assert!(token_is_valid("secret", "secret"));
    assert!(!token_is_valid("secret", "secret2"));
}

#[test]
fn english_titles_are_published_as_they_are() {
    assert!(!needs_translation("en"));
    assert!(needs_translation("fr"));
    assert!(needs_translation("EN"));
    let item = PendingItem {
        id: 1,
        link: "https://example.org/a".to_string(),
        title: "Hello".to_string(),
        pub_date: ts(),
        language: "en".to_string(),
    };
    match first_step(&item) {
        PublishStep::Post(p) => {
            assert_eq!(p.title, "Hello");
            assert_eq!(p.sources, vec!["https://example.org/a"]);
            assert_eq!(p.pub_date, ts());
        }
        PublishStep::Translate { .. } => panic!("an English title is not translated"),
    }
}

#[test]
fn other_titles_are_translated_first() {
    let item = PendingItem {
        id: 2,
        link: "https://example.org/b".to_string(),
        title: "Bonjour".to_string(),
        pub_date: ts(),
        language: "fr".to_string(),
    };
    match first_step(&item) {
        PublishStep::Translate { text, source_lang, target_lang } => {
            assert_eq!(text, "Bonjour");
            assert_eq!(source_lang, "fr");
            assert_eq!(target_lang, "en");
        }
        PublishStep::Post(_) => panic!("a French title is translated"),
    }
    let p = publication(&item, "Hello".to_string());
    assert_eq!(p.title, "Hello");
    assert_eq!(p.sources, vec!["https://example.org/b"]);
}

#[test]
fn published_ids_are_truncated_to_i32() {
    assert_eq!(published_id(17), 17);
    assert_eq!(published_id(1 << 31), i32::MIN);
    assert_eq!(published_id((1 << 32) + 5), 5);
}

#[test]
fn translator_defaults() {
    let t = Translator::new(None, None);
    assert_eq!(t.endpoint, "http://localhost:11433/api/generate");
    assert_eq!(t.model, "translator");
    let t = Translator::new(Some("http://x/api".to_string()), Some("m".to_string()));
    assert_eq!(t.endpoint, "http://x/api");
    assert_eq!(t.model, "m");
    let r = t.request("Bonjour");
    assert_eq!((r.model.as_str(), r.prompt.as_str(), r.stream), ("m", "Bonjour", false));
}

#[test]
fn translation_is_trimmed() {
    let reply = TranslationReply { status: 200, response: Some("  Hello \n".to_string()) };
    assert_eq!(translate(reply), Ok("Hello".to_string()));
}

#[test]
fn failed_translation_reports_status() {
    assert_eq!(translate(TranslationReply { status: 500, response: Some("x".to_string()) }), Err(TranslateError::Status(500)));
    assert_eq!(translate(TranslationReply { status: 199, response: None }), Err(TranslateError::Status(199)));
    assert_eq!(translate(TranslationReply { status: 300, response: None }), Err(TranslateError::Status(300)));
    assert_eq!(translate(TranslationReply { status: 299, response: None }), Err(TranslateError::Decode));
}

#[test]
fn google_request() {
    let g = GoogleTranslator::new("key".to_string(), "de".to_string(), "en".to_string());
    let r = g.request("Hallo");
    assert_eq!((r.q.as_str(), r.source.as_str(), r.target.as_str(), r.format.as_str()), ("Hallo", "de", "en", "text"));
    assert_eq!(g.api_key, "key");
    assert_eq!(first_translation(&vec!["Hello".to_string(), "Hi".to_string()]), "Hello");
}

#[test]
fn embedding_model_request() {
    let m = Model::new("nomic");
    assert_eq!(m.name, "nomic");
    let r = m.request("some text");
    assert_eq!((r.model.as_str(), r.prompt.as_str()), ("nomic", "some text"));
}

#[test]
fn required_values() {
    assert_eq!(Some(3).required("x").unwrap(), 3);
    let e: MissingData = None::<i32>.required("item guid").unwrap_err();
    assert_eq!(e.details, "item guid");
    assert_eq!(e.message(), "required data is missing: item guid");
}

#[test]
fn server_errors_hide_their_cause() {
    let e = AppError::new("db down".to_string());
    assert_eq!(e.message, "db down");
    assert_eq!(e.response(), (500, "Internal server error"));
}

#[test]
fn test_create_unauth() {
    // A publishing request without the `auth` header is answered 401 and stores nothing.
    let token = "test";
    assert!(!auth(token, None));
    assert_eq!(UNAUTHORIZED, 401);
}

#[test]
fn test_create_auth() {
    let token = "test";
    assert!(auth(token, Some(token.as_bytes())));
    let pub_date = Timestamp { year: 2024, month: 1, day: 1, hour: 18, minute: 0, second: 0, nanosecond: 0 };
    let input = NewsInput {
        title: "title".to_string(),
        pub_date,
        sources: vec!["test".to_string()],
        content: "content".to_string(),
    };
    let chunks = input.search_chunks(1024);
    assert_eq!(chunks, vec!["content"]);
    let data = NewsData::new(&input);
    assert_eq!((data.title.as_str(), data.content.as_str()), ("title", "content"));
    assert_eq!(data.sources, vec!["test"]);
    let stored = News::new(1, data.title, data.pub_date, Vec::new(), data.content);
    assert_eq!(stored.id(), 1);
    assert_eq!(stored.pub_date, pub_date);
}
