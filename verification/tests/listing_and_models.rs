use news::listing::{listing_fetch_limit, order_by_ids, search_fetch_limit, select_ids};
use news::model::{
    chunk_inputs, chunk_rows, copy_strings, ChunkInput, ListParams, News, NewsChunkData, NewsData,
    NewsInput, Timestamp, DEFAULT_LIMIT,
};

fn ts(day: u32) -> Timestamp {
    Timestamp { year: 2024, month: 1, day, hour: 18, minute: 0, second: 0, nanosecond: 0 }
}

fn news(id: i32) -> News {
    News::new(id, format!("title {}", id), ts(1), vec!["src".to_string()], "content".to_string())
}

#[test]
fn search_keeps_first_match_of_each_id() {
    assert_eq!(select_ids(&vec![3, 1, 3, 2, 1, 4], 10), vec![3, 1, 2, 4]);
}

#[test]
fn search_selects_at_most_the_limit() {
    assert_eq!(select_ids(&vec![3, 1, 3, 2, 1, 4], 2), vec![3, 1]);
    assert_eq!(select_ids(&vec![3, 3, 3], 2), vec![3]);
}

#[test]
fn search_limit_zero_keeps_the_first_match() {
    assert_eq!(select_ids(&vec![7, 8], 0), vec![7]);
    assert_eq!(select_ids(&vec![], 0), Vec::<i32>::new());
}

#[test]
fn fetch_limits() {
    assert_eq!(search_fetch_limit(100), 500);
    assert_eq!(search_fetch_limit(255), 1275);
    assert_eq!(listing_fetch_limit(42), 42);
}

#[test]
fn answered_items_follow_the_ranking() {
    let ordered = order_by_ids(vec![news(1), news(2), news(3), news(4)], &vec![3, 1, 2]);
    let ids: Vec<i32> = ordered.iter().map(|n| n.id()).collect();
    assert_eq!(ids, vec![3, 1, 2, 4]);
}

#[test]
fn ordering_is_a_stable_permutation() {
    let mut a = news(5);
    a.title = "first".to_string();
    let mut b = news(5);
    b.title = "second".to_string();
    let ordered = order_by_ids(vec![news(9), a, news(2), b], &vec![2, 5]);
    let got: Vec<(i32, String)> = ordered.iter().map(|n| (n.id, n.title.clone())).collect();
    assert_eq!(
        got,
        vec![
            (2, "title 2".to_string()),
            (5, "first".to_string()),
            (5, "second".to_string()),
            (9, "title 9".to_string()),
        ]
    );
}

#[test]
fn list_params_default_to_one_hundred() {
    assert_eq!(ListParams::from_query(None, None).limit, 100);
    assert_eq!(DEFAULT_LIMIT, 100);
    assert_eq!(ListParams::from_query(Some(7), None).limit, 7);
    assert!(ListParams::from_query(Some(7), None).search.is_none());
    let v = pgvector::Vector::from(vec![1.0f32, 2.0]);
    let p = ListParams::from_query(None, Some(v.clone()));
    assert_eq!(p.search, Some(v));
}

#[test]
fn news_fields() {
    let n = News::new(1, "title".to_string(), ts(1), Vec::new(), "content".to_string());
    assert_eq!(n.id(), 1);
    assert_eq!(n.title, "title");
    assert_eq!(n.pub_date, ts(1));
    assert!(n.sources.is_empty());
    assert_eq!(n.content, "content");
}

#[test]
fn news_data_copies_the_input() {
    let input = NewsInput {
        title: "t".to_string(),
        pub_date: ts(2),
        sources: vec!["a".to_string(), "b".to_string()],
        content: "c".to_string(),
    };
    let d = NewsData::new(&input);
    assert_eq!(d.title, "t");
    assert_eq!(d.pub_date, ts(2));
    assert_eq!(d.sources, vec!["a", "b"]);
    assert_eq!(d.content, "c");
    assert_eq!(copy_strings(&vec!["x".to_string()]), vec!["x"]);
}

#[test]
fn chunks_are_numbered_and_attached() {
    let v1 = pgvector::Vector::from(vec![1.0f32]);
    let v2 = pgvector::Vector::from(vec![2.0f32]);
    let inputs = chunk_inputs(vec!["a".to_string(), "b".to_string()], vec![v1.clone(), v2.clone()]);
    assert_eq!(inputs.len(), 2);
    assert_eq!((inputs[0].chunk_index, inputs[0].chunk_text.as_str()), (0, "a"));
    assert_eq!((inputs[1].chunk_index, inputs[1].chunk_text.as_str()), (1, "b"));
    assert_eq!(inputs[1].chunk_v, v2);
    let rows = chunk_rows(42, inputs);
    assert_eq!(rows.len(), 2);
    assert!(rows.iter().all(|r| r.news_id == 42));
    assert_eq!(rows[0].chunk_v, v1);
    let row = NewsChunkData::new(7, ChunkInput { chunk_index: 3, chunk_text: "z".to_string(), chunk_v: v1.clone() });
    assert_eq!((row.news_id, row.chunk_index, row.chunk_text.as_str()), (7, 3, "z"));
}
