use pytantivy::BatchIndexer;
use pytantivy::IndexError;
use pytantivy::TantivyIndexWrapper;

fn record(pairs: &[(&str, &str)]) -> Vec<(String, String)> {
    pairs.iter().map(|(k, v)| (k.to_string(), v.to_string())).collect()
}

fn books_index() -> TantivyIndexWrapper {
    TantivyIndexWrapper::new(
        "books".to_string(),
        "title".to_string(),
        vec!["body".to_string()],
    )
    .unwrap()
}

#[test]
fn field_names_exact() {
    let index = TantivyIndexWrapper::new(
        "test_index".to_string(),
        "title".to_string(),
        vec!["body".to_string(), "notes".to_string()],
    )
    .unwrap();
    let names = index.field_names();
    assert_eq!(names, vec!["title".to_string(), "body".to_string(), "notes".to_string()]);
    for i in 0..names.len() {
        for j in (i + 1)..names.len() {
            assert_ne!(names[i], names[j]);
        }
    }
}

#[test]
fn duplicate_field_rejected() {
    let res = TantivyIndexWrapper::new(
        "test_index".to_string(),
        "title".to_string(),
        vec!["body".to_string(), "title".to_string()],
    );
    assert!(matches!(res, Err(IndexError::DuplicateField)));
}

#[test]
fn batch_visibility_and_commit() {
    let index = books_index();
    let mut batch = BatchIndexer::new(index).unwrap();
    for i in 0..3 {
        let doc = record(&[("title", &format!("doc {i}")), ("body", "quokka habitat")]);
        batch.add_document(&doc).unwrap();
    }
    // Nothing is visible before the one commit.
    assert_eq!(batch.num_docs().unwrap(), 0);
    batch.commit().unwrap();
    assert_eq!(batch.num_docs().unwrap(), 3);
    let index = batch.into_index();
    let hits = index.search("quokka").unwrap();
    assert_eq!(hits.len(), 3);
}

#[test]
fn unknown_key_ignored() {
    let mut index = books_index();
    let doc = record(&[("title", "alpha"), ("bogus", "zebra")]);
    index.add_document(&doc).unwrap();
    assert_eq!(index.num_docs().unwrap(), 1);
    // The unknown key is not a field and its text was not indexed.
    assert_eq!(index.field_names(), vec!["title".to_string(), "body".to_string()]);
    assert_eq!(index.search("zebra").unwrap(), Vec::<String>::new());
    assert_eq!(index.search("alpha").unwrap(), vec!["alpha".to_string()]);
}

#[test]
fn translator_drops_unknown_keys() {
    let index = books_index();
    let rec = record(&[("body", "b"), ("junk", "z"), ("title", "t")]);
    let pairs = index.field_vec_from_hashmap(&rec);
    // Field positions follow the schema (title = 0, body = 1); the unknown
    // key contributes nothing; record order is kept.
    assert_eq!(pairs, vec![(1usize, "b".to_string()), (0usize, "t".to_string())]);
}

#[test]
fn non_display_field_hit() {
    let mut index = books_index();
    index.add_document(&record(&[("title", "alpha doc"), ("body", "quokka")])).unwrap();
    let hits = index.search("quokka").unwrap();
    assert_eq!(hits, vec!["alpha doc".to_string()]);
}

#[test]
fn missing_display_is_skipped() {
    let mut index = books_index();
    // The first document matches but its record omitted the display field:
    // the hit is skipped while the call still succeeds.
    index.add_document(&record(&[("body", "quokka")])).unwrap();
    index.add_document(&record(&[("title", "named"), ("body", "quokka")])).unwrap();
    let hits = index.search("quokka").unwrap();
    assert_eq!(hits, vec!["named".to_string()]);
}

#[test]
fn no_match_is_empty() {
    let mut index = books_index();
    index.add_document(&record(&[("title", "alpha"), ("body", "beta")])).unwrap();
    let hits = index.search("zzzqqq").unwrap();
    assert!(hits.is_empty());
}

#[test]
fn boost_reorders_results() {
    let mut index = books_index();
    index.add_document(&record(&[("title", "rocket"), ("body", "calm")])).unwrap();
    index.add_document(&record(&[("title", "lander"), ("body", "rocket")])).unwrap();
    let body_boosted = index.search("title:rocket body:rocket^20").unwrap();
    assert_eq!(body_boosted.len(), 2);
    assert_eq!(body_boosted[0], "lander".to_string());
    let title_boosted = index.search("title:rocket^20 body:rocket").unwrap();
    assert_eq!(title_boosted.len(), 2);
    assert_eq!(title_boosted[0], "rocket".to_string());
}

#[test]
fn sea_scenario() {
    let mut index = books_index();
    index
        .add_document(&record(&[
            ("title", "The Old Man and the Sea"),
            ("body", "He was an old man who fished alone in a skiff and he had gone eighty-four days now without taking a fish."),
        ]))
        .unwrap();
    index
        .add_document(&record(&[
            ("title", "Of Mice and Men"),
            ("body", "A few miles south of Soledad, the Salinas River drops in close to the hillside bank and runs deep and green."),
        ]))
        .unwrap();
    let hits = index.search("sea").unwrap();
    assert_eq!(hits, vec!["The Old Man and the Sea".to_string()]);
}

#[test]
fn malformed_query_is_error() {
    let mut index = books_index();
    index.add_document(&record(&[("title", "alpha"), ("body", "beta")])).unwrap();
    let res = index.search("title:\"unterminated");
    assert!(matches!(res, Err(IndexError::QueryParseError)));
}

#[test]
fn top_k_limits_results() {
    let index = books_index();
    let mut batch = BatchIndexer::new(index).unwrap();
    for i in 0..12 {
        let doc = record(&[("title", &format!("entry {i}")), ("body", "shared term")]);
        batch.add_document(&doc).unwrap();
    }
    batch.commit().unwrap();
    let index = batch.into_index();
    assert_eq!(index.search("shared").unwrap().len(), 10);
    assert_eq!(index.search_top_k("shared", 3).unwrap().len(), 3);
}
