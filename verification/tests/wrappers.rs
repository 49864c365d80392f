use pytantivy::TantivyIndexWrapper;

fn record(pairs: &[(&str, &str)]) -> Vec<(String, String)> {
    pairs.iter().map(|(k, v)| (k.to_string(), v.to_string())).collect()
}

#[test]
fn test_init_index() {
    let index = TantivyIndexWrapper::new(
        "test_index".to_string(),
        "title".to_string(),
        vec!["body".to_string()],
    )
    .unwrap();
    let n_fields = index.field_names().len();
    assert_eq!(n_fields, 2);
}

#[test]
fn test_indexing() {
    let mut index = TantivyIndexWrapper::new(
        "test_index".to_string(),
        "title".to_string(),
        vec!["body".to_string()],
    )
    .unwrap();
    let doc_map = record(&[("title", "test title"), ("body", "test body")]);

    index.add_document(&doc_map).unwrap();
    let num_docs = index.num_docs().unwrap();
    assert_eq!(num_docs, 1);
}
