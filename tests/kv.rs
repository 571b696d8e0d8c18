use budgetchat::kv::{execute_query, parse_query, DecodeError, KeyValueStore, QueryType, StringCodec};

#[test]
fn test_query_parsing() {
    // Version query
    assert_eq!(parse_query("version"), QueryType::Version);

    // Retrieve query
    assert_eq!(parse_query(""), QueryType::Retrieve(String::new()));
    assert_eq!(parse_query("foo"), QueryType::Retrieve(String::from("foo")));
    assert_eq!(parse_query("foo_bar"), QueryType::Retrieve(String::from("foo_bar")));

    // Insert Query
    assert_eq!(parse_query("foo=bar"), QueryType::Insert(String::from("foo"), String::from("bar")));
    assert_eq!(
        parse_query("foo=bar=baz"),
        QueryType::Insert(String::from("foo"), String::from("bar=baz"))
    );
    assert_eq!(parse_query("foo="), QueryType::Insert(String::from("foo"), String::new()));
    assert_eq!(parse_query("foo==="), QueryType::Insert(String::from("foo"), String::from("==")));
    assert_eq!(parse_query("=foo"), QueryType::Insert(String::new(), String::from("foo")));
}

#[test]
fn test_version_query_execution() {
    let mut db = KeyValueStore::new();
    let version_query = QueryType::Version;

    assert_eq!(
        execute_query(version_query, &mut db),
        Some(String::from("version=Key-Value Store API v1"))
    );
    assert_eq!(db.len(), 0);
}

#[test]
fn test_retrieve_query_execution() {
    let mut db = KeyValueStore::new();
    db.insert(String::from("abc"), String::from("42"));
    let retrieve_abc_query = QueryType::Retrieve(String::from("abc"));
    let retrieve_def_query = QueryType::Retrieve(String::from("def"));

    assert_eq!(execute_query(retrieve_abc_query, &mut db), Some(String::from("abc=42")));
    assert_eq!(execute_query(retrieve_def_query, &mut db), None);
    assert_eq!(db.len(), 1);
    assert_eq!(db.get(&String::from("abc")), Some(String::from("42")));
}

#[test]
fn test_insert_query_execution() {
    let mut db = KeyValueStore::new();
    let insert_value_query = QueryType::Insert(String::from("abc"), String::from("42"));

    assert_eq!(execute_query(insert_value_query, &mut db), None);
    assert_eq!(db.len(), 1);
    assert_eq!(db.get(&String::from("abc")), Some(String::from("42")));

    let update_value_query = QueryType::Insert(String::from("abc"), String::from("123"));

    assert_eq!(execute_query(update_value_query, &mut db), None);
    assert_eq!(db.len(), 1);
    assert_eq!(db.get(&String::from("abc")), Some(String::from("123")));
}

#[test]
fn codec_gives_one_frame_per_payload() {
    let mut codec = StringCodec::new();
    let mut buffer = b"foo=bar".to_vec();
    assert_eq!(codec.decode(&mut buffer), Ok(Some(String::from("foo=bar"))));
    assert!(buffer.is_empty());
    let mut next = b"x".to_vec();
    assert_eq!(codec.decode(&mut next), Ok(None));
    assert_eq!(next, b"x".to_vec());
    let mut empty: Vec<u8> = Vec::new();
    assert_eq!(codec.decode(&mut empty), Ok(Some(String::new())));
    assert_eq!(codec.decode(&mut empty), Ok(None));
    let mut bad = vec![0xFF, 0xFE];
    assert_eq!(codec.decode(&mut bad), Err(DecodeError::InvalidUtf8));
    assert!(bad.is_empty());
    let mut text = "héllo".as_bytes().to_vec();
    assert_eq!(codec.decode(&mut text), Ok(None));
    assert_eq!(codec.decode(&mut text), Ok(Some(String::from("héllo"))));
}
