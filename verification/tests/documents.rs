use data_feed::json::{find_member, Json};

#[test]
fn a_document_is_read_into_its_tree() {
    let document = Json::parse(r#"{"b": [1, "x", null, true], "a": {"n": -2.5}}"#).unwrap();
    let members = match &document {
        Json::Object(members) => members,
        _ => panic!("an object"),
    };
    let names: Vec<&str> = members.iter().map(|(name, _)| name.as_str()).collect();
    assert_eq!(names, vec!["a", "b"]);
    match find_member(members, "b") {
        Some(Json::Array(items)) => {
            assert_eq!(items.len(), 4);
            match &items[0] {
                Json::Number(number) => {
                    assert_eq!(number.integer, Some(1));
                    assert_eq!(number.literal, "1");
                }
                _ => panic!("a number"),
            }
            assert!(matches!(&items[1], Json::Text(text) if text == "x"));
            assert!(matches!(&items[2], Json::Null));
            assert!(matches!(&items[3], Json::Bool(true)));
        }
        _ => panic!("an array"),
    }
    match find_member(members, "a") {
        Some(Json::Object(inner)) => match find_member(inner, "n") {
            Some(Json::Number(number)) => {
                assert_eq!(number.integer, None);
                assert_eq!(number.literal, "-2.5");
            }
            _ => panic!("a number"),
        },
        _ => panic!("an object"),
    }
    assert!(find_member(members, "c").is_none());
}

#[test]
fn what_is_no_document_reads_as_nothing() {
    for text in ["", "{", "{\"a\": }", "not json", "{\"a\": 1} trailing", "[1, 2", "1e999"] {
        assert!(Json::parse(text).is_none(), "reading {:?}", text);
    }
}

#[test]
fn the_first_member_of_a_name_is_found() {
    let members = vec![
        (String::from("k"), Json::Bool(false)),
        (String::from("other"), Json::Null),
        (String::from("k"), Json::Bool(true)),
    ];
    assert!(matches!(find_member(&members, "k"), Some(Json::Bool(false))));
    assert!(matches!(find_member(&members, "other"), Some(Json::Null)));
    assert!(find_member(&members, "K").is_none());
    assert!(find_member(&members, "").is_none());
    assert!(find_member(&Vec::new(), "k").is_none());
}
