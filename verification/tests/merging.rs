use compile_db::json::get_field;
use compile_db::json::JsonValue;
use compile_db::resolve::merge_referenced;
use compile_db::resolve::RunError;

fn bytes(s: &str) -> Vec<u8> {
    s.as_bytes().to_vec()
}

fn file_of(v: &JsonValue) -> &str {
    match v {
        JsonValue::Object(fields) => match get_field(fields, &"file".to_string()) {
            Some(JsonValue::Text(t)) => t,
            _ => panic!("missing file field"),
        },
        _ => panic!("expected an object"),
    }
}

#[test]
fn one_missing_file_among_three_is_skipped() {
    let contents = vec![
        Some(bytes(r#"[{"directory": "d", "command": "c", "file": "f1"}]"#)),
        None,
        Some(bytes(r#"[{"directory": "d", "command": "c", "file": "f2"},
                       {"directory": "d", "command": "c", "file": "f3"}]"#)),
    ];
    let merged = merge_referenced(&contents).expect("missing file must not be fatal");
    assert_eq!(merged.len(), 3);
    assert_eq!(file_of(&merged[0]), "f1");
    assert_eq!(file_of(&merged[1]), "f2");
    assert_eq!(file_of(&merged[2]), "f3");
}

#[test]
fn all_files_merge_in_file_list_order() {
    let contents = vec![
        Some(bytes(r#"[{"file": "a"}]"#)),
        Some(bytes(r#"[{"file": "b"}]"#)),
    ];
    let merged = merge_referenced(&contents).unwrap();
    assert_eq!(merged.len(), 2);
    assert_eq!(file_of(&merged[0]), "a");
    assert_eq!(file_of(&merged[1]), "b");
}

#[test]
fn referenced_file_comments_are_tolerated() {
    let contents = vec![Some(bytes("// db\n[{\"file\": \"a\"}]"))];
    let merged = merge_referenced(&contents).unwrap();
    assert_eq!(merged.len(), 1);
}

#[test]
fn no_contents_merge_to_empty_database() {
    assert_eq!(merge_referenced(&vec![]).unwrap().len(), 0);
    assert_eq!(merge_referenced(&vec![None, None]).unwrap().len(), 0);
}

#[test]
fn non_array_referenced_content_is_fatal() {
    let contents = vec![Some(bytes(r#"{"file": "a"}"#))];
    assert_eq!(merge_referenced(&contents).unwrap_err(), RunError::InvalidReferencedDatabase);
}

#[test]
fn unparsable_referenced_content_is_fatal() {
    let contents = vec![Some(bytes(r#"[{"file""#))];
    assert_eq!(merge_referenced(&contents).unwrap_err(), RunError::InvalidReferencedDatabase);
}

#[test]
fn error_in_later_file_is_fatal_even_after_good_one() {
    let contents = vec![
        Some(bytes(r#"[{"file": "a"}]"#)),
        Some(bytes("7")),
    ];
    assert_eq!(merge_referenced(&contents).unwrap_err(), RunError::InvalidReferencedDatabase);
}
