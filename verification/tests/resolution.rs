use compile_db::json::JsonValue;
use compile_db::resolve::build_plan;
use compile_db::resolve::Plan;
use compile_db::resolve::RunError;

fn plan(text: &str, sources: &[&str]) -> Result<Plan, RunError> {
    let sources: Vec<String> = sources.iter().map(|s| s.to_string()).collect();
    build_plan(&text.as_bytes().to_vec(), &sources, &"wd".to_string())
}

fn text_of(v: &JsonValue) -> &str {
    match v {
        JsonValue::Text(t) => t,
        _ => panic!("expected a string value"),
    }
}

fn field<'a>(v: &'a JsonValue, key: &str) -> &'a JsonValue {
    match v {
        JsonValue::Object(fields) => {
            for (k, val) in fields.iter() {
                if k == key {
                    return val;
                }
            }
            panic!("missing field");
        },
        _ => panic!("expected an object"),
    }
}

#[test]
fn generate_mode_builds_documented_entry() {
    let text = r#"
    // properties with comments
    {
        "configurations": [{
            "compilerPath": "/usr/bin/gcc", /* required for generation */
            "includePath": ["/usr/include"],
            "defines": ["DEBUG"],
            "cppStandard": "c11"
        }]
    }"#;
    let entries = match plan(text, &["main.c"]) {
        Ok(Plan::Ready(entries)) => entries,
        _ => panic!("expected a finished database"),
    };
    assert_eq!(entries.len(), 1);
    assert_eq!(text_of(field(&entries[0], "directory")), "wd");
    assert_eq!(
        text_of(field(&entries[0], "command")),
        "/usr/bin/gcc -I/usr/include -DDEBUG --std=c11 -c main.c"
    );
    assert_eq!(text_of(field(&entries[0], "file")), "main.c");
}

#[test]
fn generate_mode_one_entry_per_source_in_order() {
    let text = r#"{"configurations": [{"compilerPath": "cc"}]}"#;
    let entries = match plan(text, &["a.c", "b.c"]) {
        Ok(Plan::Ready(entries)) => entries,
        _ => panic!("expected a finished database"),
    };
    assert_eq!(entries.len(), 2);
    assert_eq!(text_of(field(&entries[0], "file")), "a.c");
    assert_eq!(text_of(field(&entries[1], "file")), "b.c");
}

#[test]
fn generate_mode_skips_non_string_list_elements() {
    let text = r#"{"configurations": [{
        "compilerPath": "cc",
        "includePath": [1, "ok", true],
        "defines": [null, "D"]
    }]}"#;
    let entries = match plan(text, &["a.c"]) {
        Ok(Plan::Ready(entries)) => entries,
        _ => panic!("expected a finished database"),
    };
    assert_eq!(text_of(field(&entries[0], "command")), "cc -Iok -DD --std= -c a.c");
}

#[test]
fn list_without_string_elements_contributes_no_flags_and_no_blanks() {
    let text = r#"{"configurations": [{
        "compilerPath": "cc",
        "includePath": [1, 2],
        "defines": ["D"]
    }]}"#;
    let entries = match plan(text, &["a.c"]) {
        Ok(Plan::Ready(entries)) => entries,
        _ => panic!("expected a finished database"),
    };
    assert_eq!(text_of(field(&entries[0], "command")), "cc -DD --std= -c a.c");
}

#[test]
fn first_configuration_wins() {
    let text = r#"{"configurations": [
        {"compilerPath": "first"},
        {"compilerPath": "second"}
    ]}"#;
    let entries = match plan(text, &["a.c"]) {
        Ok(Plan::Ready(entries)) => entries,
        _ => panic!("expected a finished database"),
    };
    assert_eq!(text_of(field(&entries[0], "command")), "first --std= -c a.c");
}

#[test]
fn pass_through_keeps_prebuilt_array() {
    let text = r#"[{"directory": "d", "command": "c", "file": "f"}]"#;
    let entries = match plan(text, &[]) {
        Ok(Plan::Ready(entries)) => entries,
        _ => panic!("expected a finished database"),
    };
    assert_eq!(entries.len(), 1);
    assert_eq!(text_of(field(&entries[0], "directory")), "d");
    assert_eq!(text_of(field(&entries[0], "command")), "c");
    assert_eq!(text_of(field(&entries[0], "file")), "f");
}

#[test]
fn embedded_entries_copied_verbatim_in_order() {
    let text = r#"{"configurations": [{
        "compileCommands": [
            {"directory": "d1", "command": "c1", "file": "f1"},
            {"directory": "d2", "command": "c2", "file": "f2"}
        ]
    }]}"#;
    let entries = match plan(text, &[]) {
        Ok(Plan::Ready(entries)) => entries,
        _ => panic!("expected a finished database"),
    };
    assert_eq!(entries.len(), 2);
    assert_eq!(text_of(field(&entries[0], "file")), "f1");
    assert_eq!(text_of(field(&entries[1], "file")), "f2");
    assert_eq!(text_of(field(&entries[1], "command")), "c2");
}

#[test]
fn embedded_empty_array_yields_empty_database() {
    let text = r#"{"configurations": [{"compileCommands": []}]}"#;
    match plan(text, &[]) {
        Ok(Plan::Ready(entries)) => assert_eq!(entries.len(), 0),
        _ => panic!("expected a finished database"),
    }
}

#[test]
fn embedded_numbers_survive_the_round() {
    let text = r#"{"configurations": [{"compileCommands": [{"n": 1}]}]}"#;
    let entries = match plan(text, &[]) {
        Ok(Plan::Ready(entries)) => entries,
        _ => panic!("expected a finished database"),
    };
    match field(&entries[0], "n") {
        JsonValue::Number(n) => assert_eq!(n, "1"),
        _ => panic!("expected a number"),
    }
}

#[test]
fn referenced_paths_handed_out_in_order() {
    let text = r#"{"configurations": [{"compileCommands": ["a.json", "b.json"]}]}"#;
    match plan(text, &[]) {
        Ok(Plan::ReadReferenced(paths)) => assert_eq!(paths, vec!["a.json", "b.json"]),
        _ => panic!("expected referenced paths"),
    }
}

#[test]
fn non_string_elements_in_referenced_list_skipped() {
    let text = r#"{"configurations": [{"compileCommands": ["a.json", 5, "b.json"]}]}"#;
    match plan(text, &[]) {
        Ok(Plan::ReadReferenced(paths)) => assert_eq!(paths, vec!["a.json", "b.json"]),
        _ => panic!("expected referenced paths"),
    }
}
