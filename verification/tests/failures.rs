use compile_db::resolve::build_plan;
use compile_db::resolve::Plan;
use compile_db::resolve::RunError;

fn plan(text: &str, sources: &[&str]) -> Result<Plan, RunError> {
    let sources: Vec<String> = sources.iter().map(|s| s.to_string()).collect();
    build_plan(&text.as_bytes().to_vec(), &sources, &"wd".to_string())
}

#[test]
fn invalid_json_is_malformed_input() {
    assert_eq!(plan("{not json", &[]).unwrap_err(), RunError::MalformedInput);
}

#[test]
fn scalar_document_is_unexpected_structure() {
    assert_eq!(plan("5", &[]).unwrap_err(), RunError::UnexpectedStructure);
}

#[test]
fn object_without_configurations_is_unexpected_structure() {
    assert_eq!(plan(r#"{"other": 1}"#, &[]).unwrap_err(), RunError::UnexpectedStructure);
}

#[test]
fn non_array_configurations_is_unexpected_structure() {
    assert_eq!(plan(r#"{"configurations": 5}"#, &[]).unwrap_err(), RunError::UnexpectedStructure);
}

#[test]
fn empty_configurations_fails_with_no_configurations() {
    assert_eq!(plan(r#"{"configurations": []}"#, &[]).unwrap_err(), RunError::NoConfigurations);
    assert_eq!(
        plan(r#"{"configurations": []}"#, &["a.c"]).unwrap_err(),
        RunError::NoConfigurations
    );
}

#[test]
fn non_array_compile_commands_is_unexpected_structure() {
    let text = r#"{"configurations": [{"compileCommands": "x.json"}]}"#;
    assert_eq!(plan(text, &[]).unwrap_err(), RunError::UnexpectedStructure);
}

#[test]
fn no_sources_without_compile_commands_fails() {
    let text = r#"{"configurations": [{"compilerPath": "cc"}]}"#;
    assert_eq!(plan(text, &[]).unwrap_err(), RunError::NoSourcesProvided);
}

#[test]
fn missing_compiler_path_fails_when_generating() {
    let text = r#"{"configurations": [{"includePath": ["x"]}]}"#;
    assert_eq!(plan(text, &["a.c"]).unwrap_err(), RunError::MissingCompilerPath);
}

#[test]
fn non_string_compiler_path_fails_when_generating() {
    let text = r#"{"configurations": [{"compilerPath": 5}]}"#;
    assert_eq!(plan(text, &["a.c"]).unwrap_err(), RunError::MissingCompilerPath);
}

#[test]
fn non_object_configuration_without_sources_fails_on_sources_first() {
    let text = r#"{"configurations": [5]}"#;
    assert_eq!(plan(text, &[]).unwrap_err(), RunError::NoSourcesProvided);
    assert_eq!(plan(text, &["a.c"]).unwrap_err(), RunError::MissingCompilerPath);
}
