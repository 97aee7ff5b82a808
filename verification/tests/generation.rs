use compile_db::entries::build_command;
use compile_db::entries::generate_entries;
use compile_db::entries::synthesize_entry;
use compile_db::entries::CompilerSettings;

fn sample_settings() -> CompilerSettings {
    CompilerSettings {
        compiler_path: "/usr/bin/gcc".to_string(),
        include_paths: vec!["/usr/include".to_string()],
        defines: vec!["DEBUG".to_string()],
        standard: "c11".to_string(),
    }
}

#[test]
fn command_matches_documented_example() {
    let cmd = build_command(&sample_settings(), &"main.c".to_string());
    assert_eq!(cmd, "/usr/bin/gcc -I/usr/include -DDEBUG --std=c11 -c main.c");
}

#[test]
fn command_with_empty_lists_omits_flag_blocks() {
    let settings = CompilerSettings {
        compiler_path: "gcc".to_string(),
        include_paths: vec![],
        defines: vec![],
        standard: String::new(),
    };
    let cmd = build_command(&settings, &"f.c".to_string());
    assert_eq!(cmd, "gcc --std= -c f.c");
}

#[test]
fn command_with_one_empty_list_keeps_single_spaces() {
    let settings = CompilerSettings {
        compiler_path: "gcc".to_string(),
        include_paths: vec!["inc".to_string()],
        defines: vec![],
        standard: "c99".to_string(),
    };
    let cmd = build_command(&settings, &"f.c".to_string());
    assert_eq!(cmd, "gcc -Iinc --std=c99 -c f.c");
}

#[test]
fn command_joins_several_flags_with_spaces() {
    let settings = CompilerSettings {
        compiler_path: "cc".to_string(),
        include_paths: vec!["a".to_string(), "b".to_string()],
        defines: vec!["X=1".to_string(), "Y".to_string()],
        standard: "c++17".to_string(),
    };
    let cmd = build_command(&settings, &"m.cpp".to_string());
    assert_eq!(cmd, "cc -Ia -Ib -DX=1 -DY --std=c++17 -c m.cpp");
}

#[test]
fn command_carries_std_token_and_tail() {
    let cmd = build_command(&sample_settings(), &"main.c".to_string());
    assert!(cmd.contains("--std=c11"));
    assert!(cmd.ends_with(" -c main.c"));
}

#[test]
fn one_entry_per_source_in_order() {
    let sources = vec!["a.c".to_string(), "b.c".to_string(), "c.c".to_string()];
    let entries = generate_entries(&sample_settings(), &"wd".to_string(), &sources);
    assert_eq!(entries.len(), 3);
    for (entry, source) in entries.iter().zip(sources.iter()) {
        assert_eq!(&entry.file, source);
        assert_eq!(entry.directory, "wd");
        assert!(entry.command.ends_with(&format!(" -c {}", source)));
    }
}

#[test]
fn no_sources_yield_no_entries() {
    let entries = generate_entries(&sample_settings(), &"wd".to_string(), &vec![]);
    assert_eq!(entries.len(), 0);
}

#[test]
fn synthesized_entry_keeps_file_unmodified() {
    let entry = synthesize_entry(&sample_settings(), &"/work".to_string(), &"./x/../y.c".to_string());
    assert_eq!(entry.file, "./x/../y.c");
    assert_eq!(entry.directory, "/work");
    assert_eq!(entry.command, "/usr/bin/gcc -I/usr/include -DDEBUG --std=c11 -c ./x/../y.c");
}
