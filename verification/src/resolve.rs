//! Mode resolution: the decision core.
//!
//! A parsed document resolves to exactly one outcome. A document that is
//! itself an array is already a database and passes through. Otherwise the
//! document must be an object with a non-empty `configurations` array, of
//! which the first element is used. A configuration with a `compileCommands`
//! array either embeds the entries directly (first element not a string) or
//! references database files by path (first element a string); without that
//! field, entries are generated from the configuration's fields for the
//! supplied source files.
//!
//! Reading the referenced files is the caller's part: the resolver hands the
//! paths out, and [`merge_referenced`] combines the file contents the caller
//! read, skipping a missing file (`None`) as a non-fatal condition.
use crate::entries::entry_json;
use crate::entries::entry_to_json;
use crate::entries::generate_entries;
use crate::entries::spec_entry;
use crate::entries::CompileCommandEntry;
use crate::entries::CompilerSettings;
use crate::entries::SettingsData;
use crate::json::collect_strings;
use crate::json::deep_view_fields;
use crate::json::deep_view_items;
use crate::json::lemma_deep_view_items;
use crate::json::lookup;
use crate::json::string_items;
use crate::json::JsonData;
use crate::json::JsonValue;
use crate::parse::json_doc;
use crate::parse::parse_json;
use crate::text::spec_strip;
use crate::text::strip_comments;
use vstd::prelude::*;
use vstd::string::StringExecFns;

verus! {

/// The fatal failures of a run. A missing referenced database file is not
/// among them: it is skipped, with a warning left to the caller.
#[derive(Clone, Copy, Debug, PartialEq, Eq, Structural)]
pub enum RunError {
    /// The input text is not valid JSON once comments are stripped.
    MalformedInput,
    /// The document is neither an array nor an object with a
    /// `configurations` array, or `compileCommands` is not an array.
    UnexpectedStructure,
    /// The `configurations` array is empty.
    NoConfigurations,
    /// Generation was attempted and the configuration has no string
    /// `compilerPath`.
    MissingCompilerPath,
    /// Generation was attempted with an empty source list.
    NoSourcesProvided,
    /// A referenced database file did not hold a JSON array.
    InvalidReferencedDatabase,
}

/// What a resolved run yields: a finished database, or the paths of
/// referenced database files still to be read.
#[derive(Debug)]
pub enum Plan {
    Ready(Vec<JsonValue>),
    ReadReferenced(Vec<String>),
}

/// The abstract form of [`Plan`].
pub enum PlanData {
    Ready(Seq<JsonData>),
    ReadReferenced(Seq<Seq<char>>),
}

impl DeepView for Plan {
    type V = PlanData;

    open spec fn deep_view(&self) -> PlanData {
        match self {
            Plan::Ready(entries) => PlanData::Ready(entries.deep_view()),
            Plan::ReadReferenced(paths) => PlanData::ReadReferenced(paths.deep_view()),
        }
    }
}

/// The value of a field of a configuration; nothing, when the configuration
/// is not an object.
pub open spec fn config_lookup(config: JsonData, key: Seq<char>) -> Option<JsonData> {
    match config {
        JsonData::Object(fields) => lookup(fields, key),
        _ => None,
    }
}

/// The strings of a field that holds an array: empty when the field is
/// absent or not an array; non-string elements are skipped silently.
pub open spec fn spec_string_field(config: JsonData, key: Seq<char>) -> Seq<Seq<char>> {
    match config_lookup(config, key) {
        Some(JsonData::Array(items)) => string_items(items),
        _ => Seq::empty(),
    }
}

/// The settings a configuration yields for generation. `includePath` and
/// `defines` default to empty lists, `cppStandard` to the empty string; the
/// compiler path is the string value of `compilerPath`, and generation is
/// refused before these settings are used when that field is missing or not
/// a string.
pub open spec fn spec_settings_of(config: JsonData) -> SettingsData {
    SettingsData {
        compiler_path: match config_lookup(config, "compilerPath"@) {
            Some(JsonData::Text(t)) => t,
            _ => Seq::empty(),
        },
        include_paths: spec_string_field(config, "includePath"@),
        defines: spec_string_field(config, "defines"@),
        standard: match config_lookup(config, "cppStandard"@) {
            Some(JsonData::Text(t)) => t,
            _ => Seq::empty(),
        },
    }
}

/// The generated database: the JSON object form of one entry per source, in
/// source-list order.
pub open spec fn generated_entries(s: SettingsData, directory: Seq<char>, sources: Seq<Seq<char>>) -> Seq<
    JsonData,
> {
    Seq::new(sources.len(), |i: int| entry_json(spec_entry(s, directory, sources[i])))
}

/// Generation for one configuration: refused without sources or without a
/// string `compilerPath`; otherwise one entry per source, in order.
pub open spec fn spec_generate(config: JsonData, sources: Seq<Seq<char>>, directory: Seq<char>) -> Result<
    PlanData,
    RunError,
> {
    if sources.len() == 0 {
        Err(RunError::NoSourcesProvided)
    } else if !(config_lookup(config, "compilerPath"@) matches Some(JsonData::Text(_))) {
        Err(RunError::MissingCompilerPath)
    } else {
        Ok(PlanData::Ready(generated_entries(spec_settings_of(config), directory, sources)))
    }
}

/// Resolution for the selected configuration: merge embedded entries, hand
/// out referenced paths, or generate.
pub open spec fn spec_resolve(config: JsonData, sources: Seq<Seq<char>>, directory: Seq<char>) -> Result<
    PlanData,
    RunError,
> {
    match config_lookup(config, "compileCommands"@) {
        Some(JsonData::Array(items)) => {
            if items.len() > 0 && items[0] matches JsonData::Text(_) {
                Ok(PlanData::ReadReferenced(string_items(items)))
            } else {
                Ok(PlanData::Ready(items))
            }
        },
        Some(_) => Err(RunError::UnexpectedStructure),
        None => spec_generate(config, sources, directory),
    }
}

/// Resolution for a whole parsed document.
pub open spec fn spec_plan(doc: JsonData, sources: Seq<Seq<char>>, directory: Seq<char>) -> Result<
    PlanData,
    RunError,
> {
    match doc {
        JsonData::Array(entries) => Ok(PlanData::Ready(entries)),
        JsonData::Object(fields) => match lookup(fields, "configurations"@) {
            Some(JsonData::Array(configs)) => {
                if configs.len() == 0 {
                    Err(RunError::NoConfigurations)
                } else {
                    spec_resolve(configs[0], sources, directory)
                }
            },
            _ => Err(RunError::UnexpectedStructure),
        },
        _ => Err(RunError::UnexpectedStructure),
    }
}

/// A whole run on raw input text: strip, parse, resolve.
pub open spec fn spec_run(text: Seq<u8>, sources: Seq<Seq<char>>, directory: Seq<char>) -> Result<
    PlanData,
    RunError,
> {
    match json_doc(spec_strip(text)) {
        None => Err(RunError::MalformedInput),
        Some(doc) => spec_plan(doc, sources, directory),
    }
}

/// Merging embedded entries copies them verbatim: when the selected
/// configuration's `compileCommands` is an array whose first element is not
/// a string, the resolved database is that array itself — same values, same
/// order.
pub proof fn lemma_merge_embedded_identity(
    config: JsonData,
    sources: Seq<Seq<char>>,
    directory: Seq<char>,
    items: Seq<JsonData>,
)
    requires
        config_lookup(config, "compileCommands"@) == Some(JsonData::Array(items)),
        !(items.len() > 0 && items[0] matches JsonData::Text(_)),
    ensures
        spec_resolve(config, sources, directory) == Ok::<PlanData, RunError>(
            PlanData::Ready(items),
        ),
{
}

/// Generation yields one entry per supplied source file, in source-list
/// order, and each entry's `file` field is the corresponding source path,
/// unmodified.
pub proof fn lemma_generate_one_entry_per_source(
    config: JsonData,
    sources: Seq<Seq<char>>,
    directory: Seq<char>,
)
    requires
        sources.len() > 0,
        config_lookup(config, "compileCommands"@) is None,
        config_lookup(config, "compilerPath"@) matches Some(JsonData::Text(_)),
    ensures
        spec_resolve(config, sources, directory) == Ok::<PlanData, RunError>(
            PlanData::Ready(generated_entries(spec_settings_of(config), directory, sources)),
        ),
        generated_entries(spec_settings_of(config), directory, sources).len() == sources.len(),
        forall|i: int|
            0 <= i < sources.len() ==> (#[trigger] generated_entries(
                spec_settings_of(config),
                directory,
                sources,
            )[i] matches JsonData::Object(fields) && lookup(fields, "file"@) == Some(
                JsonData::Text(sources[i]),
            )),
{
    let s = spec_settings_of(config);
    assert forall|i: int| 0 <= i < sources.len() implies (#[trigger] generated_entries(
        s,
        directory,
        sources,
    )[i] matches JsonData::Object(fields) && lookup(fields, "file"@) == Some(
        JsonData::Text(sources[i]),
    )) by {
        crate::entries::lemma_entry_json_fields(spec_entry(s, directory, sources[i]));
    }
}

/// A document whose `configurations` array is empty resolves to
/// `NoConfigurations`, whatever the sources and directory are.
pub proof fn lemma_empty_configurations(
    fields: Seq<(Seq<char>, JsonData)>,
    sources: Seq<Seq<char>>,
    directory: Seq<char>,
)
    requires
        lookup(fields, "configurations"@) == Some(JsonData::Array(Seq::empty())),
    ensures
        spec_plan(JsonData::Object(fields), sources, directory) == Err::<PlanData, RunError>(
            RunError::NoConfigurations,
        ),
{
}

/// Takes the value of the first field named `key` out of an object's fields,
/// consuming them.
fn take_one(fields: Vec<(String, JsonValue)>, key: &String) -> (r: Option<JsonValue>)
    ensures
        r.deep_view() == lookup(deep_view_fields(fields@), key@),
{
    let mut rest = fields;
    while rest.len() > 0
        invariant
            lookup(deep_view_fields(fields@), key@) == lookup(deep_view_fields(rest@), key@),
        decreases rest@.len(),
    {
        let ghost prev = rest@;
        let kv = rest.remove(0);
        proof {
            assert(rest@ =~= prev.subrange(1, prev.len() as int));
            assert(deep_view_fields(prev) == seq![(prev[0].0@, prev[0].1.deep_view())]
                + deep_view_fields(rest@));
            assert(deep_view_fields(prev).subrange(
                1,
                deep_view_fields(prev).len() as int,
            ) =~= deep_view_fields(rest@));
        }
        if kv.0 == *key {
            return Some(kv.1);
        }
    }
    None
}

/// The values of the fields that drive resolution and generation, each the
/// first occurrence of its key in the configuration object.
pub struct ConfigFields {
    pub compiler_path: Option<JsonValue>,
    pub include_path: Option<JsonValue>,
    pub defines: Option<JsonValue>,
    pub cpp_standard: Option<JsonValue>,
    pub compile_commands: Option<JsonValue>,
}

/// Splits a configuration object into the fields resolution reads, in one
/// pass, first occurrence of each key winning.
fn split_config(fields: Vec<(String, JsonValue)>) -> (r: ConfigFields)
    ensures
        r.compiler_path.deep_view() == lookup(deep_view_fields(fields@), "compilerPath"@),
        r.include_path.deep_view() == lookup(deep_view_fields(fields@), "includePath"@),
        r.defines.deep_view() == lookup(deep_view_fields(fields@), "defines"@),
        r.cpp_standard.deep_view() == lookup(deep_view_fields(fields@), "cppStandard"@),
        r.compile_commands.deep_view() == lookup(deep_view_fields(fields@), "compileCommands"@),
{
    let key_cp = String::from_str("compilerPath");
    let key_inc = String::from_str("includePath");
    let key_def = String::from_str("defines");
    let key_std = String::from_str("cppStandard");
    let key_cc = String::from_str("compileCommands");
    let mut acc = ConfigFields {
        compiler_path: None,
        include_path: None,
        defines: None,
        cpp_standard: None,
        compile_commands: None,
    };
    let mut rest = fields;
    while rest.len() > 0
        invariant
            key_cp@ == "compilerPath"@,
            key_inc@ == "includePath"@,
            key_def@ == "defines"@,
            key_std@ == "cppStandard"@,
            key_cc@ == "compileCommands"@,
            match acc.compiler_path {
                Some(v) => lookup(deep_view_fields(fields@), "compilerPath"@) == Some(
                    v.deep_view(),
                ),
                None => lookup(deep_view_fields(fields@), "compilerPath"@) == lookup(
                    deep_view_fields(rest@),
                    "compilerPath"@,
                ),
            },
            match acc.include_path {
                Some(v) => lookup(deep_view_fields(fields@), "includePath"@) == Some(v.deep_view()),
                None => lookup(deep_view_fields(fields@), "includePath"@) == lookup(
                    deep_view_fields(rest@),
                    "includePath"@,
                ),
            },
            match acc.defines {
                Some(v) => lookup(deep_view_fields(fields@), "defines"@) == Some(v.deep_view()),
                None => lookup(deep_view_fields(fields@), "defines"@) == lookup(
                    deep_view_fields(rest@),
                    "defines"@,
                ),
            },
            match acc.cpp_standard {
                Some(v) => lookup(deep_view_fields(fields@), "cppStandard"@) == Some(v.deep_view()),
                None => lookup(deep_view_fields(fields@), "cppStandard"@) == lookup(
                    deep_view_fields(rest@),
                    "cppStandard"@,
                ),
            },
            match acc.compile_commands {
                Some(v) => lookup(deep_view_fields(fields@), "compileCommands"@) == Some(
                    v.deep_view(),
                ),
                None => lookup(deep_view_fields(fields@), "compileCommands"@) == lookup(
                    deep_view_fields(rest@),
                    "compileCommands"@,
                ),
            },
        decreases rest@.len(),
    {
        let ghost prev = rest@;
        let kv = rest.remove(0);
        proof {
            reveal_strlit("compilerPath");
            reveal_strlit("includePath");
            reveal_strlit("defines");
            reveal_strlit("cppStandard");
            reveal_strlit("compileCommands");
            assert("compilerPath"@ != "includePath"@) by {
                assert("compilerPath"@.len() != "includePath"@.len());
            }
            assert("compilerPath"@ != "defines"@) by {
                assert("compilerPath"@.len() != "defines"@.len());
            }
            assert("compilerPath"@ != "cppStandard"@) by {
                assert("compilerPath"@.len() != "cppStandard"@.len());
            }
            assert("compilerPath"@ != "compileCommands"@) by {
                assert("compilerPath"@.len() != "compileCommands"@.len());
            }
            assert("includePath"@ != "defines"@) by {
                assert("includePath"@.len() != "defines"@.len());
            }
            assert("includePath"@ != "cppStandard"@) by {
                assert("includePath"@[0] != "cppStandard"@[0]);
            }
            assert("includePath"@ != "compileCommands"@) by {
                assert("includePath"@.len() != "compileCommands"@.len());
            }
            assert("defines"@ != "cppStandard"@) by {
                assert("defines"@.len() != "cppStandard"@.len());
            }
            assert("defines"@ != "compileCommands"@) by {
                assert("defines"@.len() != "compileCommands"@.len());
            }
            assert("cppStandard"@ != "compileCommands"@) by {
                assert("cppStandard"@.len() != "compileCommands"@.len());
            }
            assert(rest@ =~= prev.subrange(1, prev.len() as int));
            assert(deep_view_fields(prev) == seq![(prev[0].0@, prev[0].1.deep_view())]
                + deep_view_fields(rest@));
            assert(deep_view_fields(prev).subrange(
                1,
                deep_view_fields(prev).len() as int,
            ) =~= deep_view_fields(rest@));
        }
        let is_cp = kv.0 == key_cp;
        let is_inc = kv.0 == key_inc;
        let is_def = kv.0 == key_def;
        let is_std = kv.0 == key_std;
        let is_cc = kv.0 == key_cc;
        if is_cp {
            if matches!(acc.compiler_path, None) {
                acc.compiler_path = Some(kv.1);
            }
        } else if is_inc {
            if matches!(acc.include_path, None) {
                acc.include_path = Some(kv.1);
            }
        } else if is_def {
            if matches!(acc.defines, None) {
                acc.defines = Some(kv.1);
            }
        } else if is_std {
            if matches!(acc.cpp_standard, None) {
                acc.cpp_standard = Some(kv.1);
            }
        } else if is_cc {
            if matches!(acc.compile_commands, None) {
                acc.compile_commands = Some(kv.1);
            }
        }
    }
    acc
}

/// The JSON object form of each entry, in order.
fn to_json_array(entries: &Vec<CompileCommandEntry>) -> (r: Vec<JsonValue>)
    ensures
        r.deep_view().len() == entries@.len(),
        forall|i: int|
            0 <= i < entries@.len() ==> r.deep_view()[i] == entry_json(entries@[i].deep_view()),
{
    let mut out: Vec<JsonValue> = Vec::new();
    let mut i: usize = 0;
    while i < entries.len()
        invariant
            i <= entries@.len(),
            out.deep_view().len() == i,
            forall|j: int|
                0 <= j < i ==> out.deep_view()[j] == entry_json(entries@[j].deep_view()),
        decreases entries@.len() - i,
    {
        let ghost prev = out.deep_view();
        out.push(entry_to_json(&entries[i]));
        i = i + 1;
        proof {
            assert forall|j: int| 0 <= j < i implies out.deep_view()[j] == entry_json(
                entries@[j].deep_view(),
            ) by {
                assert(out.deep_view()[j] == out@[j].deep_view());
                if j < i - 1 {
                    assert(prev[j] == out@[j].deep_view());
                }
            }
        }
    }
    out
}

/// Resolution of the selected configuration, as the run performs it.
fn resolve_config(config: JsonValue, sources: &Vec<String>, directory: &String) -> (r: Result<
    Plan,
    RunError,
>)
    ensures
        match r {
            Ok(p) => spec_resolve(config.deep_view(), sources.deep_view(), directory@) == Ok::<
                PlanData,
                RunError,
            >(p.deep_view()),
            Err(e) => spec_resolve(config.deep_view(), sources.deep_view(), directory@) == Err::<
                PlanData,
                RunError,
            >(e),
        },
{
    let ghost c = config.deep_view();
    let rec = match config {
        JsonValue::Object(fields) => split_config(fields),
        _ => ConfigFields {
            compiler_path: None,
            include_path: None,
            defines: None,
            cpp_standard: None,
            compile_commands: None,
        },
    };
    match rec.compile_commands {
        Some(cc) => match cc {
            JsonValue::Array(items) => {
                proof {
                    lemma_deep_view_items(items@);
                }
                let first_is_text = items.len() > 0 && matches!(&items[0], JsonValue::Text(_));
                if first_is_text {
                    Ok(Plan::ReadReferenced(collect_strings(&items)))
                } else {
                    proof {
                        assert(items.deep_view() =~= deep_view_items(items@));
                    }
                    Ok(Plan::Ready(items))
                }
            },
            _ => Err(RunError::UnexpectedStructure),
        },
        None => {
            if sources.len() == 0 {
                return Err(RunError::NoSourcesProvided);
            }
            let cp = match rec.compiler_path {
                Some(v) => match v {
                    JsonValue::Text(t) => t,
                    _ => {
                        return Err(RunError::MissingCompilerPath);
                    },
                },
                None => {
                    return Err(RunError::MissingCompilerPath);
                },
            };
            let include_paths = match rec.include_path {
                Some(v) => match v {
                    JsonValue::Array(items) => collect_strings(&items),
                    _ => Vec::new(),
                },
                None => Vec::new(),
            };
            let defines = match rec.defines {
                Some(v) => match v {
                    JsonValue::Array(items) => collect_strings(&items),
                    _ => Vec::new(),
                },
                None => Vec::new(),
            };
            let standard = match rec.cpp_standard {
                Some(v) => match v {
                    JsonValue::Text(t) => t,
                    _ => String::new(),
                },
                None => String::new(),
            };
            let settings = CompilerSettings { compiler_path: cp, include_paths, defines, standard };
            proof {
                assert(settings.deep_view().include_paths =~= spec_settings_of(c).include_paths);
                assert(settings.deep_view().defines =~= spec_settings_of(c).defines);
                assert(settings.deep_view() == spec_settings_of(c));
            }
            let entries = generate_entries(&settings, directory, sources);
            let out = to_json_array(&entries);
            proof {
                assert forall|i: int| 0 <= i < sources@.len() implies out.deep_view()[i]
                    == generated_entries(spec_settings_of(c), directory@, sources.deep_view())[i] by {
                    assert(sources.deep_view()[i] == sources@[i]@);
                    assert(entries@[i].deep_view() == entries.deep_view()[i]);
                }
                assert(out.deep_view() =~= generated_entries(
                    spec_settings_of(c),
                    directory@,
                    sources.deep_view(),
                ));
            }
            Ok(Plan::Ready(out))
        },
    }
}

/// A whole run on raw input text: strips comments, parses, and resolves.
/// The result is exactly what [`spec_run`] assigns to the input: a finished
/// database or the referenced paths on success, and each error on exactly
/// the inputs that earn it.
pub fn build_plan(text: &Vec<u8>, sources: &Vec<String>, directory: &String) -> (r: Result<
    Plan,
    RunError,
>)
    ensures
        match r {
            Ok(p) => spec_run(text@, sources.deep_view(), directory@) == Ok::<PlanData, RunError>(
                p.deep_view(),
            ),
            Err(e) => spec_run(text@, sources.deep_view(), directory@) == Err::<PlanData, RunError>(
                e,
            ),
        },
{
    let stripped = strip_comments(text);
    match parse_json(&stripped) {
        None => Err(RunError::MalformedInput),
        Some(doc) => {
            let ghost d = doc.deep_view();
            match doc {
                JsonValue::Array(entries) => {
                    proof {
                        lemma_deep_view_items(entries@);
                        assert(entries.deep_view() =~= deep_view_items(entries@));
                    }
                    Ok(Plan::Ready(entries))
                },
                JsonValue::Object(fields) => {
                    let key = String::from_str("configurations");
                    match take_one(fields, &key) {
                        Some(v) => match v {
                            JsonValue::Array(mut configs) => {
                                if configs.len() == 0 {
                                    Err(RunError::NoConfigurations)
                                } else {
                                    proof {
                                        lemma_deep_view_items(configs@);
                                    }
                                    let first = configs.remove(0);
                                    resolve_config(first, sources, directory)
                                }
                            },
                            _ => Err(RunError::UnexpectedStructure),
                        },
                        None => Err(RunError::UnexpectedStructure),
                    }
                },
                _ => Err(RunError::UnexpectedStructure),
            }
        },
    }
}

/// The merged database from referenced files' contents, in file-list order:
/// a missing file (`None`) is skipped; the contents of each present file
/// must strip and parse to a JSON array, whose elements are appended
/// unchanged.
pub open spec fn spec_merge(contents: Seq<Option<Seq<u8>>>) -> Result<Seq<JsonData>, RunError>
    decreases contents.len(),
{
    if contents.len() == 0 {
        Ok(Seq::empty())
    } else {
        match spec_merge(contents.drop_last()) {
            Ok(acc) => match contents.last() {
                None => Ok(acc),
                Some(text) => match json_doc(spec_strip(text)) {
                    Some(JsonData::Array(items)) => Ok(acc + items),
                    _ => Err(RunError::InvalidReferencedDatabase),
                },
            },
            Err(e) => Err(e),
        }
    }
}

/// A missing referenced file is not fatal and contributes nothing: merging
/// with a missing file at the end merges exactly as without it.
pub proof fn lemma_missing_file_skipped(contents: Seq<Option<Seq<u8>>>)
    ensures
        spec_merge(contents.push(None)) == spec_merge(contents),
{
    assert(contents.push(None).drop_last() =~= contents);
}

/// Once a prefix of the file list fails, the whole list fails the same way.
proof fn lemma_merge_err_extends(contents: Seq<Option<Seq<u8>>>, k: int)
    requires
        0 <= k <= contents.len(),
        spec_merge(contents.take(k)) is Err,
    ensures
        spec_merge(contents) == spec_merge(contents.take(k)),
    decreases contents.len() - k,
{
    if k < contents.len() {
        assert(contents.take(k + 1).drop_last() =~= contents.take(k));
        lemma_merge_err_extends(contents, k + 1);
    } else {
        assert(contents.take(k) =~= contents);
    }
}

/// Merges the contents of the referenced database files, in file-list
/// order. The caller passes `None` for a file that does not exist: that
/// file is skipped, a non-fatal condition; the warning is the caller's.
pub fn merge_referenced(contents: &Vec<Option<Vec<u8>>>) -> (r: Result<Vec<JsonValue>, RunError>)
    ensures
        match r {
            Ok(out) => spec_merge(contents.deep_view()) == Ok::<Seq<JsonData>, RunError>(
                out.deep_view(),
            ),
            Err(e) => spec_merge(contents.deep_view()) == Err::<Seq<JsonData>, RunError>(e),
        },
{
    let ghost vc = contents.deep_view();
    let mut out: Vec<JsonValue> = Vec::new();
    proof {
        assert(vc.take(0) =~= Seq::<Option<Seq<u8>>>::empty());
        assert(out.deep_view() =~= Seq::<JsonData>::empty());
    }
    let mut i: usize = 0;
    while i < contents.len()
        invariant
            i <= contents@.len(),
            vc == contents.deep_view(),
            vc.len() == contents@.len(),
            forall|j: int| 0 <= j < contents@.len() ==> vc[j] == contents@[j].deep_view(),
            spec_merge(vc.take(i as int)) == Ok::<Seq<JsonData>, RunError>(out.deep_view()),
        decreases contents@.len() - i,
    {
        let ghost prev = out.deep_view();
        proof {
            assert(vc.take(i + 1).drop_last() =~= vc.take(i as int));
            assert(vc.take(i + 1).last() == vc[i as int]);
        }
        match &contents[i] {
            None => {},
            Some(text) => {
                proof {
                    assert(text.deep_view() =~= text@);
                }
                let stripped = strip_comments(text);
                match parse_json(&stripped) {
                    Some(parsed) => match parsed {
                        JsonValue::Array(mut items) => {
                            proof {
                                lemma_deep_view_items(items@);
                                assert(items.deep_view() =~= deep_view_items(items@));
                            }
                            let ghost vi = items.deep_view();
                            out.append(&mut items);
                            proof {
                                assert forall|j: int| 0 <= j < out@.len() implies out.deep_view()[j]
                                    == (prev + vi)[j] by {
                                    assert(out.deep_view()[j] == out@[j].deep_view());
                                }
                                assert(out.deep_view() =~= prev + vi);
                            }
                        },
                        other => {
                            proof {
                                assert(!(other.deep_view() matches JsonData::Array(_)));
                                assert(spec_merge(vc.take(i + 1)) == Err::<Seq<JsonData>, RunError>(
                                    RunError::InvalidReferencedDatabase,
                                ));
                                lemma_merge_err_extends(vc, i + 1);
                            }
                            return Err(RunError::InvalidReferencedDatabase);
                        },
                    },
                    None => {
                        proof {
                            assert(json_doc(spec_strip(text@)) is None);
                            assert(spec_merge(vc.take(i + 1)) == Err::<Seq<JsonData>, RunError>(
                                RunError::InvalidReferencedDatabase,
                            ));
                            lemma_merge_err_extends(vc, i + 1);
                        }
                        return Err(RunError::InvalidReferencedDatabase);
                    },
                }
            },
        }
        proof {
            assert(spec_merge(vc.take(i + 1)) == Ok::<Seq<JsonData>, RunError>(out.deep_view()));
        }
        i = i + 1;
    }
    proof {
        assert(vc.take(contents@.len() as int) =~= vc);
    }
    Ok(out)
}

} // verus!
