//! Compiler-command entry synthesis.
//!
//! In generation, every supplied source file yields one entry: the working
//! directory handed in by the caller, a command line assembled from the
//! extracted compiler settings, and the file path itself, unmodified. The
//! command line is the compiler path, each include path prefixed with `-I`,
//! each define prefixed with `-D`, a `--std=<standard>` token (present even
//! when the standard is empty), `-c`, and the file, space-separated in that
//! order.
use crate::json::deep_view_fields;
use crate::json::lookup;
use crate::json::JsonData;
use crate::json::JsonValue;
use vstd::prelude::*;
use vstd::string::StringExecFns;

verus! {

/// The scalar and list fields extracted from a configuration and used for
/// generation.
pub struct CompilerSettings {
    pub compiler_path: String,
    pub include_paths: Vec<String>,
    pub defines: Vec<String>,
    pub standard: String,
}

/// The abstract form of [`CompilerSettings`].
pub struct SettingsData {
    pub compiler_path: Seq<char>,
    pub include_paths: Seq<Seq<char>>,
    pub defines: Seq<Seq<char>>,
    pub standard: Seq<char>,
}

impl DeepView for CompilerSettings {
    type V = SettingsData;

    open spec fn deep_view(&self) -> SettingsData {
        SettingsData {
            compiler_path: self.compiler_path@,
            include_paths: self.include_paths.deep_view(),
            defines: self.defines.deep_view(),
            standard: self.standard@,
        }
    }
}

/// One record of the output database.
pub struct CompileCommandEntry {
    pub directory: String,
    pub command: String,
    pub file: String,
}

/// The abstract form of [`CompileCommandEntry`].
pub struct EntryData {
    pub directory: Seq<char>,
    pub command: Seq<char>,
    pub file: Seq<char>,
}

impl DeepView for CompileCommandEntry {
    type V = EntryData;

    open spec fn deep_view(&self) -> EntryData {
        EntryData { directory: self.directory@, command: self.command@, file: self.file@ }
    }
}

/// Each item prefixed with `prefix`, space-separated: empty for no items.
pub open spec fn joined_flags(items: Seq<Seq<char>>, prefix: Seq<char>) -> Seq<char>
    decreases items.len(),
{
    if items.len() == 0 {
        Seq::empty()
    } else if items.len() == 1 {
        prefix + items[0]
    } else {
        joined_flags(items.drop_last(), prefix) + " "@ + prefix + items.last()
    }
}

/// The space-prefixed flag block for one list: empty when the list is
/// empty, so that a list without items contributes neither tokens nor a
/// separator.
pub open spec fn flag_block(items: Seq<Seq<char>>, prefix: Seq<char>) -> Seq<char> {
    if items.len() == 0 {
        Seq::empty()
    } else {
        " "@ + joined_flags(items, prefix)
    }
}

/// The part of a generated command before the `--std=` token: the compiler
/// path and the flag blocks that are present, single-space-separated.
pub open spec fn command_head(s: SettingsData) -> Seq<char> {
    s.compiler_path + flag_block(s.include_paths, "-I"@) + flag_block(s.defines, "-D"@) + " "@
}

/// The command line generated for one source file: the single-space join of
/// the tokens present — the compiler path, the `-I` flags, the `-D` flags,
/// the `--std=<standard>` token (present even when the standard is empty),
/// `-c`, and the file.
pub open spec fn spec_command(s: SettingsData, file: Seq<char>) -> Seq<char> {
    s.compiler_path + flag_block(s.include_paths, "-I"@) + flag_block(s.defines, "-D"@)
        + " --std="@ + s.standard + " -c "@ + file
}

/// The entry generated for one source file: the caller's working directory,
/// the command line, and the file path unmodified.
pub open spec fn spec_entry(s: SettingsData, directory: Seq<char>, file: Seq<char>) -> EntryData {
    EntryData { directory, command: spec_command(s, file), file }
}

/// Every generated command holds the literal `--std=` directly followed by
/// the configured standard (possibly empty), and ends with ` -c ` directly
/// followed by the file path.
pub proof fn lemma_command_shape(s: SettingsData, file: Seq<char>)
    ensures
        spec_command(s, file) == command_head(s) + "--std="@ + s.standard + (" -c "@ + file),
{
    reveal_strlit(" --std=");
    reveal_strlit("--std=");
    reveal_strlit(" ");
    assert(spec_command(s, file) =~= command_head(s) + "--std="@ + s.standard + (" -c "@ + file));
}

/// Joins `items`, each prefixed with `prefix`, with single spaces.
fn join_flags(items: &Vec<String>, prefix: &str) -> (r: String)
    ensures
        r@ == joined_flags(items.deep_view(), prefix@),
{
    let ghost vi = items.deep_view();
    let mut out = String::new();
    let mut i: usize = 0;
    while i < items.len()
        invariant
            i <= items@.len(),
            vi == items.deep_view(),
            vi.len() == items@.len(),
            forall|j: int| 0 <= j < items@.len() ==> vi[j] == items@[j]@,
            out@ == joined_flags(vi.take(i as int), prefix@),
        decreases items@.len() - i,
    {
        if i > 0 {
            out.append(" ");
        }
        out.append(prefix);
        out.append(items[i].as_str());
        i = i + 1;
        proof {
            assert(vi.take(i as int).drop_last() =~= vi.take(i - 1));
            assert(vi.take(i as int).last() == vi[i - 1]);
            assert(out@ =~= joined_flags(vi.take(i as int), prefix@));
        }
    }
    proof {
        assert(vi.take(items@.len() as int) =~= vi);
    }
    out
}

/// Builds the command line for one source file from the settings.
pub fn build_command(settings: &CompilerSettings, file: &String) -> (r: String)
    ensures
        r@ == spec_command(settings.deep_view(), file@),
{
    let mut out = settings.compiler_path.clone();
    if settings.include_paths.len() > 0 {
        out.append(" ");
        let inc = join_flags(&settings.include_paths, "-I");
        out.append(inc.as_str());
    }
    if settings.defines.len() > 0 {
        out.append(" ");
        let def = join_flags(&settings.defines, "-D");
        out.append(def.as_str());
    }
    out.append(" --std=");
    out.append(settings.standard.as_str());
    out.append(" -c ");
    out.append(file.as_str());
    proof {
        assert(out@ =~= spec_command(settings.deep_view(), file@));
    }
    out
}

/// Builds the entry for one source file: pure in the settings, the directory
/// and the path; no filesystem check is made on the source.
pub fn synthesize_entry(settings: &CompilerSettings, directory: &String, file: &String) -> (r:
    CompileCommandEntry)
    ensures
        r.deep_view() == spec_entry(settings.deep_view(), directory@, file@),
{
    CompileCommandEntry {
        directory: directory.clone(),
        command: build_command(settings, file),
        file: file.clone(),
    }
}

/// One entry per supplied source file, in source-list order: as many entries
/// as sources, each carrying its source path unmodified.
pub fn generate_entries(settings: &CompilerSettings, directory: &String, sources: &Vec<String>) -> (r:
    Vec<CompileCommandEntry>)
    ensures
        r.deep_view().len() == sources@.len(),
        forall|i: int|
            0 <= i < sources@.len() ==> r.deep_view()[i] == spec_entry(
                settings.deep_view(),
                directory@,
                sources[i]@,
            ),
{
    let mut out: Vec<CompileCommandEntry> = Vec::new();
    let mut i: usize = 0;
    while i < sources.len()
        invariant
            i <= sources@.len(),
            out.deep_view().len() == i,
            forall|j: int|
                0 <= j < i ==> out.deep_view()[j] == spec_entry(
                    settings.deep_view(),
                    directory@,
                    sources[j]@,
                ),
        decreases sources@.len() - i,
    {
        let ghost prev = out.deep_view();
        out.push(synthesize_entry(settings, directory, &sources[i]));
        i = i + 1;
        proof {
            assert forall|j: int| 0 <= j < i implies out.deep_view()[j] == spec_entry(
                settings.deep_view(),
                directory@,
                sources[j]@,
            ) by {
                assert(out.deep_view()[j] == out@[j].deep_view());
                if j < i - 1 {
                    assert(prev[j] == out@[j].deep_view());
                }
            }
        }
    }
    out
}

/// The JSON object form of an entry: the keys `directory`, `command` and
/// `file`, in that order, each with its string value.
pub open spec fn entry_json(e: EntryData) -> JsonData {
    JsonData::Object(
        seq![
            ("directory"@, JsonData::Text(e.directory)),
            ("command"@, JsonData::Text(e.command)),
            ("file"@, JsonData::Text(e.file)),
        ],
    )
}

/// Looking the three keys up in an entry's JSON object form yields the
/// entry's own fields: the directory, the command, and the file path,
/// unmodified.
pub proof fn lemma_entry_json_fields(e: EntryData)
    ensures
        entry_json(e) matches JsonData::Object(fields) && lookup(fields, "directory"@) == Some(
            JsonData::Text(e.directory),
        ) && lookup(fields, "command"@) == Some(JsonData::Text(e.command)) && lookup(
            fields,
            "file"@,
        ) == Some(JsonData::Text(e.file)),
{
    reveal_strlit("directory");
    reveal_strlit("command");
    reveal_strlit("file");
    assert("directory"@ != "command"@) by {
        assert("directory"@.len() != "command"@.len());
    }
    assert("directory"@ != "file"@) by {
        assert("directory"@.len() != "file"@.len());
    }
    assert("command"@ != "file"@) by {
        assert("command"@.len() != "file"@.len());
    }
    let fields = seq![
        ("directory"@, JsonData::Text(e.directory)),
        ("command"@, JsonData::Text(e.command)),
        ("file"@, JsonData::Text(e.file)),
    ];
    let tail1 = fields.subrange(1, 3);
    assert(tail1 =~= seq![
        ("command"@, JsonData::Text(e.command)),
        ("file"@, JsonData::Text(e.file)),
    ]);
    let tail2 = tail1.subrange(1, 2);
    assert(tail2 =~= seq![("file"@, JsonData::Text(e.file))]);
    assert(lookup(tail2, "file"@) == Some(JsonData::Text(e.file)));
    assert(lookup(tail1, "file"@) == Some(JsonData::Text(e.file)));
    assert(lookup(fields, "file"@) == Some(JsonData::Text(e.file)));
    assert(lookup(tail1, "command"@) == Some(JsonData::Text(e.command)));
    assert(lookup(fields, "command"@) == Some(JsonData::Text(e.command)));
    assert(lookup(fields, "directory"@) == Some(JsonData::Text(e.directory)));
}

/// Turns an entry into its JSON object form.
pub fn entry_to_json(e: &CompileCommandEntry) -> (r: JsonValue)
    ensures
        r.deep_view() == entry_json(e.deep_view()),
{
    let ghost ed = e.deep_view();
    let mut fields: Vec<(String, JsonValue)> = Vec::new();
    fields.push((String::from_str("directory"), JsonValue::Text(e.directory.clone())));
    fields.push((String::from_str("command"), JsonValue::Text(e.command.clone())));
    fields.push((String::from_str("file"), JsonValue::Text(e.file.clone())));
    proof {
        crate::json::lemma_deep_view_fields(fields@);
        assert(deep_view_fields(fields@) =~= seq![
            ("directory"@, JsonData::Text(ed.directory)),
            ("command"@, JsonData::Text(ed.command)),
            ("file"@, JsonData::Text(ed.file)),
        ]);
    }
    JsonValue::Object(fields)
}

} // verus!
