//! The native file tools (`read_file`, `grep_files`, `glob_files`,
//! `edit_file`, `write_file`): their names and declared parameters, the
//! checks on a call before it runs, and how a call is presented.
use vstd::prelude::*;
use vstd::string::StringSliceAdditionalSpecFns;

use crate::structured_file_change::{truncate_visible, visible};
use crate::text::{append_str, decimal, decimal_string};
use crate::tool_call_loop::{ToolName, ToolPayload};

verus! {

broadcast use vstd::string::group_string_axioms;

/// The largest JSON arguments of a file mutation call, in bytes.
pub const MAX_FILE_MUTATION_ARGUMENT_BYTES: usize = 8192;

/// The longest file path a mutation accepts, in bytes.
pub const MAX_FILE_PATH_BYTES: usize = 1024;

/// The reading and searching tools.
#[derive(Clone, Copy, Debug, PartialEq, Eq, Structural)]
pub enum FileToolKind {
    Read,
    Grep,
    Glob,
}

/// The name of a reading or searching tool.
pub open spec fn file_tool_name(kind: FileToolKind) -> Seq<char> {
    match kind {
        FileToolKind::Read => "read_file"@,
        FileToolKind::Grep => "grep_files"@,
        FileToolKind::Glob => "glob_files"@,
    }
}

impl FileToolKind {
    /// The tool's name.
    pub fn name(self) -> (r: &'static str)
        ensures
            r@ == file_tool_name(self),
    {
        match self {
            FileToolKind::Read => "read_file",
            FileToolKind::Grep => "grep_files",
            FileToolKind::Glob => "glob_files",
        }
    }
}

/// The file mutation tools.
#[derive(Clone, Copy, Debug, PartialEq, Eq, Structural)]
pub enum FileMutationToolKind {
    Edit,
    Write,
}

/// The name of a file mutation tool.
pub open spec fn mutation_tool_name(kind: FileMutationToolKind) -> Seq<char> {
    match kind {
        FileMutationToolKind::Edit => "edit_file"@,
        FileMutationToolKind::Write => "write_file"@,
    }
}

impl FileMutationToolKind {
    /// The tool's name.
    pub fn name(self) -> (r: &'static str)
        ensures
            r@ == mutation_tool_name(self),
    {
        match self {
            FileMutationToolKind::Edit => "edit_file",
            FileMutationToolKind::Write => "write_file",
        }
    }
}

/// The handler of a reading or searching tool.
pub struct FileToolHandler {
    pub kind: FileToolKind,
}

impl FileToolHandler {
    /// The handler of the given tool.
    pub fn new(kind: FileToolKind) -> (r: Self)
        ensures
            r.kind == kind,
    {
        FileToolHandler { kind }
    }

    /// The tool's name, in the default namespace.
    pub fn tool_name(&self) -> (r: ToolName)
        ensures
            r.name@ == file_tool_name(self.kind),
            r.namespace is None,
    {
        ToolName::plain(self.kind.name())
    }

    /// Reading and searching calls may run in parallel.
    pub fn supports_parallel_tool_calls(&self) -> (r: bool)
        ensures
            r,
    {
        true
    }

    /// The tool's declaration.
    pub fn spec(&self) -> (r: FunctionToolSpec)
        ensures
            is_file_tool_spec(self.kind, r),
    {
        create_file_tool(self.kind)
    }
}

/// The handler of a file mutation tool.
pub struct FileMutationToolHandler {
    pub kind: FileMutationToolKind,
}

impl FileMutationToolHandler {
    /// The handler of the given tool.
    pub fn new(kind: FileMutationToolKind) -> (r: Self)
        ensures
            r.kind == kind,
    {
        FileMutationToolHandler { kind }
    }

    /// The tool's name, in the default namespace.
    pub fn tool_name(&self) -> (r: ToolName)
        ensures
            r.name@ == mutation_tool_name(self.kind),
            r.namespace is None,
    {
        ToolName::plain(self.kind.name())
    }

    /// The largest arguments the model may send.
    pub fn model_argument_bytes_limit(&self) -> (r: Option<usize>)
        ensures
            r == Some(MAX_FILE_MUTATION_ARGUMENT_BYTES),
    {
        Some(MAX_FILE_MUTATION_ARGUMENT_BYTES)
    }

    /// The tool's declaration.
    pub fn spec(&self) -> (r: FunctionToolSpec)
        ensures
            is_mutation_tool_spec(self.kind, r),
    {
        create_file_mutation_tool(self.kind)
    }
}

/// The arguments of an `edit_file` call.
#[derive(Clone, Debug)]
pub struct EditFileArgs {
    pub file_path: String,
    pub old_string: String,
    pub new_string: String,
    pub replace_all: bool,
}

/// The arguments of a `write_file` call.
#[derive(Clone, Debug)]
pub struct WriteFileArgs {
    pub file_path: String,
    pub content: String,
}

/// The arguments of a file mutation call.
#[derive(Clone, Debug)]
pub enum MutationArgs {
    Edit(EditFileArgs),
    Write(WriteFileArgs),
}

impl MutationArgs {
    /// The path the call names.
    pub fn file_path(&self) -> (r: &str)
        ensures
            r@ == match self {
                MutationArgs::Edit(a) => a.file_path@,
                MutationArgs::Write(a) => a.file_path@,
            },
    {
        match self {
            MutationArgs::Edit(a) => a.file_path.as_str(),
            MutationArgs::Write(a) => a.file_path.as_str(),
        }
    }
}

/// A mutation path is non-empty, at most 1024 bytes and free of NUL,
/// carriage return and line feed.
pub open spec fn acceptable_file_path(p: Seq<char>) -> bool {
    &&& p.len() > 0
    &&& crate::text::utf8(p).len() <= MAX_FILE_PATH_BYTES
    &&& forall|i: int| 0 <= i < p.len() ==> #[trigger] p[i] != '\0' && p[i] != '\r' && p[i] != '\n'
}

/// Checks the path of a mutation call.
pub fn validate_file_path(kind: FileMutationToolKind, file_path: &str) -> (r: Result<(), String>)
    ensures
        r is Ok <==> acceptable_file_path(file_path@),
        r matches Err(m) ==> m@ == mutation_tool_name(kind)
            + ".file_path must be non-empty, at most 1024 bytes, and contain no control line breaks"@,
{
    let cs = crate::text::chars_of(file_path);
    let mut ok = !file_path.is_empty() && file_path.as_bytes().len() <= MAX_FILE_PATH_BYTES;
    let n = cs.len();
    let mut i: usize = 0;
    while ok && i < n
        invariant
            i <= n,
            n == cs@.len(),
            cs@ == file_path@,
            ok ==> forall|j: int| 0 <= j < i ==> #[trigger] cs@[j] != '\0' && cs@[j] != '\r' && cs@[j] != '\n',
            ok ==> file_path@.len() > 0 && crate::text::utf8(file_path@).len() <= MAX_FILE_PATH_BYTES,
            !ok ==> !acceptable_file_path(file_path@),
        decreases n - i,
    {
        let c = cs[i];
        if c == '\0' || c == '\r' || c == '\n' {
            ok = false;
        }
        i = i + 1;
    }
    if ok {
        Ok(())
    } else {
        let mut m = kind.name().to_owned();
        append_str(&mut m, ".file_path must be non-empty, at most 1024 bytes, and contain no control line breaks");
        Err(m)
    }
}

/// A path as it may be shown to the model: at most 255 characters, then an
/// ellipsis when it was longer.
pub fn truncate_for_model(value: &str) -> (r: String)
    ensures
        r@ == visible(value@),
{
    truncate_visible(value)
}

/// The message of a mutation call that cannot run, or the JSON arguments of
/// one that can: the payload must be function arguments of at most 8 KiB,
/// and the session must have a local environment.
pub fn check_mutation_call(kind: FileMutationToolKind, payload: &ToolPayload, environment_is_remote: Option<bool>) -> (r: Result<String, String>)
    ensures
        !(payload is Function) ==> (r matches Err(m) && m@ == mutation_tool_name(kind)
            + " handler received unsupported payload"@),
        payload matches ToolPayload::Function { arguments } ==> {
            if crate::text::utf8(arguments@).len() > MAX_FILE_MUTATION_ARGUMENT_BYTES {
                r matches Err(m) && m@ == mutation_tool_name(kind) + " arguments exceed the "@
                    + decimal(MAX_FILE_MUTATION_ARGUMENT_BYTES as nat)
                    + "-byte limit; use apply_patch for larger changes"@
            } else if environment_is_remote is None {
                r matches Err(m) && m@ == mutation_tool_name(kind) + " is unavailable in this session"@
            } else if environment_is_remote == Some(true) {
                r matches Err(m) && m@ == mutation_tool_name(kind)
                    + " is only available for the local Windows environment; use apply_patch for remote environments"@
            } else {
                r matches Ok(a) && a@ == arguments@
            }
        },
{
    let arguments = match payload {
        ToolPayload::Function { arguments } => arguments,
        _ => {
            let mut m = kind.name().to_owned();
            append_str(&mut m, " handler received unsupported payload");
            return Err(m);
        },
    };
    if arguments.as_str().as_bytes().len() > MAX_FILE_MUTATION_ARGUMENT_BYTES {
        let mut m = kind.name().to_owned();
        append_str(&mut m, " arguments exceed the ");
        append_str(&mut m, decimal_string(MAX_FILE_MUTATION_ARGUMENT_BYTES as u64).as_str());
        append_str(&mut m, "-byte limit; use apply_patch for larger changes");
        return Err(m);
    }
    match environment_is_remote {
        None => {
            let mut m = kind.name().to_owned();
            append_str(&mut m, " is unavailable in this session");
            Err(m)
        },
        Some(true) => {
            let mut m = kind.name().to_owned();
            append_str(
                &mut m,
                " is only available for the local Windows environment; use apply_patch for remote environments",
            );
            Err(m)
        },
        Some(false) => Ok(arguments.clone()),
    }
}

/// The message when a mutation path cannot be resolved.
pub fn unresolved_path_message(kind: FileMutationToolKind, file_path: &str) -> (r: String)
    ensures
        r@ == "unable to resolve "@ + mutation_tool_name(kind) + " path `"@ + visible(file_path@) + "`"@,
{
    let mut m = "unable to resolve ".to_owned();
    append_str(&mut m, kind.name());
    append_str(&mut m, " path `");
    append_str(&mut m, truncate_for_model(file_path).as_str());
    append_str(&mut m, "`");
    m
}

/// The message when a mutation is refused by its checks.
pub fn validation_failed_message(kind: FileMutationToolKind, error: &str) -> (r: String)
    ensures
        r@ == mutation_tool_name(kind) + " validation failed: "@ + error@,
{
    let mut m = kind.name().to_owned();
    append_str(&mut m, " validation failed: ");
    append_str(&mut m, error);
    m
}

/// The message of a reading or searching call that cannot run, or its JSON
/// arguments: the payload must be function arguments and the session must
/// have an environment.
pub fn check_file_tool_call(kind: FileToolKind, payload: &ToolPayload, has_environment: bool) -> (r: Result<String, String>)
    ensures
        !(payload is Function) ==> (r matches Err(m) && m@ == file_tool_name(kind)
            + " handler received unsupported payload"@),
        payload matches ToolPayload::Function { arguments } ==> if has_environment {
            r matches Ok(a) && a@ == arguments@
        } else {
            r matches Err(m) && m@ == file_tool_name(kind) + " is unavailable in this session"@
        },
{
    match payload {
        ToolPayload::Function { arguments } => {
            if has_environment {
                Ok(arguments.clone())
            } else {
                let mut m = kind.name().to_owned();
                append_str(&mut m, " is unavailable in this session");
                Err(m)
            }
        },
        _ => {
            let mut m = kind.name().to_owned();
            append_str(&mut m, " handler received unsupported payload");
            Err(m)
        },
    }
}

/// The schema of one declared parameter.
#[derive(Clone, Debug)]
pub enum JsonSchema {
    String { description: String },
    Number { description: String },
    Boolean { description: String },
    StringEnum { values: Vec<String>, description: String },
}

/// A parameter schema with its texts as character sequences.
pub ghost enum SchemaView {
    String { description: Seq<char> },
    Number { description: Seq<char> },
    Boolean { description: Seq<char> },
    StringEnum { values: Seq<Seq<char>>, description: Seq<char> },
}

/// The views of a list of strings.
pub open spec fn string_views(v: Seq<String>) -> Seq<Seq<char>> {
    v.map_values(|s: String| s@)
}

impl View for JsonSchema {
    type V = SchemaView;

    open spec fn view(&self) -> SchemaView {
        match self {
            JsonSchema::String { description } => SchemaView::String { description: description@ },
            JsonSchema::Number { description } => SchemaView::Number { description: description@ },
            JsonSchema::Boolean { description } => SchemaView::Boolean { description: description@ },
            JsonSchema::StringEnum { values, description } => SchemaView::StringEnum {
                values: string_views(values@),
                description: description@,
            },
        }
    }
}

/// The declaration of a function tool: its name and description, and an
/// object of parameters (in name order) that admits no other property.
#[derive(Clone, Debug)]
pub struct FunctionToolSpec {
    pub name: String,
    pub description: String,
    pub strict: bool,
    pub properties: Vec<(String, JsonSchema)>,
    pub required: Vec<String>,
    pub additional_properties: bool,
}

/// The parameters of a declaration, as names and schema views.
pub open spec fn property_views(ps: Seq<(String, JsonSchema)>) -> Seq<(Seq<char>, SchemaView)> {
    ps.map_values(|p: (String, JsonSchema)| (p.0@, p.1@))
}

/// The declaration has the given name, description, parameters and required
/// parameters, is not strict, and admits no other property.
pub open spec fn declares(
    r: FunctionToolSpec,
    name: Seq<char>,
    description: Seq<char>,
    properties: Seq<(Seq<char>, SchemaView)>,
    required: Seq<Seq<char>>,
) -> bool {
    &&& r.name@ == name
    &&& r.description@ == description
    &&& !r.strict
    &&& property_views(r.properties@) == properties
    &&& string_views(r.required@) == required
    &&& !r.additional_properties
}

/// The description of the file path parameter.
pub open spec fn path_parameter() -> Seq<char> {
    "Absolute or workspace-relative Windows file path."@
}

/// The declaration of a reading or searching tool.
pub open spec fn is_file_tool_spec(kind: FileToolKind, r: FunctionToolSpec) -> bool {
    match kind {
        FileToolKind::Read => declares(
            r,
            "read_file"@,
            "Read a text file without invoking PowerShell. Results are line-numbered and bounded; use offset and limit to continue when next_offset is returned."@,
            seq![
                ("file_path"@, SchemaView::String { description: path_parameter() }),
                ("limit"@, SchemaView::Number { description: "Maximum lines to return. Defaults to 400 and cannot exceed 1000."@ }),
                ("offset"@, SchemaView::Number { description: "One-based line number to start reading. Defaults to 1."@ }),
            ],
            seq!["file_path"@],
        ),
        FileToolKind::Grep => declares(
            r,
            "grep_files"@,
            "Search file contents with Codex's bundled ripgrep executable, invoked directly without PowerShell. Results are bounded and respect ignore files by default."@,
            seq![
                ("context"@, SchemaView::Number { description: "Context lines around content matches. Ignored in other modes; maximum 20."@ }),
                ("glob"@, SchemaView::String { description: "Optional ripgrep glob restricting searched files."@ }),
                ("head_limit"@, SchemaView::Number { description: "Maximum result lines. Defaults to 100 and cannot exceed 1000."@ }),
                ("output_mode"@, SchemaView::StringEnum {
                    values: seq!["files_with_matches"@, "content"@, "count"@],
                    description: "Result form. Defaults to files_with_matches; use content only when matching lines are needed."@,
                }),
                ("path"@, SchemaView::String { description: "Directory or file to search. Defaults to the workspace directory."@ }),
                ("pattern"@, SchemaView::String { description: "Regular expression to search for."@ }),
            ],
            seq!["pattern"@],
        ),
        FileToolKind::Glob => declares(
            r,
            "glob_files"@,
            "List files matching a glob with Codex's bundled ripgrep executable, invoked directly without PowerShell. Results are sorted, bounded, and respect ignore files by default."@,
            seq![
                ("head_limit"@, SchemaView::Number { description: "Maximum paths to return. Defaults to 100 and cannot exceed 1000."@ }),
                ("path"@, SchemaView::String { description: "Directory to search. Defaults to the workspace directory."@ }),
                ("pattern"@, SchemaView::String { description: "Ripgrep glob pattern to match."@ }),
            ],
            seq!["pattern"@],
        ),
    }
}

/// The declaration of a file mutation tool.
pub open spec fn is_mutation_tool_spec(kind: FileMutationToolKind, r: FunctionToolSpec) -> bool {
    match kind {
        FileMutationToolKind::Edit => declares(
            r,
            "edit_file"@,
            "Prefer this tool for a small, precise change to one existing text file. It performs an exact old_string replacement without apply_patch syntax, preserves UTF-8 BOM and existing line endings, and rejects ambiguous matches unless replace_all is true. The complete JSON arguments must stay under 8192 bytes; use apply_patch for larger changes."@,
            seq![
                ("file_path"@, SchemaView::String { description: path_parameter() }),
                ("new_string"@, SchemaView::String { description: "Replacement text."@ }),
                ("old_string"@, SchemaView::String { description: "Exact existing text to replace, including indentation. Use more surrounding context when the text occurs more than once."@ }),
                ("replace_all"@, SchemaView::Boolean { description: "Replace every exact occurrence. Defaults to false."@ }),
            ],
            seq!["file_path"@, "old_string"@, "new_string"@],
        ),
        FileMutationToolKind::Write => declares(
            r,
            "write_file"@,
            "Create one small UTF-8 text file without invoking PowerShell. This tool atomically refuses to overwrite an existing path. The complete JSON arguments must stay under 8192 bytes; use edit_file for existing files and apply_patch for larger content."@,
            seq![
                ("content"@, SchemaView::String { description: "Complete UTF-8 contents for the new file."@ }),
                ("file_path"@, SchemaView::String { description: path_parameter() }),
            ],
            seq!["file_path"@, "content"@],
        ),
    }
}

fn push_property(ps: &mut Vec<(String, JsonSchema)>, name: &str, schema: JsonSchema)
    ensures
        property_views(final(ps)@) == property_views(old(ps)@).push((name@, schema@)),
{
    let ghost before = ps@;
    let ghost sv = schema@;
    ps.push((name.to_owned(), schema));
    assert(property_views(ps@) =~= property_views(before).push((name@, sv)));
}

fn push_name(v: &mut Vec<String>, name: &str)
    ensures
        string_views(final(v)@) == string_views(old(v)@).push(name@),
{
    let ghost before = v@;
    v.push(name.to_owned());
    assert(string_views(v@) =~= string_views(before).push(name@));
}

fn string_schema(description: &str) -> (r: JsonSchema)
    ensures
        r@ == (SchemaView::String { description: description@ }),
{
    JsonSchema::String { description: description.to_owned() }
}

fn number_schema(description: &str) -> (r: JsonSchema)
    ensures
        r@ == (SchemaView::Number { description: description@ }),
{
    JsonSchema::Number { description: description.to_owned() }
}

fn declaration(name: &str, description: &str, properties: Vec<(String, JsonSchema)>, required: Vec<String>) -> (r: FunctionToolSpec)
    ensures
        declares(r, name@, description@, property_views(properties@), string_views(required@)),
{
    FunctionToolSpec {
        name: name.to_owned(),
        description: description.to_owned(),
        strict: false,
        properties,
        required,
        additional_properties: false,
    }
}

/// The declaration of a reading or searching tool.
pub fn create_file_tool(kind: FileToolKind) -> (r: FunctionToolSpec)
    ensures
        is_file_tool_spec(kind, r),
{
    let mut ps: Vec<(String, JsonSchema)> = Vec::new();
    let mut required: Vec<String> = Vec::new();
    match kind {
        FileToolKind::Read => {
            push_property(&mut ps, "file_path", string_schema("Absolute or workspace-relative Windows file path."));
            push_property(&mut ps, "limit", number_schema("Maximum lines to return. Defaults to 400 and cannot exceed 1000."));
            push_property(&mut ps, "offset", number_schema("One-based line number to start reading. Defaults to 1."));
            push_name(&mut required, "file_path");
            assert(property_views(ps@) =~= seq![
                ("file_path"@, SchemaView::String { description: path_parameter() }),
                ("limit"@, SchemaView::Number { description: "Maximum lines to return. Defaults to 400 and cannot exceed 1000."@ }),
                ("offset"@, SchemaView::Number { description: "One-based line number to start reading. Defaults to 1."@ }),
            ]);
            assert(string_views(required@) =~= seq!["file_path"@]);
            declaration(
                "read_file",
                "Read a text file without invoking PowerShell. Results are line-numbered and bounded; use offset and limit to continue when next_offset is returned.",
                ps,
                required,
            )
        },
        FileToolKind::Grep => {
            push_property(&mut ps, "context", number_schema("Context lines around content matches. Ignored in other modes; maximum 20."));
            push_property(&mut ps, "glob", string_schema("Optional ripgrep glob restricting searched files."));
            push_property(&mut ps, "head_limit", number_schema("Maximum result lines. Defaults to 100 and cannot exceed 1000."));
            let mut values: Vec<String> = Vec::new();
            push_name(&mut values, "files_with_matches");
            push_name(&mut values, "content");
            push_name(&mut values, "count");
            assert(string_views(values@) =~= seq!["files_with_matches"@, "content"@, "count"@]);
            push_property(
                &mut ps,
                "output_mode",
                JsonSchema::StringEnum {
                    values,
                    description: "Result form. Defaults to files_with_matches; use content only when matching lines are needed.".to_owned(),
                },
            );
            push_property(&mut ps, "path", string_schema("Directory or file to search. Defaults to the workspace directory."));
            push_property(&mut ps, "pattern", string_schema("Regular expression to search for."));
            push_name(&mut required, "pattern");
            assert(property_views(ps@) =~= seq![
                ("context"@, SchemaView::Number { description: "Context lines around content matches. Ignored in other modes; maximum 20."@ }),
                ("glob"@, SchemaView::String { description: "Optional ripgrep glob restricting searched files."@ }),
                ("head_limit"@, SchemaView::Number { description: "Maximum result lines. Defaults to 100 and cannot exceed 1000."@ }),
                ("output_mode"@, SchemaView::StringEnum {
                    values: seq!["files_with_matches"@, "content"@, "count"@],
                    description: "Result form. Defaults to files_with_matches; use content only when matching lines are needed."@,
                }),
                ("path"@, SchemaView::String { description: "Directory or file to search. Defaults to the workspace directory."@ }),
                ("pattern"@, SchemaView::String { description: "Regular expression to search for."@ }),
            ]);
            assert(string_views(required@) =~= seq!["pattern"@]);
            declaration(
                "grep_files",
                "Search file contents with Codex's bundled ripgrep executable, invoked directly without PowerShell. Results are bounded and respect ignore files by default.",
                ps,
                required,
            )
        },
        FileToolKind::Glob => {
            push_property(&mut ps, "head_limit", number_schema("Maximum paths to return. Defaults to 100 and cannot exceed 1000."));
            push_property(&mut ps, "path", string_schema("Directory to search. Defaults to the workspace directory."));
            push_property(&mut ps, "pattern", string_schema("Ripgrep glob pattern to match."));
            push_name(&mut required, "pattern");
            assert(property_views(ps@) =~= seq![
                ("head_limit"@, SchemaView::Number { description: "Maximum paths to return. Defaults to 100 and cannot exceed 1000."@ }),
                ("path"@, SchemaView::String { description: "Directory to search. Defaults to the workspace directory."@ }),
                ("pattern"@, SchemaView::String { description: "Ripgrep glob pattern to match."@ }),
            ]);
            assert(string_views(required@) =~= seq!["pattern"@]);
            declaration(
                "glob_files",
                "List files matching a glob with Codex's bundled ripgrep executable, invoked directly without PowerShell. Results are sorted, bounded, and respect ignore files by default.",
                ps,
                required,
            )
        },
    }
}

/// The declaration of a file mutation tool.
pub fn create_file_mutation_tool(kind: FileMutationToolKind) -> (r: FunctionToolSpec)
    ensures
        is_mutation_tool_spec(kind, r),
{
    let mut ps: Vec<(String, JsonSchema)> = Vec::new();
    let mut required: Vec<String> = Vec::new();
    match kind {
        FileMutationToolKind::Edit => {
            push_property(&mut ps, "file_path", string_schema("Absolute or workspace-relative Windows file path."));
            push_property(&mut ps, "new_string", string_schema("Replacement text."));
            push_property(
                &mut ps,
                "old_string",
                string_schema("Exact existing text to replace, including indentation. Use more surrounding context when the text occurs more than once."),
            );
            push_property(
                &mut ps,
                "replace_all",
                JsonSchema::Boolean { description: "Replace every exact occurrence. Defaults to false.".to_owned() },
            );
            push_name(&mut required, "file_path");
            push_name(&mut required, "old_string");
            push_name(&mut required, "new_string");
            assert(property_views(ps@) =~= seq![
                ("file_path"@, SchemaView::String { description: path_parameter() }),
                ("new_string"@, SchemaView::String { description: "Replacement text."@ }),
                ("old_string"@, SchemaView::String { description: "Exact existing text to replace, including indentation. Use more surrounding context when the text occurs more than once."@ }),
                ("replace_all"@, SchemaView::Boolean { description: "Replace every exact occurrence. Defaults to false."@ }),
            ]);
            assert(string_views(required@) =~= seq!["file_path"@, "old_string"@, "new_string"@]);
            declaration(
                "edit_file",
                "Prefer this tool for a small, precise change to one existing text file. It performs an exact old_string replacement without apply_patch syntax, preserves UTF-8 BOM and existing line endings, and rejects ambiguous matches unless replace_all is true. The complete JSON arguments must stay under 8192 bytes; use apply_patch for larger changes.",
                ps,
                required,
            )
        },
        FileMutationToolKind::Write => {
            push_property(&mut ps, "content", string_schema("Complete UTF-8 contents for the new file."));
            push_property(&mut ps, "file_path", string_schema("Absolute or workspace-relative Windows file path."));
            push_name(&mut required, "file_path");
            push_name(&mut required, "content");
            assert(property_views(ps@) =~= seq![
                ("content"@, SchemaView::String { description: "Complete UTF-8 contents for the new file."@ }),
                ("file_path"@, SchemaView::String { description: path_parameter() }),
            ]);
            assert(string_views(required@) =~= seq!["file_path"@, "content"@]);
            declaration(
                "write_file",
                "Create one small UTF-8 text file without invoking PowerShell. This tool atomically refuses to overwrite an existing path. The complete JSON arguments must stay under 8192 bytes; use edit_file for existing files and apply_patch for larger content.",
                ps,
                required,
            )
        },
    }
}

/// How a reading or searching call is shown as an exploration command.
#[derive(Clone, Debug, PartialEq, Eq)]
pub enum ParsedCommand {
    Read { cmd: String, name: String, path: String },
    Search { cmd: String, query: Option<String>, path: Option<String> },
    ListFiles { cmd: String, path: Option<String> },
    Unknown { cmd: String },
}

/// A parsed command with its texts as character sequences.
pub ghost enum ParsedCommandView {
    Read { cmd: Seq<char>, name: Seq<char>, path: Seq<char> },
    Search { cmd: Seq<char>, query: Option<Seq<char>>, path: Option<Seq<char>> },
    ListFiles { cmd: Seq<char>, path: Option<Seq<char>> },
    Unknown { cmd: Seq<char> },
}

/// The view of an optional string.
pub open spec fn opt_view(s: Option<String>) -> Option<Seq<char>> {
    match s {
        Some(v) => Some(v@),
        None => None,
    }
}

impl View for ParsedCommand {
    type V = ParsedCommandView;

    open spec fn view(&self) -> ParsedCommandView {
        match self {
            ParsedCommand::Read { cmd, name, path } => ParsedCommandView::Read { cmd: cmd@, name: name@, path: path@ },
            ParsedCommand::Search { cmd, query, path } => ParsedCommandView::Search {
                cmd: cmd@,
                query: opt_view(*query),
                path: opt_view(*path),
            },
            ParsedCommand::ListFiles { cmd, path } => ParsedCommandView::ListFiles { cmd: cmd@, path: opt_view(*path) },
            ParsedCommand::Unknown { cmd } => ParsedCommandView::Unknown { cmd: cmd@ },
        }
    }
}

/// A call as shown in the transcript: its command line and what it does.
#[derive(Clone, Debug)]
pub struct FileToolPresentation {
    pub command: Vec<String>,
    pub parsed_cmd: Vec<ParsedCommand>,
}

/// The command text of a call: the tool's name, then the path when given.
pub open spec fn command_text(kind: FileToolKind, path: Option<Seq<char>>) -> Seq<char> {
    match path {
        Some(p) => file_tool_name(kind) + " "@ + p,
        None => file_tool_name(kind),
    }
}

/// What a call does: a read of the named file (named by its file name, or
/// its path when it has none), a search for the pattern, or a listing of
/// the glob.
pub open spec fn parsed_of(
    kind: FileToolKind,
    path: Option<Seq<char>>,
    pattern: Option<Seq<char>>,
    file_name: Option<Seq<char>>,
) -> ParsedCommandView {
    let cmd = command_text(kind, path);
    match kind {
        FileToolKind::Read => match path {
            Some(p) => ParsedCommandView::Read {
                cmd,
                name: match file_name {
                    Some(n) => n,
                    None => p,
                },
                path: p,
            },
            None => ParsedCommandView::Unknown { cmd },
        },
        FileToolKind::Grep => ParsedCommandView::Search { cmd, query: pattern, path },
        FileToolKind::Glob => ParsedCommandView::ListFiles { cmd, path: pattern },
    }
}

/// The presentation has the call's one command line and one parsed command.
pub open spec fn presents(
    r: FileToolPresentation,
    kind: FileToolKind,
    path: Option<Seq<char>>,
    pattern: Option<Seq<char>>,
    file_name: Option<Seq<char>>,
) -> bool {
    &&& r.command@.len() == 1
    &&& r.command@[0]@ == command_text(kind, path)
    &&& r.parsed_cmd@.len() == 1
    &&& r.parsed_cmd@[0]@ == parsed_of(kind, path, pattern, file_name)
}

/// The presentation of a call with the given path, pattern and file name
/// of the path.
pub fn presentation_of(
    kind: FileToolKind,
    path: Option<String>,
    pattern: Option<String>,
    file_name: Option<String>,
) -> (r: FileToolPresentation)
    ensures
        presents(r, kind, opt_view(path), opt_view(pattern), opt_view(file_name)),
{
    let mut cmd = kind.name().to_owned();
    match &path {
        Some(p) => {
            append_str(&mut cmd, " ");
            append_str(&mut cmd, p.as_str());
        },
        None => {},
    }
    let parsed = match kind {
        FileToolKind::Read => match path {
            Some(p) => ParsedCommand::Read {
                cmd: cmd.clone(),
                name: match file_name {
                    Some(n) => n,
                    None => p.clone(),
                },
                path: p,
            },
            None => ParsedCommand::Unknown { cmd: cmd.clone() },
        },
        FileToolKind::Grep => ParsedCommand::Search { cmd: cmd.clone(), query: pattern, path },
        FileToolKind::Glob => ParsedCommand::ListFiles { cmd: cmd.clone(), path: pattern },
    };
    let command = vec![cmd];
    let parsed_cmd = vec![parsed];
    FileToolPresentation { command, parsed_cmd }
}

/// Names the string member `name` of the JSON object that `text` holds
/// (`None` when the text is not a JSON object or the member is missing or
/// not a string).
pub uninterp spec fn json_string_member(text: Seq<char>, name: Seq<char>) -> Option<Seq<char>>;

/// Calls `serde_json::from_str::<serde_json::Value>` (an unparsable text
/// stands for `Value::Null`), then `Value::get` and `Value::as_str`. The
/// contract claims only that the result is the named `json_string_member`.
#[verifier::external_body]
fn json_string_field(text: &str, name: &str) -> (r: Option<String>)
    ensures
        opt_view(r) == json_string_member(text@, name@),
{
    serde_json::from_str::<serde_json::Value>(text).unwrap_or_default().get(name).and_then(serde_json::Value::as_str).map(str::to_owned)
}

/// Calls `std::path::Path::file_name` and converts the name lossily to
/// UTF-8. What it returns depends on the platform's path syntax, so the
/// contract states nothing of it.
#[verifier::external_body]
fn path_file_name(path: &str) -> (r: Option<String>) {
    std::path::Path::new(path).file_name().map(|name| name.to_string_lossy().into_owned())
}

/// The member of the arguments that names a call's path.
pub open spec fn path_key(kind: FileToolKind) -> Seq<char> {
    match kind {
        FileToolKind::Read => "file_path"@,
        _ => "path"@,
    }
}

/// The pattern a search call names (a read has none).
pub open spec fn pattern_argument(kind: FileToolKind, arguments: Seq<char>) -> Option<Seq<char>> {
    match kind {
        FileToolKind::Read => None,
        _ => json_string_member(arguments, "pattern"@),
    }
}

/// The presentation of a call from its JSON arguments: the path is the
/// `file_path` member for a read and the `path` member for a search, the
/// pattern is the `pattern` member; for a read the name is the file name
/// that the platform reads from the path.
pub fn file_tool_presentation(kind: FileToolKind, arguments: &str) -> (r: FileToolPresentation)
    ensures
        exists|file_name: Option<Seq<char>>|
            #[trigger] presents(
                r,
                kind,
                json_string_member(arguments@, path_key(kind)),
                pattern_argument(kind, arguments@),
                file_name,
            ),
{
    let path = match kind {
        FileToolKind::Read => json_string_field(arguments, "file_path"),
        _ => json_string_field(arguments, "path"),
    };
    let pattern = match kind {
        FileToolKind::Read => None,
        _ => json_string_field(arguments, "pattern"),
    };
    let file_name = match (&kind, &path) {
        (FileToolKind::Read, Some(p)) => path_file_name(p.as_str()),
        _ => None,
    };
    let ghost fname = opt_view(file_name);
    let r = presentation_of(kind, path, pattern, file_name);
    assert(presents(r, kind, opt_view(path), opt_view(pattern), fname));
    r
}


/// The state of a command shown in the turn's record.
#[derive(Clone, Copy, Debug, PartialEq, Eq, Structural)]
pub enum CommandExecutionStatus {
    InProgress,
    Completed,
    Failed,
    Declined,
}

/// A file tool call as the turn's record shows it: a command run by the
/// agent, with no process and no captured output.
#[derive(Debug)]
pub struct CommandExecutionItem {
    pub id: String,
    pub command: Vec<String>,
    pub cwd: String,
    pub parsed_cmd: Vec<ParsedCommand>,
    pub status: CommandExecutionStatus,
    pub exit_code: Option<i32>,
    pub duration_ms: Option<u128>,
}

/// The exit code shown for a status: 0 once completed, 1 after a failure or
/// a refusal, none while running.
pub open spec fn exit_code_of(status: CommandExecutionStatus) -> Option<i32> {
    match status {
        CommandExecutionStatus::Completed => Some(0i32),
        CommandExecutionStatus::Failed | CommandExecutionStatus::Declined => Some(1i32),
        CommandExecutionStatus::InProgress => None,
    }
}

/// The record of a file tool call in the given state.
pub fn command_execution_item(
    call_id: &str,
    cwd: &str,
    presentation: FileToolPresentation,
    status: CommandExecutionStatus,
    duration_ms: Option<u128>,
) -> (r: CommandExecutionItem)
    ensures
        r.id@ == call_id@,
        r.cwd@ == cwd@,
        r.command == presentation.command,
        r.parsed_cmd == presentation.parsed_cmd,
        r.status == status,
        r.exit_code == exit_code_of(status),
        r.duration_ms == duration_ms,
{
    let exit_code = match status {
        CommandExecutionStatus::Completed => Some(0i32),
        CommandExecutionStatus::Failed | CommandExecutionStatus::Declined => Some(1i32),
        CommandExecutionStatus::InProgress => None,
    };
    CommandExecutionItem {
        id: call_id.to_owned(),
        command: presentation.command,
        cwd: cwd.to_owned(),
        parsed_cmd: presentation.parsed_cmd,
        status,
        exit_code,
        duration_ms,
    }
}

} // verus!
