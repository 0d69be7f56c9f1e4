//! Built-in tools: bash, read_file, write_file.

use crate::error::{CoreError, CoreErrorView};
use crate::json;
use crate::json::{JVal, Json};
use crate::request;
use crate::request::{ToolSpec, ToolSpecView};
use crate::stream;
use crate::text;
use crate::tools;
use crate::tools::{Tool, ToolArgs, ToolOutput, ToolOutputView, ToolRegistry};
use vstd::prelude::*;
use vstd::string::*;

verus! {

/// Runs a shell command.
pub struct BashTool;

/// Reads a file.
pub struct ReadFileTool;

/// Writes a file.
pub struct WriteFileTool;

impl Tool for BashTool {
    open spec fn tool_name(&self) -> Seq<char> {
        "bash"@
    }

    open spec fn tool_description(&self) -> Seq<char> {
        "bash: Execute a bash command and return stdout/stderr output"@
    }

    fn name(&self) -> (r: &str) {
        "bash"
    }

    fn describe(&self) -> (r: String) {
        "bash: Execute a bash command and return stdout/stderr output".to_owned()
    }
}

impl Tool for ReadFileTool {
    open spec fn tool_name(&self) -> Seq<char> {
        "read_file"@
    }

    open spec fn tool_description(&self) -> Seq<char> {
        "read_file: Read the contents of a file at the given path"@
    }

    fn name(&self) -> (r: &str) {
        "read_file"
    }

    fn describe(&self) -> (r: String) {
        "read_file: Read the contents of a file at the given path".to_owned()
    }
}

impl Tool for WriteFileTool {
    open spec fn tool_name(&self) -> Seq<char> {
        "write_file"@
    }

    open spec fn tool_description(&self) -> Seq<char> {
        "write_file: Write content to a file at the given path"@
    }

    fn name(&self) -> (r: &str) {
        "write_file"
    }

    fn describe(&self) -> (r: String) {
        "write_file: Write content to a file at the given path".to_owned()
    }
}

/// The string argument `key`, or the error that it is missing.
pub open spec fn text_argument(args: JVal, key: Seq<char>) -> Result<Seq<char>, CoreErrorView> {
    match json::opt_str_value(json::member(args, key)) {
        Some(t) => Ok(t),
        None => Err(CoreErrorView::Tool("缺少 '"@ + key + "' 参数"@)),
    }
}

/// The view of a string or an error.
pub open spec fn text_result(r: Result<String, CoreError>) -> Result<Seq<char>, CoreErrorView> {
    match r {
        Ok(t) => Ok(t@),
        Err(e) => Err(e@),
    }
}

fn argument(args: &Json, key: &str) -> (r: Result<String, CoreError>)
    ensures
        text_result(r) == text_argument(args@, key@),
{
    match args.opt_text_member(key) {
        Some(t) => Ok(t),
        None => {
            let mut m = text::cat("缺少 '", key);
            m.append("' 参数");
            Err(CoreError::Tool(m))
        },
    }
}

// ---- bash -----------------------------------------------------------------------------------

/// The command that arguments ask for and the directory to run it in, or the error that the
/// command is missing.
pub open spec fn bash_plan(args: JVal) -> Result<(Seq<char>, Option<Seq<char>>), CoreErrorView> {
    match text_argument(args, "command"@) {
        Ok(command) => Ok((command, json::opt_str_value(json::member(args, "cwd"@)))),
        Err(e) => Err(e),
    }
}

impl BashTool {
    /// The command to run and the directory to run it in.
    pub fn plan(&self, args: &ToolArgs) -> (r: Result<(String, Option<String>), CoreError>)
        ensures
            (match r {
                Ok((command, cwd)) => Ok((command@, text::opt_str(cwd))),
                Err(e) => Err(e@),
            }) == bash_plan(args@.arguments),
    {
        match argument(&args.arguments, "command") {
            Ok(command) => Ok((command, args.arguments.opt_text_member("cwd"))),
            Err(e) => Err(e),
        }
    }
}

/// What a command's output reads like before truncation: standard output, standard error
/// behind a rule where both are there, or the exit code where neither is.
pub open spec fn bash_text(stdout: Seq<char>, stderr: Seq<char>, code: int) -> Seq<char> {
    if stdout.len() == 0 && stderr.len() == 0 {
        "(exit code: "@ + text::decimal_int(code) + ")"@
    } else if stderr.len() == 0 {
        stdout
    } else if stdout.len() == 0 {
        stderr
    } else {
        stdout + "\n--- stderr ---\n"@ + stderr
    }
}

/// Output of more than 50,000 bytes is cut there and marked.
pub open spec fn bash_truncated(t: Seq<char>) -> Seq<char> {
    if text::byte_count(t) > 50_000 {
        text::byte_prefix(t, 50_000) + "\n... (output truncated)"@
    } else {
        t
    }
}

/// The path in a result: where the full output stands, if the result shows only part of it.
pub open spec fn path_if(truncated: bool, full_path: Option<Seq<char>>) -> Option<Seq<char>> {
    if truncated {
        full_path
    } else {
        None
    }
}

/// The result of a command: its output, truncated, with the file of the full output where it is
/// truncated; an error where the command was not successful.
pub open spec fn bash_outcome(
    t: Seq<char>,
    success: bool,
    full_path: Option<Seq<char>>,
) -> ToolOutputView {
    ToolOutputView {
        content: bash_truncated(t),
        full_output_path: path_if(text::byte_count(t) > 50_000, full_path),
        is_error: !success,
    }
}

/// Whether output can be cut: it is short, or byte 50,000 begins a character.
pub open spec fn bash_cuttable(t: Seq<char>) -> bool {
    text::byte_count(t) > 50_000 ==> text::cuttable(t, 50_000)
}

/// The exit code shown where a command has none.
pub open spec fn shown_code(code: Option<i32>) -> int {
    match code {
        Some(c) => c as int,
        None => -1,
    }
}

fn bash_joined(stdout: &str, stderr: &str, code: Option<i32>) -> (r: String)
    ensures
        r@ == bash_text(stdout@, stderr@, shown_code(code)),
{
    let mut content = String::new();
    if !stdout.is_empty() {
        content.append(stdout);
    }
    if !stderr.is_empty() {
        if !content.as_str().is_empty() {
            content.append("\n--- stderr ---\n");
        }
        content.append(stderr);
    }
    if content.as_str().is_empty() {
        let shown: i32 = match code {
            Some(c) => c,
            None => -1,
        };
        content = text::cat("(exit code: ", text::i32_text(shown).as_str());
        content.append(")");
    }
    assert(content@ =~= bash_text(stdout@, stderr@, shown_code(code)));
    content
}

/// The full output of a command where its result will show only part of it: this is to be
/// kept in a file, for `bash_result` to name. `None` where the result shows it all.
pub fn bash_overflow(stdout: &[u8], stderr: &[u8], code: Option<i32>) -> (r: Option<String>)
    ensures
        ({
            let t = bash_text(
                stream::utf8_lossy(stdout@),
                stream::utf8_lossy(stderr@),
                shown_code(code),
            );
            text::opt_str(r) == (if text::byte_count(t) > 50_000 {
                Some(t)
            } else {
                None
            })
        }),
{
    let out = stream::lossy_text(stdout);
    let err = stream::lossy_text(stderr);
    let t = bash_joined(out.as_str(), err.as_str(), code);
    if text::byte_len(t.as_str()) > 50_000 {
        Some(t)
    } else {
        None
    }
}

/// The result of a command that ran: its decoded output, truncated. A truncated result names
/// the file that holds the full output. An unsuccessful command is an error result.
pub fn bash_output(
    stdout: &str,
    stderr: &str,
    code: Option<i32>,
    success: bool,
    full_path: Option<String>,
) -> (r: ToolOutput)
    requires
        bash_cuttable(bash_text(stdout@, stderr@, shown_code(code))),
    ensures
        r@ == bash_outcome(
            bash_text(stdout@, stderr@, shown_code(code)),
            success,
            text::opt_str(full_path),
        ),
{
    let mut content = bash_joined(stdout, stderr, code);
    if text::byte_len(content.as_str()) > 50_000 {
        content = text::cut(content.as_str(), 50_000);
        content.append("\n... (output truncated)");
        ToolOutput { content, full_output_path: full_path, is_error: !success }
    } else {
        ToolOutput { content, full_output_path: None, is_error: !success }
    }
}

/// The result of a command that ran, from its raw output. `full_path` is the file that holds
/// the full output, where one was written. A cancelled run is an error whatever the command
/// did. `None` where the output would be cut inside a character.
pub fn bash_result(
    stdout: &[u8],
    stderr: &[u8],
    code: Option<i32>,
    success: bool,
    cancelled: bool,
    full_path: Option<String>,
) -> (r: Option<Result<ToolOutput, CoreError>>)
    ensures
        ({
            let t = bash_text(
                stream::utf8_lossy(stdout@),
                stream::utf8_lossy(stderr@),
                shown_code(code),
            );
            match r {
                Some(Ok(o)) => !cancelled && bash_cuttable(t) && o@ == bash_outcome(
                    t,
                    success,
                    text::opt_str(full_path),
                ),
                Some(Err(e)) => cancelled && e@ == CoreErrorView::Cancelled,
                None => !cancelled && !bash_cuttable(t),
            }
        }),
{
    if cancelled {
        return Some(Err(CoreError::Cancelled));
    }
    let out = stream::lossy_text(stdout);
    let err = stream::lossy_text(stderr);
    let t = bash_joined(out.as_str(), err.as_str(), code);
    if text::byte_len(t.as_str()) > 50_000 && !text::is_cuttable(t.as_str(), 50_000) {
        return None;
    }
    Some(Ok(bash_output(out.as_str(), err.as_str(), code, success, full_path)))
}

// ---- read_file ----------------------------------------------------------------------------------

/// The file that arguments ask to read, or the error that it is missing or the call cancelled.
pub open spec fn read_plan(args: JVal, cancelled: bool) -> Result<Seq<char>, CoreErrorView> {
    match text_argument(args, "path"@) {
        Ok(p) => if cancelled {
            Err(CoreErrorView::Cancelled)
        } else {
            Ok(p)
        },
        Err(e) => Err(e),
    }
}

impl ReadFileTool {
    /// The file to read.
    pub fn plan(&self, args: &ToolArgs, cancelled: bool) -> (r: Result<String, CoreError>)
        ensures
            text_result(r) == read_plan(args@.arguments, cancelled),
    {
        match argument(&args.arguments, "path") {
            Ok(path) => if cancelled {
                Err(CoreError::Cancelled)
            } else {
                Ok(path)
            },
            Err(e) => Err(e),
        }
    }
}

/// A file of more than 100,000 bytes is cut there, with a note on its size.
pub open spec fn file_text(t: Seq<char>) -> Seq<char> {
    if text::byte_count(t) > 100_000 {
        text::byte_prefix(t, 100_000) + "...\n(文件过长，已截断，原始大小: "@ + text::decimal(
            text::byte_count(t),
        ) + " 字节)"@
    } else {
        t
    }
}

/// The result of a file that was read: its text, shortened, with the file itself where it is.
pub open spec fn read_outcome(t: Seq<char>, full_path: Option<Seq<char>>) -> ToolOutputView {
    ToolOutputView {
        content: file_text(t),
        full_output_path: path_if(text::byte_count(t) > 100_000, full_path),
        is_error: false,
    }
}

/// Whether a file can be cut: it is short, or byte 100,000 begins a character.
pub open spec fn file_cuttable(t: Seq<char>) -> bool {
    text::byte_count(t) > 100_000 ==> text::cuttable(t, 100_000)
}

/// The result of a file that was read. A truncated result names the file that holds it all.
pub fn read_output(content: &str, full_path: Option<String>) -> (r: ToolOutput)
    requires
        file_cuttable(content@),
    ensures
        r@ == read_outcome(content@, text::opt_str(full_path)),
{
    let n = text::byte_len(content);
    if n > 100_000 {
        let mut t = text::cut(content, 100_000);
        t.append("...\n(文件过长，已截断，原始大小: ");
        t.append(text::usize_text(n).as_str());
        t.append(" 字节)");
        ToolOutput { content: t, full_output_path: full_path, is_error: false }
    } else {
        ToolOutput { content: content.to_owned(), full_output_path: None, is_error: false }
    }
}

/// The result of a file that was read; `None` where it would be cut inside a character.
pub fn read_result(content: &str, full_path: Option<String>) -> (r: Option<ToolOutput>)
    ensures
        match r {
            Some(o) => file_cuttable(content@) && o@ == read_outcome(
                content@,
                text::opt_str(full_path),
            ),
            None => !file_cuttable(content@),
        },
{
    if text::byte_len(content) > 100_000 && !text::is_cuttable(content, 100_000) {
        return None;
    }
    Some(read_output(content, full_path))
}

// ---- write_file -----------------------------------------------------------------------------------

/// The file that arguments ask to write and what to write to it, or the error that one of them
/// is missing or the call cancelled.
pub open spec fn write_plan(args: JVal, cancelled: bool) -> Result<
    (Seq<char>, Seq<char>),
    CoreErrorView,
> {
    match (text_argument(args, "path"@), text_argument(args, "content"@)) {
        (Ok(p), Ok(c)) => if cancelled {
            Err(CoreErrorView::Cancelled)
        } else {
            Ok((p, c))
        },
        (Err(e), _) => Err(e),
        (Ok(_), Err(e)) => Err(e),
    }
}

impl WriteFileTool {
    /// The file to write and what to write to it.
    pub fn plan(&self, args: &ToolArgs, cancelled: bool) -> (r: Result<(String, String), CoreError>)
        ensures
            (match r {
                Ok((path, content)) => Ok((path@, content@)),
                Err(e) => Err(e@),
            }) == write_plan(args@.arguments, cancelled),
    {
        match argument(&args.arguments, "path") {
            Ok(path) => match argument(&args.arguments, "content") {
                Ok(content) => if cancelled {
                    Err(CoreError::Cancelled)
                } else {
                    Ok((path, content))
                },
                Err(e) => Err(e),
            },
            Err(e) => Err(e),
        }
    }
}

/// The note on a file that was written.
pub open spec fn written_text(path: Seq<char>, content: Seq<char>) -> Seq<char> {
    "已写入 "@ + text::decimal(text::byte_count(content)) + " 字节到 "@ + path
}

/// The result of a file that was written: the note on it.
pub open spec fn write_outcome(path: Seq<char>, content: Seq<char>) -> ToolOutputView {
    ToolOutputView {
        content: written_text(path, content),
        full_output_path: None,
        is_error: false,
    }
}

/// The result of a file that was written.
pub fn write_output(path: &str, content: &str) -> (r: ToolOutput)
    ensures
        r@ == write_outcome(path@, content@),
{
    let mut t = text::cat("已写入 ", text::usize_text(text::byte_len(content)).as_str());
    t.append(" 字节到 ");
    t.append(path);
    ToolOutput { content: t, full_output_path: None, is_error: false }
}

// ---- failures of the operating system -------------------------------------------------------------

/// What a tool was doing when the operating system failed it.
#[derive(Debug, Clone, Copy, PartialEq, Eq, Structural)]
pub enum Stage {
    Spawn,
    Run,
    Read,
    MakeDir,
    Write,
}

/// The words for a failed stage.
pub open spec fn stage_words(s: Stage) -> Seq<char> {
    match s {
        Stage::Spawn => "spawn_blocking 失败: "@,
        Stage::Run => "执行失败: "@,
        Stage::Read => "读取失败: "@,
        Stage::MakeDir => "创建目录失败: "@,
        Stage::Write => "写入失败: "@,
    }
}

/// The error of a failed stage.
pub fn stage_failed(stage: Stage, reason: &str) -> (r: CoreError)
    ensures
        r@ == CoreErrorView::Tool(stage_words(stage) + reason@),
{
    let words = match stage {
        Stage::Spawn => "spawn_blocking 失败: ",
        Stage::Run => "执行失败: ",
        Stage::Read => "读取失败: ",
        Stage::MakeDir => "创建目录失败: ",
        Stage::Write => "写入失败: ",
    };
    CoreError::Tool(text::cat(words, reason))
}

// ---- registry -----------------------------------------------------------------------------------

/// The registry with the built-in tools.
pub open spec fn with_builtins(m: Map<Seq<char>, Seq<char>>) -> Map<Seq<char>, Seq<char>> {
    m.insert("bash"@, "bash: Execute a bash command and return stdout/stderr output"@).insert(
        "read_file"@,
        "read_file: Read the contents of a file at the given path"@,
    ).insert("write_file"@, "write_file: Write content to a file at the given path"@)
}

/// Registers the built-in tools.
pub fn register_builtins(registry: &mut ToolRegistry)
    ensures
        final(registry)@ == with_builtins(old(registry)@),
{
    registry.register(&BashTool);
    registry.register(&ReadFileTool);
    registry.register(&WriteFileTool);
}

/// A string property of a schema.
pub open spec fn string_property(description: Seq<char>) -> JVal {
    JVal::Object(
        map!["type"@ => JVal::Str("string"@), "description"@ => JVal::Str(description)],
    )
}

/// The argument schema of a tool; an empty object for tools that are not built in.
pub open spec fn schema_of(name: Seq<char>) -> JVal {
    if name == "bash"@ {
        JVal::Object(
            map![
                "type"@ => JVal::Str("object"@),
                "properties"@ => JVal::Object(
                    map![
                        "command"@ => string_property("The bash command to execute"@),
                        "cwd"@ => string_property("Working directory (optional)"@),
                    ],
                ),
                "required"@ => JVal::Array(seq![JVal::Str("command"@)]),
            ],
        )
    } else if name == "read_file"@ {
        JVal::Object(
            map![
                "type"@ => JVal::Str("object"@),
                "properties"@ => JVal::Object(
                    map!["path"@ => string_property("Path to the file to read"@)],
                ),
                "required"@ => JVal::Array(seq![JVal::Str("path"@)]),
            ],
        )
    } else if name == "write_file"@ {
        JVal::Object(
            map![
                "type"@ => JVal::Str("object"@),
                "properties"@ => JVal::Object(
                    map![
                        "path"@ => string_property("Path to the file to write"@),
                        "content"@ => string_property("Content to write to the file"@),
                    ],
                ),
                "required"@ => JVal::Array(seq![JVal::Str("path"@), JVal::Str("content"@)]),
            ],
        )
    } else {
        any_schema()
    }
}

/// The schema that admits any object.
pub open spec fn any_schema() -> JVal {
    JVal::Object(
        map!["type"@ => JVal::Str("object"@), "properties"@ => JVal::Object(Map::empty())],
    )
}

/// The schema that admits any object.
pub fn empty_schema() -> (r: Json)
    ensures
        r@ == any_schema(),
{
    Json::object().with("type", Json::of_str("object")).with("properties", Json::object())
}

fn string_schema(description: &str) -> (r: Json)
    ensures
        r@ == string_property(description@),
{
    Json::object().with("type", Json::of_str("string")).with(
        "description",
        Json::of_str(description),
    )
}

fn name_list(a: &str, b: Option<&str>) -> (r: Json)
    ensures
        r@ == JVal::Array(
            match b {
                Some(b) => seq![JVal::Str(a@), JVal::Str(b@)],
                None => seq![JVal::Str(a@)],
            },
        ),
{
    let mut v: Vec<Json> = Vec::new();
    let x = Json::of_str(a);
    proof {
        json::lemma_items_push(v@, x);
    }
    v.push(x);
    assert(json::items_view(v@) =~= seq![JVal::Str(a@)]);
    if let Some(b) = b {
        let y = Json::of_str(b);
        proof {
            json::lemma_items_push(v@, y);
        }
        v.push(y);
        assert(json::items_view(v@) =~= seq![JVal::Str(a@), JVal::Str(b@)]);
    }
    Json::array(v)
}

fn schema(name: &str) -> (r: Json)
    ensures
        r@ == schema_of(name@),
{
    if text::str_eq(name, "bash") {
        Json::object().with("type", Json::of_str("object")).with(
            "properties",
            Json::object().with("command", string_schema("The bash command to execute")).with(
                "cwd",
                string_schema("Working directory (optional)"),
            ),
        ).with("required", name_list("command", None))
    } else if text::str_eq(name, "read_file") {
        Json::object().with("type", Json::of_str("object")).with(
            "properties",
            Json::object().with("path", string_schema("Path to the file to read")),
        ).with("required", name_list("path", None))
    } else if text::str_eq(name, "write_file") {
        Json::object().with("type", Json::of_str("object")).with(
            "properties",
            Json::object().with("path", string_schema("Path to the file to write")).with(
                "content",
                string_schema("Content to write to the file"),
            ),
        ).with("required", name_list("path", Some("content")))
    } else {
        empty_schema()
    }
}

/// The name in a description `name: what it does`.
pub open spec fn described_name(desc: Seq<char>) -> Seq<char> {
    text::trimmed(text::before_char(desc, ':'))
}

/// What a description `name: what it does` says of the tool.
pub open spec fn described_purpose(desc: Seq<char>) -> Seq<char> {
    match text::behind_char(desc, ':') {
        Some(t) => text::trimmed(t),
        None => Seq::empty(),
    }
}

/// The tool that a description stands for, with its schema.
pub open spec fn described_tool(desc: Seq<char>) -> ToolSpecView {
    ToolSpecView {
        name: described_name(desc),
        description: described_purpose(desc),
        input_schema: schema_of(described_name(desc)),
    }
}

/// Splits a description `name: what it does`.
pub fn split_description(desc: &str) -> (r: (String, String))
    ensures
        r.0@ == described_name(desc@),
        r.1@ == described_purpose(desc@),
{
    let (head, tail) = text::split_once(desc, ':');
    let purpose = match tail {
        Some(t) => text::trim(t.as_str()),
        None => String::new(),
    };
    (text::trim(head.as_str()), purpose)
}

/// The tool that a description stands for.
pub fn tool_spec_of(desc: &str) -> (r: ToolSpec)
    ensures
        r@ == described_tool(desc@),
{
    let (name, description) = split_description(desc);
    let input_schema = schema(name.as_str());
    ToolSpec { name, description, input_schema }
}

/// Whether `c` tells of the tools of a registry, in whatever order.
pub open spec fn tells_of(c: Seq<ToolSpecView>, registry: Map<Seq<char>, Seq<char>>) -> bool {
    exists|s: Seq<(Seq<char>, Seq<char>)>| #[trigger]
        tools::lists(s, registry) && c == s.map_values(
            |p: (Seq<char>, Seq<char>)| described_tool(p.1),
        )
}

/// The tools of a registry as the model is told of them, in no particular order.
pub fn tool_specs_from_registry(registry: &ToolRegistry) -> (r: Vec<ToolSpec>)
    ensures
        tells_of(request::tool_views(r@), registry@),
{
    let descs = registry.describe_all();
    let ghost s = choose|s: Seq<(Seq<char>, Seq<char>)>| #[trigger]
        tools::lists(s, registry@) && text::strs(descs@) == s.map_values(
            |p: (Seq<char>, Seq<char>)| p.1,
        );
    let mut out: Vec<ToolSpec> = Vec::new();
    let mut i: usize = 0;
    while i < descs.len()
        invariant
            i <= descs@.len(),
            out@.len() == i,
            forall|k: int| 0 <= k < i ==> (#[trigger] out@[k])@ == described_tool(descs@[k]@),
        decreases descs@.len() - i,
    {
        out.push(tool_spec_of(descs[i].as_str()));
        i += 1;
    }
    proof {
        assert(text::strs(descs@).len() == s.len());
        assert forall|k: int| 0 <= k < s.len() implies descs@[k]@ == (#[trigger] s[k]).1 by {
            assert(text::strs(descs@)[k] == descs@[k]@);
        }
        assert(request::tool_views(out@) =~= s.map_values(
            |p: (Seq<char>, Seq<char>)| described_tool(p.1),
        ));
    }
    out
}

// ---- laws ---------------------------------------------------------------------------------------

/// Whether a tool can go by a name: it is not empty, holds no colon, and neither begins nor ends
/// in white space.
pub open spec fn proper_name(name: Seq<char>) -> bool {
    &&& name.len() > 0
    &&& !text::white_space(name[0]) && !text::white_space(name.last())
    &&& forall|i: int| 0 <= i < name.len() ==> #[trigger] name[i] != ':'
}

/// Whether every tool of a registry is described as `name: what it does`, under its own name.
pub open spec fn well_described(registry: Map<Seq<char>, Seq<char>>) -> bool {
    forall|k: Seq<char>| #[trigger]
        registry.contains_key(k) ==> proper_name(k) && registry[k].len() > k.len()
            && registry[k].take(k.len() as int) == k && registry[k][k.len() as int] == ':'
}

/// Whether the tools of a list go by the names of a registry, each name once.
pub open spec fn named_as(c: Seq<ToolSpecView>, registry: Map<Seq<char>, Seq<char>>) -> bool {
    &&& forall|i: int| 0 <= i < c.len() ==> registry.contains_key((#[trigger] c[i]).name)
    &&& forall|i: int, j: int|
        0 <= i < j < c.len() ==> (#[trigger] c[i]).name != (#[trigger] c[j]).name
    &&& forall|k: Seq<char>| #[trigger]
        registry.contains_key(k) ==> exists|i: int| 0 <= i < c.len() && (#[trigger] c[i]).name == k
}

/// A description `name: what it does` stands for the tool of that name and purpose, whatever
/// white space stands round the purpose; the tool has the schema of its name.
pub proof fn descriptions_name_their_tools(
    name: Seq<char>,
    a: Seq<char>,
    purpose: Seq<char>,
    b: Seq<char>,
)
    requires
        proper_name(name),
        forall|i: int| 0 <= i < a.len() ==> text::white_space(#[trigger] a[i]),
        forall|i: int| 0 <= i < b.len() ==> text::white_space(#[trigger] b[i]),
        purpose.len() > 0 ==> !text::white_space(purpose[0]) && !text::white_space(purpose.last()),
    ensures
        described_name(name + ":"@ + (a + purpose + b)) == name,
        described_purpose(name + ":"@ + (a + purpose + b)) == purpose,
        described_name(name) == name,
        described_purpose(name).len() == 0,
        described_tool(name + ":"@ + (a + purpose + b)) == (ToolSpecView {
            name,
            description: purpose,
            input_schema: schema_of(name),
        }),
{
    reveal_strlit(":");
    assert(":"@ =~= seq![':']);
    text::splitting_takes_the_first(name, ':', a + purpose + b);
    text::trimming_takes_the_middle(a, purpose, b);
    let none = Seq::<char>::empty();
    text::trimming_takes_the_middle(none, name, none);
    assert(none + name + none =~= name);
}

proof fn lemma_name_is_read(name: Seq<char>, desc: Seq<char>)
    requires
        proper_name(name),
        desc.len() > name.len(),
        desc.take(name.len() as int) == name,
        desc[name.len() as int] == ':',
    ensures
        described_name(desc) == name,
{
    let rest = desc.skip(name.len() as int + 1);
    assert(desc =~= name + seq![':'] + rest);
    text::splitting_takes_the_first(name, ':', rest);
    let none = Seq::<char>::empty();
    text::trimming_takes_the_middle(none, name, none);
    assert(none + name + none =~= name);
}

/// A list with one tool for each description of a registry names each of its tools once.
pub proof fn listed_names(
    c: Seq<ToolSpecView>,
    s: Seq<(Seq<char>, Seq<char>)>,
    registry: Map<Seq<char>, Seq<char>>,
)
    requires
        well_described(registry),
        tools::lists(s, registry),
        c.len() == s.len(),
        forall|i: int| 0 <= i < s.len() ==> (#[trigger] c[i]).name == described_name(s[i].1),
    ensures
        named_as(c, registry),
        forall|i: int| 0 <= i < s.len() ==> (#[trigger] c[i]).name == s[i].0,
{
    assert forall|i: int| 0 <= i < s.len() implies (#[trigger] c[i]).name == s[i].0 by {
        assert(registry.contains_key(s[i].0));
        lemma_name_is_read(s[i].0, s[i].1);
    }
    assert forall|k: Seq<char>| #[trigger] registry.contains_key(k) implies exists|i: int|
        0 <= i < c.len() && (#[trigger] c[i]).name == k by {
        let i = choose|i: int| 0 <= i < s.len() && (#[trigger] s[i]).0 == k;
        assert(c[i].name == k);
    }
}

/// The model is told of every tool under the name it is registered by, once, with what its
/// description says of it and the schema of its name.
pub proof fn tools_are_told_by_name(
    c: Seq<ToolSpecView>,
    registry: Map<Seq<char>, Seq<char>>,
    name: Seq<char>,
    purpose: Seq<char>,
)
    requires
        well_described(registry),
        tells_of(c, registry),
        registry.contains_key(name),
        registry[name] == name + ": "@ + purpose,
        purpose.len() > 0 ==> !text::white_space(purpose[0]) && !text::white_space(purpose.last()),
    ensures
        named_as(c, registry),
        exists|i: int|
            0 <= i < c.len() && #[trigger] c[i] == (ToolSpecView {
                name,
                description: purpose,
                input_schema: schema_of(name),
            }),
{
    let s = choose|s: Seq<(Seq<char>, Seq<char>)>| #[trigger]
        tools::lists(s, registry) && c == s.map_values(
            |p: (Seq<char>, Seq<char>)| described_tool(p.1),
        );
    listed_names(c, s, registry);
    lemma_spaced(name, purpose);
    let i = choose|i: int| 0 <= i < s.len() && (#[trigger] s[i]).0 == name;
    assert(c[i] == described_tool(s[i].1));
}

/// A description `name: what it does` with one blank behind the colon.
pub proof fn lemma_spaced(name: Seq<char>, purpose: Seq<char>)
    requires
        proper_name(name),
        purpose.len() > 0 ==> !text::white_space(purpose[0]) && !text::white_space(purpose.last()),
    ensures
        described_name(name + ": "@ + purpose) == name,
        described_purpose(name + ": "@ + purpose) == purpose,
{
    reveal_strlit(": ");
    reveal_strlit(":");
    let none = Seq::<char>::empty();
    let blank = seq![' '];
    descriptions_name_their_tools(name, blank, purpose, none);
    assert(name + ":"@ + (blank + purpose + none) =~= name + ": "@ + purpose);
}

proof fn lemma_tool_names()
    ensures
        "bash"@ != "read_file"@,
        "bash"@ != "write_file"@,
        "read_file"@ != "write_file"@,
{
    reveal_strlit("bash");
    reveal_strlit("read_file");
    reveal_strlit("write_file");
    assert("bash"@.len() != "read_file"@.len());
    assert("bash"@.len() != "write_file"@.len());
    assert("read_file"@.len() != "write_file"@.len());
}


/// The built-in tools are registered under their names, described as `name: what it does`, and
/// no other tool is touched.
pub proof fn builtins_are_well_described(m: Map<Seq<char>, Seq<char>>, k: Seq<char>)
    ensures
        with_builtins(m).contains_key("bash"@),
        with_builtins(m).contains_key("read_file"@),
        with_builtins(m).contains_key("write_file"@),
        with_builtins(m)["bash"@] == "bash"@ + ": "@
            + "Execute a bash command and return stdout/stderr output"@,
        with_builtins(m)["read_file"@] == "read_file"@ + ": "@
            + "Read the contents of a file at the given path"@,
        with_builtins(m)["write_file"@] == "write_file"@ + ": "@
            + "Write content to a file at the given path"@,
        k != "bash"@ && k != "read_file"@ && k != "write_file"@ ==> with_builtins(m).contains_key(k)
            == m.contains_key(k) && with_builtins(m)[k] == m[k],
        well_described(m) ==> well_described(with_builtins(m)),
{
    lemma_tool_names();
    reveal_strlit("bash");
    reveal_strlit("read_file");
    reveal_strlit("write_file");
    reveal_strlit(": ");
    reveal_strlit("Execute a bash command and return stdout/stderr output");
    reveal_strlit("Read the contents of a file at the given path");
    reveal_strlit("Write content to a file at the given path");
    reveal_strlit("bash: Execute a bash command and return stdout/stderr output");
    reveal_strlit("read_file: Read the contents of a file at the given path");
    reveal_strlit("write_file: Write content to a file at the given path");
    assert("bash: Execute a bash command and return stdout/stderr output"@ =~= "bash"@ + ": "@
        + "Execute a bash command and return stdout/stderr output"@);
    assert("read_file: Read the contents of a file at the given path"@ =~= "read_file"@ + ": "@
        + "Read the contents of a file at the given path"@);
    assert("write_file: Write content to a file at the given path"@ =~= "write_file"@ + ": "@
        + "Write content to a file at the given path"@);
    lemma_prefix_is_name("bash"@, "Execute a bash command and return stdout/stderr output"@);
    lemma_prefix_is_name("read_file"@, "Read the contents of a file at the given path"@);
    lemma_prefix_is_name("write_file"@, "Write content to a file at the given path"@);
    assert(proper_name("bash"@));
    assert(proper_name("read_file"@));
    assert(proper_name("write_file"@));
}

proof fn lemma_prefix_is_name(name: Seq<char>, purpose: Seq<char>)
    ensures
        ({
            let d = name + ": "@ + purpose;
            d.len() > name.len() && d.take(name.len() as int) == name && d[name.len() as int] == ':'
        }),
{
    reveal_strlit(": ");
    assert((name + ": "@ + purpose).take(name.len() as int) =~= name);
}

/// The arguments that a schema asks for.
pub open spec fn required_of(schema: JVal) -> Option<JVal> {
    json::member(schema, "required"@)
}

/// What a schema says of an argument.
pub open spec fn property_of(schema: JVal, argument: Seq<char>) -> Option<JVal> {
    json::opt_member(json::member(schema, "properties"@), argument)
}

/// Whether a schema takes a string under a name, described in the given words.
pub open spec fn takes_text(schema: JVal, argument: Seq<char>, words: Seq<char>) -> bool {
    &&& json::opt_str_value(json::opt_member(property_of(schema, argument), "type"@)) == Some(
        "string"@,
    )
    &&& json::opt_str_value(json::opt_member(property_of(schema, argument), "description"@))
        == Some(words)
}

proof fn lemma_schema_words()
    ensures
        "type"@ != "properties"@,
        "type"@ != "required"@,
        "properties"@ != "required"@,
        "type"@ != "description"@,
        "command"@ != "cwd"@,
        "path"@ != "content"@,
{
    reveal_strlit("type");
    reveal_strlit("properties");
    reveal_strlit("required");
    reveal_strlit("description");
    reveal_strlit("command");
    reveal_strlit("cwd");
    reveal_strlit("path");
    reveal_strlit("content");
    assert("type"@.len() != "properties"@.len());
    assert("type"@.len() != "required"@.len());
    assert("properties"@.len() != "required"@.len());
    assert("type"@.len() != "description"@.len());
    assert("command"@.len() != "cwd"@.len());
    assert("path"@.len() != "content"@.len());
}


/// The schemas name the arguments that the tools read: each tool's arguments are strings, those
/// it cannot do without are required, and there are no others.
pub proof fn schemas_name_the_arguments(name: Seq<char>, argument: Seq<char>)
    ensures
        json::opt_str_value(json::member(schema_of(name), "type"@)) == Some("object"@),
        takes_text(schema_of("bash"@), "command"@, "The bash command to execute"@),
        takes_text(schema_of("bash"@), "cwd"@, "Working directory (optional)"@),
        required_of(schema_of("bash"@)) == Some(JVal::Array(seq![JVal::Str("command"@)])),
        argument != "command"@ && argument != "cwd"@ ==> property_of(
            schema_of("bash"@),
            argument,
        ) is None,
        takes_text(schema_of("read_file"@), "path"@, "Path to the file to read"@),
        required_of(schema_of("read_file"@)) == Some(JVal::Array(seq![JVal::Str("path"@)])),
        argument != "path"@ ==> property_of(schema_of("read_file"@), argument) is None,
        takes_text(schema_of("write_file"@), "path"@, "Path to the file to write"@),
        takes_text(schema_of("write_file"@), "content"@, "Content to write to the file"@),
        required_of(schema_of("write_file"@)) == Some(
            JVal::Array(seq![JVal::Str("path"@), JVal::Str("content"@)]),
        ),
        argument != "path"@ && argument != "content"@ ==> property_of(
            schema_of("write_file"@),
            argument,
        ) is None,
        name != "bash"@ && name != "read_file"@ && name != "write_file"@ ==> schema_of(name)
            == any_schema(),
        json::opt_str_value(json::member(any_schema(), "type"@)) == Some("object"@),
        required_of(any_schema()) is None,
        property_of(any_schema(), argument) is None,
        json::member(any_schema(), "properties"@) is Some,
{
    lemma_tool_names();
    lemma_schema_words();
}

/// An argument is read where it is a string; any other value, and none, is an error that names
/// the argument.
pub proof fn arguments_are_read(m: Map<Seq<char>, JVal>, key: Seq<char>, t: Seq<char>, v: JVal)
    ensures
        text_argument(JVal::Object(m.insert(key, JVal::Str(t))), key) == Ok::<
            Seq<char>,
            CoreErrorView,
        >(t),
        !(v is Str) ==> text_argument(JVal::Object(m.insert(key, v)), key) == Err::<
            Seq<char>,
            CoreErrorView,
        >(CoreErrorView::Tool("缺少 '"@ + key + "' 参数"@)),
        !m.contains_key(key) ==> text_argument(JVal::Object(m), key) == Err::<
            Seq<char>,
            CoreErrorView,
        >(CoreErrorView::Tool("缺少 '"@ + key + "' 参数"@)),
        !(v is Object) ==> text_argument(v, key) == Err::<Seq<char>, CoreErrorView>(
            CoreErrorView::Tool("缺少 '"@ + key + "' 参数"@),
        ),
{
}

/// All that a command printed stands in its result: standard output first, standard error
/// last, a rule between them where both are there. A silent command shows its exit code.
pub proof fn output_is_shown_whole(stdout: Seq<char>, stderr: Seq<char>, code: i32)
    ensures
        stdout.len() > 0 ==> text::has_prefix(bash_text(stdout, stderr, code as int), stdout),
        stderr.len() > 0 ==> text::has_suffix(bash_text(stdout, stderr, code as int), stderr),
        stdout.len() > 0 && stderr.len() == 0 ==> bash_text(stdout, stderr, code as int) == stdout,
        stdout.len() == 0 && stderr.len() > 0 ==> bash_text(stdout, stderr, code as int) == stderr,
        stdout.len() > 0 && stderr.len() > 0 ==> bash_text(stdout, stderr, code as int) == stdout
            + "\n--- stderr ---\n"@ + stderr,
        stdout.len() == 0 && stderr.len() == 0 ==> bash_text(
            stdout,
            stderr,
            shown_code(Some(code)),
        ) == "(exit code: "@ + text::decimal_int(code as int) + ")"@,
        shown_code(None) == -1,
{
    let t = bash_text(stdout, stderr, code as int);
    assert(stdout.len() > 0 ==> t.take(stdout.len() as int) =~= stdout);
    assert(stderr.len() > 0 ==> t.skip(t.len() - stderr.len()) =~= stderr);
}

/// Short output is shown as it is, and long output by its beginning of 50,000 bytes with a mark
/// behind it; only then does the result name a file.
pub proof fn long_output_is_cut(p: Seq<char>, rest: Seq<char>, path: Option<Seq<char>>)
    ensures
        text::byte_count(p) <= 50_000 ==> bash_truncated(p) == p,
        text::byte_count(p) == 50_000 && text::byte_count(rest) > 0 ==> bash_truncated(p + rest) == p
            + "\n... (output truncated)"@,
        text::byte_count(p) < 50_000 ==> bash_cuttable(p),
        path_if(true, path) == path,
        path_if(false, path) is None,
{
    text::bytes_add_up(p, rest, ' ');
}

/// A short file is shown as it is, and a long one by its beginning of 100,000 bytes with a note
/// of its whole size behind it.
pub proof fn long_files_are_cut(p: Seq<char>, rest: Seq<char>)
    ensures
        text::byte_count(p) <= 100_000 ==> file_text(p) == p,
        text::byte_count(p) == 100_000 && text::byte_count(rest) > 0 ==> file_text(p + rest) == p
            + "...\n(文件过长，已截断，原始大小: "@ + text::decimal(
            100_000 + text::byte_count(rest),
        ) + " 字节)"@,
{
    text::bytes_add_up(p, rest, ' ');
}

/// The note on a written file gives the number of bytes written and the path.
pub proof fn writes_are_noted(path: Seq<char>, content: Seq<char>)
    ensures
        text::has_prefix(
            written_text(path, content),
            "已写入 "@ + text::decimal(text::byte_count(content)),
        ),
        text::has_suffix(written_text(path, content), " 字节到 "@ + path),
        written_text(path, content).len() == ("已写入 "@ + text::decimal(
            text::byte_count(content),
        )).len() + (" 字节到 "@ + path).len(),
{
    let a = "已写入 "@ + text::decimal(text::byte_count(content));
    let b = " 字节到 "@ + path;
    let t = written_text(path, content);
    assert(t =~= a + b);
    assert(t.take(a.len() as int) =~= a);
    assert(t.skip(t.len() - b.len()) =~= b);
}

/// Every stage that fails has its own words.
pub proof fn failures_say_their_stage(s: Stage)
    ensures
        stage_words(Stage::Spawn) == "spawn_blocking 失败: "@,
        stage_words(Stage::Run) == "执行失败: "@,
        stage_words(Stage::Read) == "读取失败: "@,
        stage_words(Stage::MakeDir) == "创建目录失败: "@,
        stage_words(Stage::Write) == "写入失败: "@,
{
}

/// Long output, and a long file, can be shown where the cut falls between two characters; short
/// ones always can.
pub proof fn cuts_spare_characters(t: Seq<char>)
    ensures
        text::byte_count(t) <= 50_000 ==> bash_cuttable(t),
        text::byte_count(t) > 50_000 ==> (bash_cuttable(t) <==> exists|p: Seq<char>, r: Seq<char>|
            t == #[trigger] (p + r) && text::byte_count(p) == 50_000),
        text::byte_count(t) <= 100_000 ==> file_cuttable(t),
        text::byte_count(t) > 100_000 ==> (file_cuttable(t) <==> exists|p: Seq<char>, r: Seq<char>|
            t == #[trigger] (p + r) && text::byte_count(p) == 100_000),
{
    text::cuts_fall_between_characters(t, 50_000);
    text::cuts_fall_between_characters(t, 100_000);
}

/// The tools do what their arguments ask for: a command with its directory, a path, a path with
/// its content. An argument that is missing is named, the first one first; a cancelled call does
/// nothing.
pub proof fn arguments_become_plans(
    m: Map<Seq<char>, JVal>,
    a: Seq<char>,
    b: Seq<char>,
)
    ensures
        bash_plan(
            JVal::Object(m.insert("command"@, JVal::Str(a)).insert("cwd"@, JVal::Str(b))),
        ) == Ok::<(Seq<char>, Option<Seq<char>>), CoreErrorView>((a, Some(b))),
        !m.contains_key("cwd"@) ==> bash_plan(
            JVal::Object(m.insert("command"@, JVal::Str(a))),
        ) == Ok::<(Seq<char>, Option<Seq<char>>), CoreErrorView>((a, None)),
        !m.contains_key("command"@) ==> bash_plan(JVal::Object(m)) == Err::<
            (Seq<char>, Option<Seq<char>>),
            CoreErrorView,
        >(CoreErrorView::Tool("缺少 '"@ + "command"@ + "' 参数"@)),
        read_plan(JVal::Object(m.insert("path"@, JVal::Str(a))), false) == Ok::<
            Seq<char>,
            CoreErrorView,
        >(a),
        read_plan(JVal::Object(m.insert("path"@, JVal::Str(a))), true) == Err::<
            Seq<char>,
            CoreErrorView,
        >(CoreErrorView::Cancelled),
        !m.contains_key("path"@) ==> read_plan(JVal::Object(m), false) == Err::<
            Seq<char>,
            CoreErrorView,
        >(CoreErrorView::Tool("缺少 '"@ + "path"@ + "' 参数"@)),
        ({
            let both = JVal::Object(
                m.insert("path"@, JVal::Str(a)).insert("content"@, JVal::Str(b)),
            );
            &&& write_plan(both, false) == Ok::<(Seq<char>, Seq<char>), CoreErrorView>((a, b))
            &&& write_plan(both, true) == Err::<(Seq<char>, Seq<char>), CoreErrorView>(
                CoreErrorView::Cancelled,
            )
        }),
        !m.contains_key("path"@) ==> write_plan(JVal::Object(m), false) == Err::<
            (Seq<char>, Seq<char>),
            CoreErrorView,
        >(CoreErrorView::Tool("缺少 '"@ + "path"@ + "' 参数"@)),
        !m.contains_key("content"@) ==> write_plan(
            JVal::Object(m.insert("path"@, JVal::Str(a))),
            false,
        ) == Err::<(Seq<char>, Seq<char>), CoreErrorView>(
            CoreErrorView::Tool("缺少 '"@ + "content"@ + "' 参数"@),
        ),
{
    lemma_schema_words();
}

/// A result is an error exactly where the command failed. It names the file of the full output
/// where that is not all shown, and only there.
pub proof fn outcomes_tell_how_it_went(
    t: Seq<char>,
    success: bool,
    path: Option<Seq<char>>,
    file: Seq<char>,
)
    ensures
        bash_outcome(t, success, path).is_error == !success,
        text::byte_count(t) <= 50_000 ==> bash_outcome(t, success, path).content == t
            && bash_outcome(t, success, path).full_output_path is None,
        text::byte_count(t) > 50_000 ==> bash_outcome(t, success, path).full_output_path == path,
        bash_outcome(t, success, path).content == bash_truncated(t),
        !read_outcome(t, path).is_error,
        text::byte_count(t) <= 100_000 ==> read_outcome(t, path).content == t && read_outcome(
            t,
            path,
        ).full_output_path is None,
        text::byte_count(t) > 100_000 ==> read_outcome(t, path).full_output_path == path,
        read_outcome(t, path).content == file_text(t),
        !write_outcome(file, t).is_error,
        write_outcome(file, t).full_output_path is None,
        write_outcome(file, t).content == written_text(file, t),
{
}

} // verus!
