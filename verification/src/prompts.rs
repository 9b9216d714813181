//! Prompt bundles: the system instructions, tools, tool-use protocol and
//! examples that a provider receives, kept as editable JSON files under
//! `~/.lean/prompts/`, checked before use and rendered into one system prompt.
use vstd::prelude::*;
use vstd::string::*;
use crate::json::{JsonValue, json_document, parse_json_document};
use crate::paths::{file_name, join, join_path, lemma_join_within, path_starts_with};
use crate::text::{
    char_is_ascii_alphanumeric, concat_str, contains_text, is_ascii_alphanumeric, is_blank,
    is_white_space, str_eq, str_is_blank,
};

verus! {

pub const DEFAULT_PROMPT_NAME: &'static str = "default";

pub const PROMPT_SCHEMA_VERSION: u32 = 1;

#[derive(Debug, Clone, PartialEq)]
pub struct PromptBundle {
    pub schema_version: u32,
    pub id: String,
    pub title: String,
    pub system: Vec<String>,
    pub tools: Vec<PromptTool>,
    pub tool_use_protocol: ToolUseProtocol,
    pub examples: Vec<PromptExample>,
}

/// A tool offered to the model. `input_schema` holds the tool's JSON input
/// schema as compact JSON text.
#[derive(Debug, Clone, PartialEq)]
pub struct PromptTool {
    pub name: String,
    pub description: String,
    pub input_schema: String,
    pub result: String,
}

#[derive(Debug, Clone, PartialEq, Eq)]
pub struct ToolUseProtocol {
    pub format: String,
    pub instructions: Vec<String>,
}

#[derive(Debug, Clone, PartialEq, Eq)]
pub struct PromptExample {
    pub name: String,
    pub user: String,
    pub assistant: String,
    pub tool_result: String,
    pub assistant_after_tool_result: String,
}

#[derive(Debug, Clone, PartialEq, Eq)]
pub struct PromptStore {
    prompts_dir: String,
}

#[derive(Debug, Clone, PartialEq, Eq)]
pub enum PromptError {
    HomeUnavailable,
    InvalidPromptName { name: String },
    CreatePromptDir { path: String, message: String },
    WriteDefaultPrompt { path: String, message: String },
    ReadPrompt { path: String, message: String },
    ParsePrompt { path: String, message: String },
    Validation { path: String, reason: String },
}

pub open spec fn texts(v: Seq<String>) -> Seq<Seq<char>> {
    v.map_values(|s: String| s@)
}

/// One `- item` line per item.
pub open spec fn bullet_lines(items: Seq<Seq<char>>) -> Seq<char>
    decreases items.len(),
{
    if items.len() == 0 {
        Seq::empty()
    } else {
        bullet_lines(items.drop_last()) + "- "@ + items.last() + "\n"@
    }
}

/// The lines that present one tool.
pub open spec fn tool_lines(t: PromptTool) -> Seq<char> {
    "- "@ + t.name@ + ": "@ + t.description@ + "\n"@ + "  Input schema: "@ + t.input_schema@ + "\n"@
        + "  Result: "@ + t.result@ + "\n"@
}

pub open spec fn tools_lines(ts: Seq<PromptTool>) -> Seq<char>
    decreases ts.len(),
{
    if ts.len() == 0 {
        Seq::empty()
    } else {
        tools_lines(ts.drop_last()) + tool_lines(ts.last())
    }
}

/// The lines that present one example.
pub open spec fn example_lines(e: PromptExample) -> Seq<char> {
    "Example: "@ + e.name@ + "\n"@ + "User: "@ + e.user@ + "\n"@ + "Assistant: "@ + e.assistant@
        + "\n"@ + "Tool result: "@ + e.tool_result@ + "\n"@ + "Assistant after tool result: "@
        + e.assistant_after_tool_result@ + "\n"@
}

pub open spec fn examples_lines(es: Seq<PromptExample>) -> Seq<char>
    decreases es.len(),
{
    if es.len() == 0 {
        Seq::empty()
    } else {
        examples_lines(es.drop_last()) + example_lines(es.last())
    }
}

/// The system prompt of a bundle: its title, then the system instructions,
/// the tools, the tool-use protocol and the examples, each under its heading
/// and in the bundle's order.
pub open spec fn rendered_prompt(b: PromptBundle) -> Seq<char> {
    b.title@ + "\n\n"@ + "System Instructions\n"@ + bullet_lines(texts(b.system@))
        + "\nAvailable Tools\n"@ + tools_lines(b.tools@) + "\nTool Use Protocol\n"@ + "Format: "@
        + b.tool_use_protocol.format@ + "\n"@ + bullet_lines(texts(b.tool_use_protocol.instructions@))
        + "\nExamples\n"@ + examples_lines(b.examples@)
}

fn push_str(out: &mut String, s: &str)
    ensures
        final(out)@ == old(out)@ + s@,
{
    out.append(s);
}

fn push_bullets(out: &mut String, items: &Vec<String>)
    ensures
        final(out)@ == old(out)@ + bullet_lines(texts(items@)),
{
    let ghost start = out@;
    let n = items.len();
    let mut i: usize = 0;
    proof {
        assert(texts(items@).take(0) =~= Seq::<Seq<char>>::empty());
    }
    while i < n
        invariant
            n == items@.len(),
            i <= n,
            out@ == start + bullet_lines(texts(items@).take(i as int)),
        decreases n - i,
    {
        proof {
            assert(texts(items@).take(i + 1).drop_last() =~= texts(items@).take(i as int));
        }
        push_str(out, "- ");
        push_str(out, items[i].as_str());
        push_str(out, "\n");
        proof {
            assert(out@ =~= start + bullet_lines(texts(items@).take(i + 1)));
        }
        i = i + 1;
    }
    proof {
        assert(texts(items@).take(n as int) =~= texts(items@));
    }
}

fn push_tools(out: &mut String, tools: &Vec<PromptTool>)
    ensures
        final(out)@ == old(out)@ + tools_lines(tools@),
{
    let ghost start = out@;
    let n = tools.len();
    let mut i: usize = 0;
    proof {
        assert(tools@.take(0) =~= Seq::<PromptTool>::empty());
    }
    while i < n
        invariant
            n == tools@.len(),
            i <= n,
            out@ == start + tools_lines(tools@.take(i as int)),
        decreases n - i,
    {
        proof {
            assert(tools@.take(i + 1).drop_last() =~= tools@.take(i as int));
        }
        let t = &tools[i];
        push_str(out, "- ");
        push_str(out, t.name.as_str());
        push_str(out, ": ");
        push_str(out, t.description.as_str());
        push_str(out, "\n");
        push_str(out, "  Input schema: ");
        push_str(out, t.input_schema.as_str());
        push_str(out, "\n");
        push_str(out, "  Result: ");
        push_str(out, t.result.as_str());
        push_str(out, "\n");
        proof {
            assert(out@ =~= start + tools_lines(tools@.take(i + 1)));
        }
        i = i + 1;
    }
    proof {
        assert(tools@.take(n as int) =~= tools@);
    }
}

fn push_examples(out: &mut String, examples: &Vec<PromptExample>)
    ensures
        final(out)@ == old(out)@ + examples_lines(examples@),
{
    let ghost start = out@;
    let n = examples.len();
    let mut i: usize = 0;
    proof {
        assert(examples@.take(0) =~= Seq::<PromptExample>::empty());
    }
    while i < n
        invariant
            n == examples@.len(),
            i <= n,
            out@ == start + examples_lines(examples@.take(i as int)),
        decreases n - i,
    {
        proof {
            assert(examples@.take(i + 1).drop_last() =~= examples@.take(i as int));
        }
        let e = &examples[i];
        push_str(out, "Example: ");
        push_str(out, e.name.as_str());
        push_str(out, "\n");
        push_str(out, "User: ");
        push_str(out, e.user.as_str());
        push_str(out, "\n");
        push_str(out, "Assistant: ");
        push_str(out, e.assistant.as_str());
        push_str(out, "\n");
        push_str(out, "Tool result: ");
        push_str(out, e.tool_result.as_str());
        push_str(out, "\n");
        push_str(out, "Assistant after tool result: ");
        push_str(out, e.assistant_after_tool_result.as_str());
        push_str(out, "\n");
        proof {
            assert(out@ =~= start + examples_lines(examples@.take(i + 1)));
        }
        i = i + 1;
    }
    proof {
        assert(examples@.take(n as int) =~= examples@);
    }
}

impl PromptBundle {
    /// Renders the bundle into one provider-neutral system prompt.
    pub fn render_system_prompt(&self) -> (output: String)
        ensures
            output@ == rendered_prompt(*self),
    {
        let mut output = String::new();
        push_str(&mut output, self.title.as_str());
        push_str(&mut output, "\n\n");
        push_str(&mut output, "System Instructions\n");
        push_bullets(&mut output, &self.system);
        push_str(&mut output, "\nAvailable Tools\n");
        push_tools(&mut output, &self.tools);
        push_str(&mut output, "\nTool Use Protocol\n");
        push_str(&mut output, "Format: ");
        push_str(&mut output, self.tool_use_protocol.format.as_str());
        push_str(&mut output, "\n");
        push_bullets(&mut output, &self.tool_use_protocol.instructions);
        push_str(&mut output, "\nExamples\n");
        push_examples(&mut output, &self.examples);
        proof {
            assert(output@ =~= rendered_prompt(*self));
        }
        output
    }
}

/// The characters a tool name may hold.
pub open spec fn tool_name_char(c: char) -> bool {
    is_ascii_alphanumeric(c) || c == '_' || c == '-'
}

/// Why a required text is refused, if it is blank.
pub open spec fn blank_failure(field: Seq<char>, value: Seq<char>) -> Option<Seq<char>> {
    if is_blank(value) {
        Some(field + " must not be empty"@)
    } else {
        None
    }
}

/// Why a required list of texts is refused: it is empty, or one entry is blank.
pub open spec fn list_failure(field: Seq<char>, values: Seq<Seq<char>>) -> Option<Seq<char>> {
    if values.len() == 0 {
        Some(field + " must not be empty"@)
    } else if exists|i: int| 0 <= i < values.len() && is_blank(#[trigger] values[i]) {
        Some(field + " entries must not be empty"@)
    } else {
        None
    }
}

/// Why one tool is refused, given whether its schema is a JSON object and the
/// tools before it.
pub open spec fn tool_failure(t: PromptTool, schema_is_object: bool, earlier: Seq<PromptTool>) -> Option<
    Seq<char>,
> {
    if is_blank(t.name@) {
        Some("tools.name must not be empty"@)
    } else if !(forall|i: int| 0 <= i < t.name@.len() ==> tool_name_char(#[trigger] t.name@[i])) {
        Some("tools.name contains unsupported characters"@)
    } else if is_blank(t.description@) {
        Some("tools.description must not be empty"@)
    } else if is_blank(t.result@) {
        Some("tools.result must not be empty"@)
    } else if !schema_is_object {
        Some("tools.input_schema must be a JSON object"@)
    } else if exists|j: int| 0 <= j < earlier.len() && (#[trigger] earlier[j]).name@ == t.name@ {
        Some("tools.name must be unique"@)
    } else {
        None
    }
}

/// The first refused tool's reason, tools taken in order.
pub open spec fn tools_failure(ts: Seq<PromptTool>, shapes: Seq<bool>) -> Option<Seq<char>>
    decreases ts.len(),
{
    if ts.len() == 0 {
        None
    } else {
        match tools_failure(ts.drop_last(), shapes) {
            Some(r) => Some(r),
            None => tool_failure(ts.last(), shapes[ts.len() - 1], ts.drop_last()),
        }
    }
}

/// Why one example is refused: its first blank field.
pub open spec fn example_failure(e: PromptExample) -> Option<Seq<char>> {
    if is_blank(e.name@) {
        Some("examples.name must not be empty"@)
    } else if is_blank(e.user@) {
        Some("examples.user must not be empty"@)
    } else if is_blank(e.assistant@) {
        Some("examples.assistant must not be empty"@)
    } else if is_blank(e.tool_result@) {
        Some("examples.tool_result must not be empty"@)
    } else if is_blank(e.assistant_after_tool_result@) {
        Some("examples.assistant_after_tool_result must not be empty"@)
    } else {
        None
    }
}

pub open spec fn examples_failure(es: Seq<PromptExample>) -> Option<Seq<char>>
    decreases es.len(),
{
    if es.len() == 0 {
        None
    } else {
        match examples_failure(es.drop_last()) {
            Some(r) => Some(r),
            None => example_failure(es.last()),
        }
    }
}

/// The first reason a bundle is refused, checks taken in order, given for
/// each tool whether its input schema is a JSON object.
pub open spec fn bundle_failure(b: PromptBundle, shapes: Seq<bool>) -> Option<Seq<char>> {
    if b.schema_version != 1 {
        Some("schema_version must be 1"@)
    } else if blank_failure("id"@, b.id@) is Some {
        blank_failure("id"@, b.id@)
    } else if blank_failure("title"@, b.title@) is Some {
        blank_failure("title"@, b.title@)
    } else if list_failure("system"@, texts(b.system@)) is Some {
        list_failure("system"@, texts(b.system@))
    } else if list_failure(
        "tool_use_protocol.instructions"@,
        texts(b.tool_use_protocol.instructions@),
    ) is Some {
        list_failure("tool_use_protocol.instructions"@, texts(b.tool_use_protocol.instructions@))
    } else if blank_failure("tool_use_protocol.format"@, b.tool_use_protocol.format@) is Some {
        blank_failure("tool_use_protocol.format"@, b.tool_use_protocol.format@)
    } else if b.tools@.len() == 0 {
        Some("tools must not be empty"@)
    } else if tools_failure(b.tools@, shapes) is Some {
        tools_failure(b.tools@, shapes)
    } else if b.examples@.len() == 0 {
        Some("examples must not be empty"@)
    } else {
        examples_failure(b.examples@)
    }
}

/// Whether a tool's input schema text is a JSON object.
pub open spec fn schema_is_object(t: PromptTool) -> bool {
    json_document(t.input_schema@) matches Some(JsonValue::Object(_))
}

/// For each tool, whether its input schema text is a JSON object.
pub open spec fn schema_shapes(ts: Seq<PromptTool>) -> Seq<bool> {
    ts.map_values(|t: PromptTool| schema_is_object(t))
}

/// Whether a validation result is the refusal for `reason` (or success for none).
pub open spec fn validation_matches(r: Result<(), PromptError>, path: Seq<char>, reason: Option<Seq<char>>) -> bool {
    match reason {
        None => r is Ok,
        Some(why) => r matches Err(PromptError::Validation { path: p, reason: w }) && p@ == path
            && w@ == why,
    }
}

fn validation_error(path: &str, reason: String) -> (r: Result<(), PromptError>)
    ensures
        r matches Err(PromptError::Validation { path: p, reason: w }) && p@ == path@ && w@ == reason@,
{
    Err(PromptError::Validation { path: path.to_owned(), reason })
}

fn check_nonempty(field: &str, value: &str) -> (r: Option<String>)
    ensures
        match r {
            Some(why) => blank_failure(field@, value@) == Some(why@),
            None => blank_failure(field@, value@) is None,
        },
{
    if str_is_blank(value) {
        Some(concat_str(field, " must not be empty"))
    } else {
        None
    }
}

fn check_nonempty_list(field: &str, values: &Vec<String>) -> (r: Option<String>)
    ensures
        match r {
            Some(why) => list_failure(field@, texts(values@)) == Some(why@),
            None => list_failure(field@, texts(values@)) is None,
        },
{
    if values.len() == 0 {
        return Some(concat_str(field, " must not be empty"));
    }
    let n = values.len();
    let mut i: usize = 0;
    while i < n
        invariant
            n == values@.len(),
            i <= n,
            forall|k: int| 0 <= k < i ==> !is_blank(#[trigger] texts(values@)[k]),
        decreases n - i,
    {
        if str_is_blank(values[i].as_str()) {
            assert(is_blank(texts(values@)[i as int]));
            return Some(concat_str(field, " entries must not be empty"));
        }
        i = i + 1;
    }
    None
}

fn tool_name_chars_ok(name: &str) -> (b: bool)
    ensures
        b == (forall|i: int| 0 <= i < name@.len() ==> tool_name_char(#[trigger] name@[i])),
{
    let n = name.unicode_len();
    let mut i: usize = 0;
    while i < n
        invariant
            n == name@.len(),
            i <= n,
            forall|k: int| 0 <= k < i ==> tool_name_char(#[trigger] name@[k]),
        decreases n - i,
    {
        let c = name.get_char(i);
        if !(char_is_ascii_alphanumeric(c) || c == '_' || c == '-') {
            return false;
        }
        i = i + 1;
    }
    true
}

#[verifier::loop_isolation(false)]
fn check_tool(t: &PromptTool, schema_is_object: bool, earlier: &[PromptTool]) -> (r: Option<String>)
    ensures
        match r {
            Some(why) => tool_failure(*t, schema_is_object, earlier@) == Some(why@),
            None => tool_failure(*t, schema_is_object, earlier@) is None,
        },
{
    if str_is_blank(t.name.as_str()) {
        return Some("tools.name must not be empty".to_owned());
    }
    if !tool_name_chars_ok(t.name.as_str()) {
        return Some("tools.name contains unsupported characters".to_owned());
    }
    if str_is_blank(t.description.as_str()) {
        return Some("tools.description must not be empty".to_owned());
    }
    if str_is_blank(t.result.as_str()) {
        return Some("tools.result must not be empty".to_owned());
    }
    if !schema_is_object {
        return Some("tools.input_schema must be a JSON object".to_owned());
    }
    let n = earlier.len();
    let mut j: usize = 0;
    while j < n
        invariant
            n == earlier@.len(),
            j <= n,
            forall|k: int| 0 <= k < j ==> (#[trigger] earlier@[k]).name@ != t.name@,
        decreases n - j,
    {
        if str_eq(earlier[j].name.as_str(), t.name.as_str()) {
            assert((earlier@[j as int]).name@ == t.name@);
            return Some("tools.name must be unique".to_owned());
        }
        j = j + 1;
    }
    None
}

fn check_tools(tools: &Vec<PromptTool>, shapes: &Vec<bool>) -> (r: Option<String>)
    requires
        shapes@.len() == tools@.len(),
    ensures
        match r {
            Some(why) => tools_failure(tools@, shapes@) == Some(why@),
            None => tools_failure(tools@, shapes@) is None,
        },
{
    let n = tools.len();
    let mut i: usize = 0;
    proof {
        assert(tools@.take(0) =~= Seq::<PromptTool>::empty());
    }
    while i < n
        invariant
            n == tools@.len(),
            shapes@.len() == n,
            i <= n,
            tools_failure(tools@.take(i as int), shapes@) is None,
        decreases n - i,
    {
        proof {
            assert(tools@.take(i + 1).drop_last() =~= tools@.take(i as int));
            assert(tools@.take(i + 1).last() == tools@[i as int]);
        }
        let earlier = tools.as_slice().split_at(i).0;
        assert(earlier@ =~= tools@.take(i as int));
        match check_tool(&tools[i], shapes[i], earlier) {
            Some(why) => {
                proof {
                    lemma_tools_failure_prefix(tools@, shapes@, i as int + 1);
                }
                return Some(why);
            },
            None => {},
        }
        i = i + 1;
    }
    proof {
        assert(tools@.take(n as int) =~= tools@);
    }
    None
}

/// A failure found within the first `k` tools is the failure of the whole list.
proof fn lemma_tools_failure_prefix(ts: Seq<PromptTool>, shapes: Seq<bool>, k: int)
    requires
        0 <= k <= ts.len(),
        tools_failure(ts.take(k), shapes) is Some,
    ensures
        tools_failure(ts, shapes) == tools_failure(ts.take(k), shapes),
    decreases ts.len() - k,
{
    if k < ts.len() {
        assert(ts.take(k + 1).drop_last() =~= ts.take(k));
        lemma_tools_failure_prefix(ts, shapes, k + 1);
    } else {
        assert(ts.take(k) =~= ts);
    }
}

/// A failure found within the first `k` examples is the failure of the whole list.
proof fn lemma_examples_failure_prefix(es: Seq<PromptExample>, k: int)
    requires
        0 <= k <= es.len(),
        examples_failure(es.take(k)) is Some,
    ensures
        examples_failure(es) == examples_failure(es.take(k)),
    decreases es.len() - k,
{
    if k < es.len() {
        assert(es.take(k + 1).drop_last() =~= es.take(k));
        lemma_examples_failure_prefix(es, k + 1);
    } else {
        assert(es.take(k) =~= es);
    }
}

fn check_example(e: &PromptExample) -> (r: Option<String>)
    ensures
        match r {
            Some(why) => example_failure(*e) == Some(why@),
            None => example_failure(*e) is None,
        },
{
    if str_is_blank(e.name.as_str()) {
        return Some("examples.name must not be empty".to_owned());
    }
    if str_is_blank(e.user.as_str()) {
        return Some("examples.user must not be empty".to_owned());
    }
    if str_is_blank(e.assistant.as_str()) {
        return Some("examples.assistant must not be empty".to_owned());
    }
    if str_is_blank(e.tool_result.as_str()) {
        return Some("examples.tool_result must not be empty".to_owned());
    }
    if str_is_blank(e.assistant_after_tool_result.as_str()) {
        return Some("examples.assistant_after_tool_result must not be empty".to_owned());
    }
    None
}

fn check_examples(examples: &Vec<PromptExample>) -> (r: Option<String>)
    ensures
        match r {
            Some(why) => examples_failure(examples@) == Some(why@),
            None => examples_failure(examples@) is None,
        },
{
    let n = examples.len();
    let mut i: usize = 0;
    proof {
        assert(examples@.take(0) =~= Seq::<PromptExample>::empty());
    }
    while i < n
        invariant
            n == examples@.len(),
            i <= n,
            examples_failure(examples@.take(i as int)) is None,
        decreases n - i,
    {
        proof {
            assert(examples@.take(i + 1).drop_last() =~= examples@.take(i as int));
            assert(examples@.take(i + 1).last() == examples@[i as int]);
        }
        match check_example(&examples[i]) {
            Some(why) => {
                proof {
                    lemma_examples_failure_prefix(examples@, i as int + 1);
                }
                return Some(why);
            },
            None => {},
        }
        i = i + 1;
    }
    proof {
        assert(examples@.take(n as int) =~= examples@);
    }
    None
}

impl PromptBundle {
    /// Checks the bundle, given for each tool whether its input schema is a
    /// JSON object; a refusal names the file and the first failed check.
    pub fn validate_with_schema_shapes(&self, path: &str, shapes: &Vec<bool>) -> (r: Result<
        (),
        PromptError,
    >)
        requires
            shapes@.len() == self.tools@.len(),
        ensures
            validation_matches(r, path@, bundle_failure(*self, shapes@)),
    {
        if self.schema_version != PROMPT_SCHEMA_VERSION {
            return validation_error(path, "schema_version must be 1".to_owned());
        }
        match check_nonempty("id", self.id.as_str()) {
            Some(why) => {
                return validation_error(path, why);
            },
            None => {},
        }
        match check_nonempty("title", self.title.as_str()) {
            Some(why) => {
                return validation_error(path, why);
            },
            None => {},
        }
        match check_nonempty_list("system", &self.system) {
            Some(why) => {
                return validation_error(path, why);
            },
            None => {},
        }
        match check_nonempty_list(
            "tool_use_protocol.instructions",
            &self.tool_use_protocol.instructions,
        ) {
            Some(why) => {
                return validation_error(path, why);
            },
            None => {},
        }
        match check_nonempty("tool_use_protocol.format", self.tool_use_protocol.format.as_str()) {
            Some(why) => {
                return validation_error(path, why);
            },
            None => {},
        }
        if self.tools.len() == 0 {
            return validation_error(path, "tools must not be empty".to_owned());
        }
        match check_tools(&self.tools, shapes) {
            Some(why) => {
                return validation_error(path, why);
            },
            None => {},
        }
        if self.examples.len() == 0 {
            return validation_error(path, "examples must not be empty".to_owned());
        }
        match check_examples(&self.examples) {
            Some(why) => {
                return validation_error(path, why);
            },
            None => {},
        }
        Ok(())
    }

    /// Checks the bundle loaded from `path` (see `bundle_failure`); each
    /// tool's input schema is parsed as JSON to see whether it is an object.
    pub fn validate(&self, path: &str) -> (r: Result<(), PromptError>)
        ensures
            validation_matches(r, path@, bundle_failure(*self, schema_shapes(self.tools@))),
    {
        let n = self.tools.len();
        let mut shapes: Vec<bool> = Vec::new();
        let mut i: usize = 0;
        while i < n
            invariant
                n == self.tools@.len(),
                i <= n,
                shapes@ =~= schema_shapes(self.tools@).take(i as int),
            decreases n - i,
        {
            let parsed = parse_json_document(self.tools[i].input_schema.as_str());
            let is_object = parsed matches Some(JsonValue::Object(_));
            shapes.push(is_object);
            i = i + 1;
        }
        proof {
            assert(schema_shapes(self.tools@).take(n as int) =~= schema_shapes(self.tools@));
        }
        self.validate_with_schema_shapes(path, &shapes)
    }
}

/// The default bundle: the LEAN coding-agent instructions, the `read_file`
/// and `list_directory` tools, the single-JSON-object tool-use protocol and
/// two worked examples.
pub open spec fn is_default_bundle(b: PromptBundle) -> bool {
    &&& b.schema_version == 1
    &&& b.id@ == "default"@
    &&& b.title@ == "LEAN Default Coding Agent"@
    &&& texts(b.system@) == seq!["You are LEAN, a headless coding-agent runtime operating inside a workspace managed by the host application."@, "Use tools only through the tool-use protocol when file context is required; do not invent file contents, directory listings, or tool results."@, "Treat paths as workspace-relative unless the host provides an absolute workspace path. Never request or reveal secrets, API keys, full request bodies, or raw provider responses."@, "When no tool is needed, answer directly and concisely. When a tool result is returned, use it to decide the next tool request or final answer."@]
    &&& b.tools@.len() == 2
    &&& b.tools@[0].name@ == "read_file"@
    &&& b.tools@[0].description@ == "Read UTF-8 text from a workspace file, optionally constrained to a 1-based inclusive line range."@
    &&& b.tools@[0].input_schema@ == "{\"additionalProperties\":false,\"properties\":{\"end_line\":{\"minimum\":1,\"type\":\"integer\"},\"path\":{\"description\":\"Workspace-relative file path.\",\"type\":\"string\"},\"start_line\":{\"minimum\":1,\"type\":\"integer\"}},\"required\":[\"path\"],\"type\":\"object\"}"@
    &&& b.tools@[0].result@ == "JSON with path, content, start_line, and end_line."@
    &&& b.tools@[1].name@ == "list_directory"@
    &&& b.tools@[1].description@ == "List immediate entries in a workspace directory in deterministic name order."@
    &&& b.tools@[1].input_schema@ == "{\"additionalProperties\":false,\"properties\":{\"path\":{\"description\":\"Workspace-relative directory path; use . for the workspace root.\",\"type\":\"string\"}},\"required\":[\"path\"],\"type\":\"object\"}"@
    &&& b.tools@[1].result@ == "JSON with path and entries containing name, path, and kind."@
    &&& b.tool_use_protocol.format@ == "single JSON object with a top-level tool_use field"@
    &&& texts(b.tool_use_protocol.instructions@) == seq!["When requesting a tool, return only JSON and no surrounding prose."@, "Use this shape: {\"tool_use\":{\"name\":\"read_file\",\"arguments\":{\"path\":\"src/main.rs\"}}}."@, "Arguments must match the selected tool input schema exactly."@, "After receiving a tool_result from the host, continue with another tool_use request only if more context is needed; otherwise provide the final answer."@]
    &&& b.examples@.len() == 2
    &&& b.examples@[0].name@ == "Inspect a file before answering"@
    &&& b.examples@[0].user@ == "Summarize src/main.rs."@
    &&& b.examples@[0].assistant@ == "{\"tool_use\":{\"name\":\"read_file\",\"arguments\":{\"path\":\"src/main.rs\"}}}"@
    &&& b.examples@[0].tool_result@ == "{\"path\":\"/workspace/src/main.rs\",\"content\":\"fn main() {}\",\"start_line\":null,\"end_line\":null}"@
    &&& b.examples@[0].assistant_after_tool_result@ == "src/main.rs defines an empty main function."@
    &&& b.examples@[1].name@ == "List a directory before choosing a file"@
    &&& b.examples@[1].user@ == "Find the entry point."@
    &&& b.examples@[1].assistant@ == "{\"tool_use\":{\"name\":\"list_directory\",\"arguments\":{\"path\":\"src\"}}}"@
    &&& b.examples@[1].tool_result@ == "{\"path\":\"/workspace/src\",\"entries\":[{\"name\":\"main.rs\",\"path\":\"/workspace/src/main.rs\",\"kind\":\"file\"}]}"@
    &&& b.examples@[1].assistant_after_tool_result@ == "{\"tool_use\":{\"name\":\"read_file\",\"arguments\":{\"path\":\"src/main.rs\"}}}"@
}

fn text_vec(items: Vec<&str>) -> (v: Vec<String>)
    ensures
        texts(v@) == items@.map_values(|s: &str| s@),
{
    let n = items.len();
    let mut v: Vec<String> = Vec::new();
    let mut i: usize = 0;
    while i < n
        invariant
            n == items@.len(),
            i <= n,
            v@.len() == i,
            texts(v@) == items@.map_values(|s: &str| s@).take(i as int),
        decreases n - i,
    {
        let ghost before = v@;
        v.push(items[i].to_owned());
        proof {
            assert(v@ == before.push(v@[i as int]));
            assert(v@[i as int]@ == items@[i as int]@);
            assert forall|k: int| 0 <= k < i + 1 implies texts(v@)[k] == items@.map_values(
                |s: &str| s@,
            ).take(i + 1)[k] by {
                if k < i {
                    assert(texts(before)[k] == texts(v@)[k]);
                }
            }
            assert(texts(v@) =~= items@.map_values(|s: &str| s@).take(i + 1));
        }
        i = i + 1;
    }
    proof {
        assert(items@.map_values(|s: &str| s@).take(n as int) =~= items@.map_values(|s: &str| s@));
    }
    v
}

/// The bundle written to `~/.lean/prompts/default.json` when it is missing.
pub fn default_prompt_bundle() -> (b: PromptBundle)
    ensures
        is_default_bundle(b),
{
    let system = text_vec(vec![
        "You are LEAN, a headless coding-agent runtime operating inside a workspace managed by the host application.",
        "Use tools only through the tool-use protocol when file context is required; do not invent file contents, directory listings, or tool results.",
        "Treat paths as workspace-relative unless the host provides an absolute workspace path. Never request or reveal secrets, API keys, full request bodies, or raw provider responses.",
        "When no tool is needed, answer directly and concisely. When a tool result is returned, use it to decide the next tool request or final answer.",
    ]);
    let instructions = text_vec(vec![
        "When requesting a tool, return only JSON and no surrounding prose.",
        "Use this shape: {\"tool_use\":{\"name\":\"read_file\",\"arguments\":{\"path\":\"src/main.rs\"}}}.",
        "Arguments must match the selected tool input schema exactly.",
        "After receiving a tool_result from the host, continue with another tool_use request only if more context is needed; otherwise provide the final answer.",
    ]);
    let tool0 = PromptTool {
        name: "read_file".to_owned(),
        description: "Read UTF-8 text from a workspace file, optionally constrained to a 1-based inclusive line range.".to_owned(),
        input_schema: "{\"additionalProperties\":false,\"properties\":{\"end_line\":{\"minimum\":1,\"type\":\"integer\"},\"path\":{\"description\":\"Workspace-relative file path.\",\"type\":\"string\"},\"start_line\":{\"minimum\":1,\"type\":\"integer\"}},\"required\":[\"path\"],\"type\":\"object\"}".to_owned(),
        result: "JSON with path, content, start_line, and end_line.".to_owned(),
    };
    let tool1 = PromptTool {
        name: "list_directory".to_owned(),
        description: "List immediate entries in a workspace directory in deterministic name order.".to_owned(),
        input_schema: "{\"additionalProperties\":false,\"properties\":{\"path\":{\"description\":\"Workspace-relative directory path; use . for the workspace root.\",\"type\":\"string\"}},\"required\":[\"path\"],\"type\":\"object\"}".to_owned(),
        result: "JSON with path and entries containing name, path, and kind.".to_owned(),
    };
    let example0 = PromptExample {
        name: "Inspect a file before answering".to_owned(),
        user: "Summarize src/main.rs.".to_owned(),
        assistant: "{\"tool_use\":{\"name\":\"read_file\",\"arguments\":{\"path\":\"src/main.rs\"}}}".to_owned(),
        tool_result: "{\"path\":\"/workspace/src/main.rs\",\"content\":\"fn main() {}\",\"start_line\":null,\"end_line\":null}".to_owned(),
        assistant_after_tool_result: "src/main.rs defines an empty main function.".to_owned(),
    };
    let example1 = PromptExample {
        name: "List a directory before choosing a file".to_owned(),
        user: "Find the entry point.".to_owned(),
        assistant: "{\"tool_use\":{\"name\":\"list_directory\",\"arguments\":{\"path\":\"src\"}}}".to_owned(),
        tool_result: "{\"path\":\"/workspace/src\",\"entries\":[{\"name\":\"main.rs\",\"path\":\"/workspace/src/main.rs\",\"kind\":\"file\"}]}".to_owned(),
        assistant_after_tool_result: "{\"tool_use\":{\"name\":\"read_file\",\"arguments\":{\"path\":\"src/main.rs\"}}}".to_owned(),
    };
    let b = PromptBundle {
        schema_version: PROMPT_SCHEMA_VERSION,
        id: DEFAULT_PROMPT_NAME.to_owned(),
        title: "LEAN Default Coding Agent".to_owned(),
        system,
        tools: vec![tool0, tool1],
        tool_use_protocol: ToolUseProtocol {
            format: "single JSON object with a top-level tool_use field".to_owned(),
            instructions,
        },
        examples: vec![example0, example1],
    };
    proof {
        reveal_strlit("default");
        assert(b.tools@.len() == 2);
        assert(b.examples@.len() == 2);
        assert(b.id@ == "default"@);
        assert(b.tools@[0].name@ == "read_file"@);
        assert(texts(b.system@) =~= seq!["You are LEAN, a headless coding-agent runtime operating inside a workspace managed by the host application."@, "Use tools only through the tool-use protocol when file context is required; do not invent file contents, directory listings, or tool results."@, "Treat paths as workspace-relative unless the host provides an absolute workspace path. Never request or reveal secrets, API keys, full request bodies, or raw provider responses."@, "When no tool is needed, answer directly and concisely. When a tool result is returned, use it to decide the next tool request or final answer."@]);
        assert(texts(b.tool_use_protocol.instructions@) =~= seq!["When requesting a tool, return only JSON and no surrounding prose."@, "Use this shape: {\"tool_use\":{\"name\":\"read_file\",\"arguments\":{\"path\":\"src/main.rs\"}}}."@, "Arguments must match the selected tool input schema exactly."@, "After receiving a tool_result from the host, continue with another tool_use request only if more context is needed; otherwise provide the final answer."@]);
    }
    b
}

/// The characters a prompt name may hold.
pub open spec fn prompt_name_char(c: char) -> bool {
    is_ascii_alphanumeric(c) || c == '-' || c == '_'
}

/// A prompt name names one file in the prompt directory: non-empty, neither
/// `.` nor `..`, and made of ASCII letters, digits, `-` and `_`.
pub open spec fn valid_prompt_name(name: Seq<char>) -> bool {
    &&& name.len() > 0
    &&& name != seq!['.']
    &&& name != seq!['.', '.']
    &&& forall|i: int| 0 <= i < name.len() ==> prompt_name_char(#[trigger] name[i])
}

/// A `HOME` value that can be used: set, and not blank.
pub open spec fn usable_home(home: Option<Seq<char>>) -> bool {
    home is Some && home->Some_0.len() > 0 && !is_blank(home->Some_0)
}

/// The prompt directory under a home directory: `<home>/.lean/prompts`.
pub open spec fn home_prompts_dir(home: Seq<char>) -> Seq<char> {
    join(join(home, ".lean"@), "prompts"@)
}

/// Checks a prompt name (see `valid_prompt_name`).
pub fn validate_prompt_name(name: &str) -> (r: Result<(), PromptError>)
    ensures
        valid_prompt_name(name@) ==> r is Ok,
        !valid_prompt_name(name@) ==> (r matches Err(PromptError::InvalidPromptName { name: n })
            && n@ == name@),
{
    proof {
        reveal_strlit(".");
        reveal_strlit("..");
        assert("."@ =~= seq!['.']);
        assert(".."@ =~= seq!['.', '.']);
    }
    let n = name.unicode_len();
    if n == 0 || str_eq(name, ".") || str_eq(name, "..") {
        return Err(PromptError::InvalidPromptName { name: name.to_owned() });
    }
    let mut i: usize = 0;
    while i < n
        invariant
            n == name@.len(),
            i <= n,
            forall|k: int| 0 <= k < i ==> prompt_name_char(#[trigger] name@[k]),
        decreases n - i,
    {
        let c = name.get_char(i);
        if !(char_is_ascii_alphanumeric(c) || c == '-' || c == '_') {
            return Err(PromptError::InvalidPromptName { name: name.to_owned() });
        }
        i = i + 1;
    }
    Ok(())
}

impl PromptStore {
    pub closed spec fn spec_prompts_dir(&self) -> Seq<char> {
        self.prompts_dir@
    }

    /// The store of the current user, from the value of `HOME`: refused when
    /// `HOME` is unset, empty or blank.
    pub fn from_current_user(home: Option<&str>) -> (r: Result<PromptStore, PromptError>)
        ensures
            usable_home(
                match home {
                    Some(h) => Some(h@),
                    None => None,
                },
            ) ==> (r matches Ok(store) && store.spec_prompts_dir() == home_prompts_dir(
                home->Some_0@,
            )),
            !usable_home(
                match home {
                    Some(h) => Some(h@),
                    None => None,
                },
            ) ==> r matches Err(PromptError::HomeUnavailable),
    {
        match home {
            Some(h) => {
                if h.unicode_len() == 0 || str_is_blank(h) {
                    Err(PromptError::HomeUnavailable)
                } else {
                    Ok(PromptStore::from_home_dir(h))
                }
            },
            None => Err(PromptError::HomeUnavailable),
        }
    }

    /// The store at `<home>/.lean/prompts`.
    pub fn from_home_dir(home: &str) -> (store: PromptStore)
        ensures
            store.spec_prompts_dir() == home_prompts_dir(home@),
    {
        let lean = join_path(home, ".lean");
        PromptStore { prompts_dir: join_path(lean.as_str(), "prompts") }
    }

    /// The store at the given directory.
    pub fn with_prompts_dir(prompts_dir: &str) -> (store: PromptStore)
        ensures
            store.spec_prompts_dir() == prompts_dir@,
    {
        PromptStore { prompts_dir: prompts_dir.to_owned() }
    }

    pub fn prompts_dir(&self) -> (r: &str)
        ensures
            r@ == self.spec_prompts_dir(),
    {
        self.prompts_dir.as_str()
    }

    /// The file of a named prompt, `<dir>/<name>.json`, for a valid name.
    pub fn prompt_path(&self, name: &str) -> (r: Result<String, PromptError>)
        ensures
            valid_prompt_name(name@) ==> (r matches Ok(p) && p@ == join(
                self.spec_prompts_dir(),
                name@ + ".json"@,
            )),
            !valid_prompt_name(name@) ==> (r matches Err(PromptError::InvalidPromptName { name: n })
                && n@ == name@),
    {
        match validate_prompt_name(name) {
            Err(e) => Err(e),
            Ok(()) => {
                let file = concat_str(name, ".json");
                Ok(join_path(self.prompts_dir.as_str(), file.as_str()))
            },
        }
    }
}

/// Whether loading a prompt must first write the default bundle: the prompt
/// file is missing and the default prompt is asked for.
pub fn needs_default_prompt(name: &str, exists: bool) -> (b: bool)
    ensures
        b == (!exists && name@ == DEFAULT_PROMPT_NAME@),
{
    !exists && str_eq(name, DEFAULT_PROMPT_NAME)
}

/// The message of a prompt error, as it is shown to the user.
pub open spec fn prompt_error_text(e: PromptError) -> Seq<char> {
    match e {
        PromptError::HomeUnavailable => "HOME is not set; cannot resolve ~/.lean/prompts"@,
        PromptError::InvalidPromptName { name } => "prompt name "@ + name@ + " is invalid"@,
        PromptError::CreatePromptDir { path, message } => "failed to create prompt directory "@
            + path@ + ": "@ + message@,
        PromptError::WriteDefaultPrompt { path, message } => "failed to write default prompt "@
            + path@ + ": "@ + message@,
        PromptError::ReadPrompt { path, message } => "failed to read prompt "@ + path@ + ": "@
            + message@,
        PromptError::ParsePrompt { path, message } => "failed to parse prompt "@ + path@ + ": "@
            + message@,
        PromptError::Validation { path, reason } => "prompt "@ + path@ + " validation failed: "@
            + reason@,
    }
}

impl PromptError {
    /// The error's message, as it is shown to the user.
    pub fn message(&self) -> (text: String)
        ensures
            text@ == prompt_error_text(*self),
    {
        match self {
            PromptError::HomeUnavailable => "HOME is not set; cannot resolve ~/.lean/prompts".to_owned(),
            PromptError::InvalidPromptName { name } => {
                let mut t = "prompt name ".to_owned();
                t.append(name.as_str());
                t.append(" is invalid");
                t
            },
            PromptError::CreatePromptDir { path, message } => {
                let mut t = "failed to create prompt directory ".to_owned();
                t.append(path.as_str());
                t.append(": ");
                t.append(message.as_str());
                t
            },
            PromptError::WriteDefaultPrompt { path, message } => {
                let mut t = "failed to write default prompt ".to_owned();
                t.append(path.as_str());
                t.append(": ");
                t.append(message.as_str());
                t
            },
            PromptError::ReadPrompt { path, message } => {
                let mut t = "failed to read prompt ".to_owned();
                t.append(path.as_str());
                t.append(": ");
                t.append(message.as_str());
                t
            },
            PromptError::ParsePrompt { path, message } => {
                let mut t = "failed to parse prompt ".to_owned();
                t.append(path.as_str());
                t.append(": ");
                t.append(message.as_str());
                t
            },
            PromptError::Validation { path, reason } => {
                let mut t = "prompt ".to_owned();
                t.append(path.as_str());
                t.append(" validation failed: ");
                t.append(reason.as_str());
                t
            },
        }
    }
}

spec fn name_chars_ok(s: Seq<char>) -> bool
    decreases s.len(),
{
    s.len() == 0 || (tool_name_char(s.last()) && name_chars_ok(s.drop_last()))
}

proof fn lemma_name_chars_ok(s: Seq<char>)
    requires
        name_chars_ok(s),
    ensures
        forall|i: int| 0 <= i < s.len() ==> tool_name_char(#[trigger] s[i]),
    decreases s.len(),
{
    if s.len() > 0 {
        lemma_name_chars_ok(s.drop_last());
        assert forall|i: int| 0 <= i < s.len() implies tool_name_char(#[trigger] s[i]) by {
            if i < s.len() - 1 {
                assert(s[i] == s.drop_last()[i]);
            }
        }
    }
}

proof fn lemma_not_blank(s: Seq<char>)
    requires
        s.len() > 0,
        !is_white_space(s[0]),
    ensures
        !is_blank(s),
{
}

/// The default bundle passes every check, given that its two input schemas
/// are JSON objects (which their texts are).
pub proof fn lemma_default_bundle_is_valid(b: PromptBundle)
    requires
        is_default_bundle(b),
    ensures
        bundle_failure(b, seq![true, true]) is None,
{
    reveal_strlit("default");
    reveal_strlit("LEAN Default Coding Agent");
    reveal_strlit("You are LEAN, a headless coding-agent runtime operating inside a workspace managed by the host application.");
    reveal_strlit("Use tools only through the tool-use protocol when file context is required; do not invent file contents, directory listings, or tool results.");
    reveal_strlit("Treat paths as workspace-relative unless the host provides an absolute workspace path. Never request or reveal secrets, API keys, full request bodies, or raw provider responses.");
    reveal_strlit("When no tool is needed, answer directly and concisely. When a tool result is returned, use it to decide the next tool request or final answer.");
    reveal_strlit("read_file");
    reveal_strlit("Read UTF-8 text from a workspace file, optionally constrained to a 1-based inclusive line range.");
    reveal_strlit("{\"additionalProperties\":false,\"properties\":{\"end_line\":{\"minimum\":1,\"type\":\"integer\"},\"path\":{\"description\":\"Workspace-relative file path.\",\"type\":\"string\"},\"start_line\":{\"minimum\":1,\"type\":\"integer\"}},\"required\":[\"path\"],\"type\":\"object\"}");
    reveal_strlit("JSON with path, content, start_line, and end_line.");
    reveal_strlit("list_directory");
    reveal_strlit("List immediate entries in a workspace directory in deterministic name order.");
    reveal_strlit("{\"additionalProperties\":false,\"properties\":{\"path\":{\"description\":\"Workspace-relative directory path; use . for the workspace root.\",\"type\":\"string\"}},\"required\":[\"path\"],\"type\":\"object\"}");
    reveal_strlit("JSON with path and entries containing name, path, and kind.");
    reveal_strlit("single JSON object with a top-level tool_use field");
    reveal_strlit("When requesting a tool, return only JSON and no surrounding prose.");
    reveal_strlit("Use this shape: {\"tool_use\":{\"name\":\"read_file\",\"arguments\":{\"path\":\"src/main.rs\"}}}.");
    reveal_strlit("Arguments must match the selected tool input schema exactly.");
    reveal_strlit("After receiving a tool_result from the host, continue with another tool_use request only if more context is needed; otherwise provide the final answer.");
    reveal_strlit("Inspect a file before answering");
    reveal_strlit("Summarize src/main.rs.");
    reveal_strlit("{\"tool_use\":{\"name\":\"read_file\",\"arguments\":{\"path\":\"src/main.rs\"}}}");
    reveal_strlit("{\"path\":\"/workspace/src/main.rs\",\"content\":\"fn main() {}\",\"start_line\":null,\"end_line\":null}");
    reveal_strlit("src/main.rs defines an empty main function.");
    reveal_strlit("List a directory before choosing a file");
    reveal_strlit("Find the entry point.");
    reveal_strlit("{\"tool_use\":{\"name\":\"list_directory\",\"arguments\":{\"path\":\"src\"}}}");
    reveal_strlit("{\"path\":\"/workspace/src\",\"entries\":[{\"name\":\"main.rs\",\"path\":\"/workspace/src/main.rs\",\"kind\":\"file\"}]}");
    lemma_not_blank("default"@);
    lemma_not_blank("LEAN Default Coding Agent"@);
    lemma_not_blank("You are LEAN, a headless coding-agent runtime operating inside a workspace managed by the host application."@);
    lemma_not_blank("Use tools only through the tool-use protocol when file context is required; do not invent file contents, directory listings, or tool results."@);
    lemma_not_blank("Treat paths as workspace-relative unless the host provides an absolute workspace path. Never request or reveal secrets, API keys, full request bodies, or raw provider responses."@);
    lemma_not_blank("When no tool is needed, answer directly and concisely. When a tool result is returned, use it to decide the next tool request or final answer."@);
    lemma_not_blank("read_file"@);
    lemma_not_blank("Read UTF-8 text from a workspace file, optionally constrained to a 1-based inclusive line range."@);
    lemma_not_blank("{\"additionalProperties\":false,\"properties\":{\"end_line\":{\"minimum\":1,\"type\":\"integer\"},\"path\":{\"description\":\"Workspace-relative file path.\",\"type\":\"string\"},\"start_line\":{\"minimum\":1,\"type\":\"integer\"}},\"required\":[\"path\"],\"type\":\"object\"}"@);
    lemma_not_blank("JSON with path, content, start_line, and end_line."@);
    lemma_not_blank("list_directory"@);
    lemma_not_blank("List immediate entries in a workspace directory in deterministic name order."@);
    lemma_not_blank("{\"additionalProperties\":false,\"properties\":{\"path\":{\"description\":\"Workspace-relative directory path; use . for the workspace root.\",\"type\":\"string\"}},\"required\":[\"path\"],\"type\":\"object\"}"@);
    lemma_not_blank("JSON with path and entries containing name, path, and kind."@);
    lemma_not_blank("single JSON object with a top-level tool_use field"@);
    lemma_not_blank("When requesting a tool, return only JSON and no surrounding prose."@);
    lemma_not_blank("Use this shape: {\"tool_use\":{\"name\":\"read_file\",\"arguments\":{\"path\":\"src/main.rs\"}}}."@);
    lemma_not_blank("Arguments must match the selected tool input schema exactly."@);
    lemma_not_blank("After receiving a tool_result from the host, continue with another tool_use request only if more context is needed; otherwise provide the final answer."@);
    lemma_not_blank("Inspect a file before answering"@);
    lemma_not_blank("Summarize src/main.rs."@);
    lemma_not_blank("{\"tool_use\":{\"name\":\"read_file\",\"arguments\":{\"path\":\"src/main.rs\"}}}"@);
    lemma_not_blank("{\"path\":\"/workspace/src/main.rs\",\"content\":\"fn main() {}\",\"start_line\":null,\"end_line\":null}"@);
    lemma_not_blank("src/main.rs defines an empty main function."@);
    lemma_not_blank("List a directory before choosing a file"@);
    lemma_not_blank("Find the entry point."@);
    lemma_not_blank("{\"tool_use\":{\"name\":\"list_directory\",\"arguments\":{\"path\":\"src\"}}}"@);
    lemma_not_blank("{\"path\":\"/workspace/src\",\"entries\":[{\"name\":\"main.rs\",\"path\":\"/workspace/src/main.rs\",\"kind\":\"file\"}]}"@);
    reveal_with_fuel(name_chars_ok, 15);
    assert(name_chars_ok("read_file"@));
    assert(name_chars_ok("list_directory"@));
    lemma_name_chars_ok("read_file"@);
    lemma_name_chars_ok("list_directory"@);
    let ts = b.tools@;
    assert(ts.drop_last().drop_last() =~= Seq::<PromptTool>::empty());
    assert(tool_failure(ts[0], true, Seq::empty()) is None);
    assert(tools_failure(ts.drop_last().drop_last(), seq![true, true]) is None);
    assert(ts.drop_last().last() == ts[0]);
    assert(tools_failure(ts.drop_last(), seq![true, true]) is None);
    assert(ts.drop_last().len() == 1 && ts.drop_last()[0].name@ != ts[1].name@);
    assert(tool_failure(ts[1], true, ts.drop_last()) is None);
    assert(tools_failure(ts, seq![true, true]) is None);
    let es = b.examples@;
    assert(es.drop_last().drop_last() =~= Seq::<PromptExample>::empty());
    assert(example_failure(es[0]) is None);
    assert(example_failure(es[1]) is None);
    assert(es.drop_last().last() == es[0]);
    assert(examples_failure(es.drop_last().drop_last()) is None);
    assert(example_failure(es.drop_last().last()) is None);
    assert(examples_failure(es.drop_last()) is None);
    assert(examples_failure(es) is None);
    assert(!(exists|i: int| 0 <= i < texts(b.system@).len() && is_blank(#[trigger] texts(b.system@)[i])));
    assert(!(exists|i: int|
        0 <= i < texts(b.tool_use_protocol.instructions@).len() && is_blank(
            #[trigger] texts(b.tool_use_protocol.instructions@)[i],
        )));
}

/// The file of a valid prompt name lies directly inside the prompt
/// directory, named `<name>.json`: a prompt name cannot reach elsewhere.
pub proof fn lemma_prompt_file_in_prompts_dir(dir: Seq<char>, name: Seq<char>)
    requires
        valid_prompt_name(name),
    ensures
        path_starts_with(join(dir, name + ".json"@), dir),
        file_name(join(dir, name + ".json"@)) == Some(name + ".json"@),
{
    reveal_strlit(".json");
    let f = name + ".json"@;
    assert(!f.contains('/')) by {
        if f.contains('/') {
            let i = choose|i: int| 0 <= i < f.len() && f[i] == '/';
            if i < name.len() {
                assert(prompt_name_char(name[i]));
            }
        }
    }
    assert(f.len() >= 6);
    lemma_join_within(dir, f);
}

/// `pat` stands in `t` from position `i` on.
pub open spec fn text_at(t: Seq<char>, i: int, pat: Seq<char>) -> bool {
    0 <= i && i + pat.len() <= t.len() && t.subrange(i, i + pat.len()) == pat
}

/// `x` as a whole line: a line break before it and one after it.
pub open spec fn whole_line(x: Seq<char>) -> Seq<char> {
    "\n"@ + x + "\n"@
}

/// The line that names one tool.
pub open spec fn tool_heading(t: PromptTool) -> Seq<char> {
    "- "@ + t.name@ + ": "@ + t.description@
}

proof fn lemma_contains_in_prefix(t: Seq<char>, s: Seq<char>, pat: Seq<char>)
    requires
        t.is_prefix_of(s),
        contains_text(t, pat),
    ensures
        contains_text(s, pat),
{
    let i = choose|i: int| 0 <= i && i + pat.len() <= t.len() && #[trigger] t.subrange(i, i + pat.len()) == pat;
    assert(s.subrange(i, i + pat.len()) =~= t.subrange(i, i + pat.len()));
}

proof fn lemma_prefix_of_append(a: Seq<char>, b: Seq<char>)
    ensures
        a.is_prefix_of(a + b),
{
    assert(a =~= (a + b).subrange(0, a.len() as int));
}

/// A line `x` ending right after `q`, whose last character is a line break.
proof fn lemma_line_after(q: Seq<char>, x: Seq<char>, rest: Seq<char>)
    requires
        q.len() > 0,
        q.last() == '\n',
    ensures
        contains_text(q + (x + "\n"@) + rest, whole_line(x)),
{
    reveal_strlit("\n");
    let t = q + (x + "\n"@) + rest;
    let i = q.len() - 1;
    let pat = whole_line(x);
    assert(t.subrange(i, i + pat.len()) =~= pat);
}

proof fn lemma_bullet_lines_end(items: Seq<Seq<char>>)
    requires
        items.len() > 0,
    ensures
        bullet_lines(items).len() > 0,
        bullet_lines(items).last() == '\n',
{
    reveal_strlit("\n");
}

/// Every item of a bullet list stands on a line of its own after `- `.
proof fn lemma_bullet_line(pre: Seq<char>, items: Seq<Seq<char>>, k: int)
    requires
        pre.len() > 0,
        pre.last() == '\n',
        0 <= k < items.len(),
    ensures
        contains_text(pre + bullet_lines(items), whole_line("- "@ + items[k])),
    decreases items.len(),
{
    let init = items.drop_last();
    let q = pre + bullet_lines(init);
    let t = pre + bullet_lines(items);
    assert(t =~= q + (("- "@ + items.last()) + "\n"@) + Seq::<char>::empty());
    if init.len() > 0 {
        lemma_bullet_lines_end(init);
        assert(q.last() == bullet_lines(init).last());
    } else {
        assert(q =~= pre);
    }
    if k == items.len() - 1 {
        lemma_line_after(q, "- "@ + items.last(), Seq::<char>::empty());
    } else {
        lemma_bullet_line(pre, init, k);
        assert(init[k] == items[k]);
        assert(t =~= q + ("- "@ + items.last() + "\n"@));
        lemma_prefix_of_append(q, "- "@ + items.last() + "\n"@);
        lemma_contains_in_prefix(q, t, whole_line("- "@ + items[k]));
    }
}

proof fn lemma_tools_lines_end(ts: Seq<PromptTool>)
    requires
        ts.len() > 0,
    ensures
        tools_lines(ts).len() > 0,
        tools_lines(ts).last() == '\n',
{
    reveal_strlit("\n");
}

/// Every tool stands on a line `- name: description` of its own.
proof fn lemma_tool_line(pre: Seq<char>, ts: Seq<PromptTool>, k: int)
    requires
        pre.len() > 0,
        pre.last() == '\n',
        0 <= k < ts.len(),
    ensures
        contains_text(pre + tools_lines(ts), whole_line(tool_heading(ts[k]))),
    decreases ts.len(),
{
    let init = ts.drop_last();
    let q = pre + tools_lines(init);
    let t = pre + tools_lines(ts);
    let last = ts.last();
    let rest = "  Input schema: "@ + last.input_schema@ + "\n"@ + "  Result: "@ + last.result@ + "\n"@;
    assert(tool_lines(last) =~= (tool_heading(last) + "\n"@) + rest);
    assert(t =~= q + (tool_heading(last) + "\n"@) + rest);
    if init.len() > 0 {
        lemma_tools_lines_end(init);
        assert(q.last() == tools_lines(init).last());
    } else {
        assert(q =~= pre);
    }
    if k == ts.len() - 1 {
        lemma_line_after(q, tool_heading(last), rest);
    } else {
        lemma_tool_line(pre, init, k);
        assert(init[k] == ts[k]);
        assert(t =~= q + tool_lines(last));
        lemma_prefix_of_append(q, tool_lines(last));
        lemma_contains_in_prefix(q, t, whole_line(tool_heading(ts[k])));
    }
}

/// The pieces of a rendered prompt: the heading of the system instructions,
/// the instructions, the tools heading, the tools, the protocol heading, the
/// protocol, the examples heading and the examples.
pub open spec fn prompt_pieces(b: PromptBundle) -> Seq<Seq<char>> {
    seq![
        b.title@ + "\n\n"@ + "System Instructions\n"@,
        bullet_lines(texts(b.system@)),
        "\nAvailable Tools\n"@,
        tools_lines(b.tools@),
        "\nTool Use Protocol\n"@,
        "Format: "@ + b.tool_use_protocol.format@ + "\n"@ + bullet_lines(texts(b.tool_use_protocol.instructions@)),
        "\nExamples\n"@,
        examples_lines(b.examples@),
    ]
}

/// The text of the first `n` pieces.
pub open spec fn pieces_text(ps: Seq<Seq<char>>, n: int) -> Seq<char>
    decreases n,
{
    if n <= 0 {
        Seq::empty()
    } else {
        pieces_text(ps, n - 1) + ps[n - 1]
    }
}

#[verifier::spinoff_prover]
proof fn lemma_prompt_is_pieces(b: PromptBundle)
    ensures
        rendered_prompt(b) == pieces_text(prompt_pieces(b), 8),
{
    let ps = prompt_pieces(b);
    reveal_with_fuel(pieces_text, 9);
    assert(rendered_prompt(b) =~= pieces_text(ps, 8));
}

/// The first `n` pieces begin the text of the first `m`.
proof fn lemma_pieces_prefix(ps: Seq<Seq<char>>, n: int, m: int)
    requires
        0 <= n <= m <= ps.len(),
    ensures
        pieces_text(ps, n).is_prefix_of(pieces_text(ps, m)),
    decreases m - n,
{
    if n < m {
        lemma_pieces_prefix(ps, n, m - 1);
        lemma_prefix_of_append(pieces_text(ps, m - 1), ps[m - 1]);
        assert(pieces_text(ps, n) =~= pieces_text(ps, m).subrange(0, pieces_text(ps, n).len() as int));
    } else {
        assert(pieces_text(ps, n) =~= pieces_text(ps, m).subrange(0, pieces_text(ps, n).len() as int));
    }
}

/// Piece `k` stands in the whole text right after the pieces before it.
proof fn lemma_piece_at(ps: Seq<Seq<char>>, k: int)
    requires
        0 <= k < ps.len(),
    ensures
        text_at(pieces_text(ps, ps.len() as int), pieces_text(ps, k).len() as int, ps[k]),
        pieces_text(ps, k).len() + ps[k].len() == pieces_text(ps, k + 1).len(),
{
    let w = pieces_text(ps, k + 1);
    let i = pieces_text(ps, k).len() as int;
    assert(w.subrange(i, i + ps[k].len()) =~= ps[k]);
    lemma_pieces_prefix(ps, k + 1, ps.len() as int);
    let s = pieces_text(ps, ps.len() as int);
    assert(s.subrange(i, i + ps[k].len()) =~= w.subrange(i, i + ps[k].len()));
}

proof fn lemma_prompt_headings(b: PromptBundle)
    ensures
        text_at(rendered_prompt(b), pieces_text(prompt_pieces(b), 2).len() as int, "\nAvailable Tools\n"@),
        text_at(rendered_prompt(b), pieces_text(prompt_pieces(b), 4).len() as int, "\nTool Use Protocol\n"@),
        text_at(rendered_prompt(b), pieces_text(prompt_pieces(b), 6).len() as int, "\nExamples\n"@),
        (b.title@ + "\n\n"@ + "System Instructions\n"@).len() <= pieces_text(prompt_pieces(b), 2).len(),
        pieces_text(prompt_pieces(b), 2).len() + "\nAvailable Tools\n"@.len() <= pieces_text(prompt_pieces(b), 4).len(),
        pieces_text(prompt_pieces(b), 4).len() + "\nTool Use Protocol\n"@.len() <= pieces_text(prompt_pieces(b), 6).len(),
        (b.title@ + "\n\n"@ + "System Instructions\n"@).is_prefix_of(rendered_prompt(b)),
{
    let ps = prompt_pieces(b);
    lemma_prompt_is_pieces(b);
    lemma_piece_at(ps, 2);
    lemma_piece_at(ps, 4);
    lemma_piece_at(ps, 6);
    lemma_piece_at(ps, 0);
    lemma_piece_at(ps, 1);
    lemma_piece_at(ps, 3);
    lemma_piece_at(ps, 5);
    lemma_pieces_prefix(ps, 1, 8);
    reveal_with_fuel(pieces_text, 2);
    assert(pieces_text(ps, 1) =~= ps[0]);
}

proof fn lemma_prompt_instruction_lines(b: PromptBundle, k: int)
    requires
        0 <= k < b.system@.len(),
    ensures
        contains_text(rendered_prompt(b), whole_line("- "@ + b.system@[k]@)),
{
    reveal_strlit("System Instructions\n");
    let ps = prompt_pieces(b);
    lemma_prompt_is_pieces(b);
    reveal_with_fuel(pieces_text, 3);
    let h0 = ps[0];
    assert(pieces_text(ps, 2) =~= h0 + bullet_lines(texts(b.system@)));
    assert(h0.last() == '\n');
    lemma_bullet_line(h0, texts(b.system@), k);
    assert(texts(b.system@)[k] == b.system@[k]@);
    lemma_pieces_prefix(ps, 2, 8);
    lemma_contains_in_prefix(pieces_text(ps, 2), rendered_prompt(b), whole_line("- "@ + b.system@[k]@));
}

proof fn lemma_prompt_tool_lines(b: PromptBundle, k: int)
    requires
        0 <= k < b.tools@.len(),
    ensures
        contains_text(rendered_prompt(b), whole_line(tool_heading(b.tools@[k]))),
{
    reveal_strlit("\nAvailable Tools\n");
    let ps = prompt_pieces(b);
    lemma_prompt_is_pieces(b);
    let pre = pieces_text(ps, 3);
    assert(pieces_text(ps, 3) == pieces_text(ps, 2) + ps[2]);
    assert(pieces_text(ps, 4) == pre + tools_lines(b.tools@));
    assert(pre.last() == '\n');
    lemma_tool_line(pre, b.tools@, k);
    lemma_pieces_prefix(ps, 4, 8);
    lemma_contains_in_prefix(pieces_text(ps, 4), rendered_prompt(b), whole_line(tool_heading(b.tools@[k])));
}

/// The layout of a rendered system prompt: it begins with the bundle's title
/// and the "System Instructions" heading; the headings "Available Tools",
/// "Tool Use Protocol" and "Examples" follow in that order, without
/// overlapping; every system instruction stands on a line of its own after
/// `- `, and every tool on a line `- name: description` of its own.
pub proof fn lemma_rendered_prompt_layout(b: PromptBundle)
    ensures
        (b.title@ + "\n\n"@ + "System Instructions\n"@).is_prefix_of(rendered_prompt(b)),
        exists|a: int, c: int, e: int|
            #![trigger text_at(rendered_prompt(b), a, "\nAvailable Tools\n"@), text_at(rendered_prompt(b), c, "\nTool Use Protocol\n"@), text_at(rendered_prompt(b), e, "\nExamples\n"@)]
            (b.title@ + "\n\n"@ + "System Instructions\n"@).len() <= a
                && a + "\nAvailable Tools\n"@.len() <= c
                && c + "\nTool Use Protocol\n"@.len() <= e
                && text_at(rendered_prompt(b), a, "\nAvailable Tools\n"@)
                && text_at(rendered_prompt(b), c, "\nTool Use Protocol\n"@)
                && text_at(rendered_prompt(b), e, "\nExamples\n"@),
        forall|k: int|
            0 <= k < b.system@.len() ==> contains_text(
                rendered_prompt(b),
                whole_line("- "@ + (#[trigger] b.system@[k])@),
            ),
        forall|k: int|
            0 <= k < b.tools@.len() ==> contains_text(
                rendered_prompt(b),
                whole_line(tool_heading(#[trigger] b.tools@[k])),
            ),
{
    lemma_prompt_headings(b);
    let ps = prompt_pieces(b);
    let a = pieces_text(ps, 2).len() as int;
    let c = pieces_text(ps, 4).len() as int;
    let e = pieces_text(ps, 6).len() as int;
    assert(text_at(rendered_prompt(b), a, "\nAvailable Tools\n"@));
    assert(text_at(rendered_prompt(b), c, "\nTool Use Protocol\n"@));
    assert(text_at(rendered_prompt(b), e, "\nExamples\n"@));
    assert forall|k: int| 0 <= k < b.system@.len() implies contains_text(
        rendered_prompt(b),
        whole_line("- "@ + (#[trigger] b.system@[k])@),
    ) by {
        lemma_prompt_instruction_lines(b, k);
    }
    assert forall|k: int| 0 <= k < b.tools@.len() implies contains_text(
        rendered_prompt(b),
        whole_line(tool_heading(#[trigger] b.tools@[k])),
    ) by {
        lemma_prompt_tool_lines(b, k);
    }
}

/// Lines, each followed by a line break.
pub open spec fn lines_text(xs: Seq<Seq<char>>) -> Seq<char>
    decreases xs.len(),
{
    if xs.len() == 0 {
        Seq::empty()
    } else {
        lines_text(xs.drop_last()) + (xs.last() + "\n"@)
    }
}

/// The five lines that present an example, in order.
pub open spec fn example_line_texts(e: PromptExample) -> Seq<Seq<char>> {
    seq![
        "Example: "@ + e.name@,
        "User: "@ + e.user@,
        "Assistant: "@ + e.assistant@,
        "Tool result: "@ + e.tool_result@,
        "Assistant after tool result: "@ + e.assistant_after_tool_result@,
    ]
}

/// Every line of a block of lines stands on a line of its own.
proof fn lemma_lines_text_line(pre: Seq<char>, xs: Seq<Seq<char>>, j: int)
    requires
        pre.len() > 0,
        pre.last() == '\n',
        0 <= j < xs.len(),
    ensures
        contains_text(pre + lines_text(xs), whole_line(xs[j])),
    decreases xs.len(),
{
    reveal_strlit("\n");
    let init = xs.drop_last();
    let q = pre + lines_text(init);
    let t = pre + lines_text(xs);
    assert(t =~= q + (xs.last() + "\n"@) + Seq::<char>::empty());
    if init.len() > 0 {
        assert(lines_text(init).last() == '\n');
        assert(q.last() == lines_text(init).last());
    } else {
        assert(q =~= pre);
    }
    if j == xs.len() - 1 {
        lemma_line_after(q, xs.last(), Seq::<char>::empty());
    } else {
        lemma_lines_text_line(pre, init, j);
        assert(init[j] == xs[j]);
        assert(t =~= q + (xs.last() + "\n"@));
        lemma_prefix_of_append(q, xs.last() + "\n"@);
        lemma_contains_in_prefix(q, t, whole_line(xs[j]));
    }
}

proof fn lemma_example_lines_are_lines(e: PromptExample)
    ensures
        example_lines(e) == lines_text(example_line_texts(e)),
        example_lines(e).len() > 0,
        example_lines(e).last() == '\n',
{
    reveal_strlit("\n");
    reveal_with_fuel(lines_text, 6);
    let xs = example_line_texts(e);
    assert(xs.drop_last().drop_last().drop_last().drop_last().drop_last() =~= Seq::<Seq<char>>::empty());
    assert(example_lines(e) =~= lines_text(xs));
}

/// Every line of every example stands on a line of its own.
proof fn lemma_example_line(pre: Seq<char>, es: Seq<PromptExample>, k: int, j: int)
    requires
        pre.len() > 0,
        pre.last() == '\n',
        0 <= k < es.len(),
        0 <= j < 5,
    ensures
        contains_text(pre + examples_lines(es), whole_line(example_line_texts(es[k])[j])),
    decreases es.len(),
{
    let init = es.drop_last();
    let last = es.last();
    let q = pre + examples_lines(init);
    let t = pre + examples_lines(es);
    lemma_example_lines_are_lines(last);
    assert(t =~= q + example_lines(last));
    if init.len() > 0 {
        lemma_example_lines_are_lines(init.last());
        assert(q.last() == examples_lines(init).last());
    } else {
        assert(q =~= pre);
    }
    if k == es.len() - 1 {
        lemma_lines_text_line(q, example_line_texts(last), j);
    } else {
        lemma_example_line(pre, init, k, j);
        assert(init[k] == es[k]);
        lemma_prefix_of_append(q, example_lines(last));
        lemma_contains_in_prefix(q, t, whole_line(example_line_texts(es[k])[j]));
    }
}

proof fn lemma_prompt_example_line(b: PromptBundle, k: int, j: int)
    requires
        0 <= k < b.examples@.len(),
        0 <= j < 5,
    ensures
        contains_text(rendered_prompt(b), whole_line(example_line_texts(b.examples@[k])[j])),
{
    reveal_strlit("\nExamples\n");
    let ps = prompt_pieces(b);
    lemma_prompt_is_pieces(b);
    let pre = pieces_text(ps, 7);
    assert(pieces_text(ps, 7) == pieces_text(ps, 6) + ps[6]);
    assert(pieces_text(ps, 8) == pre + examples_lines(b.examples@));
    assert(pre.last() == '\n');
    lemma_example_line(pre, b.examples@, k, j);
}

/// Every example of a bundle is presented in the rendered system prompt,
/// each of its parts on a line of its own: its name after `Example: `, the
/// user's message after `User: `, the assistant's reply after `Assistant: `,
/// the tool's result after `Tool result: ` and the reply that follows it
/// after `Assistant after tool result: `.
pub proof fn lemma_rendered_prompt_examples(b: PromptBundle)
    ensures
        forall|k: int|
            0 <= k < b.examples@.len() ==> {
                &&& contains_text(rendered_prompt(b), whole_line("Example: "@ + (#[trigger] b.examples@[k]).name@))
                &&& contains_text(rendered_prompt(b), whole_line("User: "@ + b.examples@[k].user@))
                &&& contains_text(rendered_prompt(b), whole_line("Assistant: "@ + b.examples@[k].assistant@))
                &&& contains_text(rendered_prompt(b), whole_line("Tool result: "@ + b.examples@[k].tool_result@))
                &&& contains_text(
                    rendered_prompt(b),
                    whole_line("Assistant after tool result: "@ + b.examples@[k].assistant_after_tool_result@),
                )
            },
{
    assert forall|k: int| 0 <= k < b.examples@.len() implies {
        &&& contains_text(rendered_prompt(b), whole_line("Example: "@ + (#[trigger] b.examples@[k]).name@))
        &&& contains_text(rendered_prompt(b), whole_line("User: "@ + b.examples@[k].user@))
        &&& contains_text(rendered_prompt(b), whole_line("Assistant: "@ + b.examples@[k].assistant@))
        &&& contains_text(rendered_prompt(b), whole_line("Tool result: "@ + b.examples@[k].tool_result@))
        &&& contains_text(
            rendered_prompt(b),
            whole_line("Assistant after tool result: "@ + b.examples@[k].assistant_after_tool_result@),
        )
    } by {
        lemma_prompt_example_line(b, k, 0);
        lemma_prompt_example_line(b, k, 1);
        lemma_prompt_example_line(b, k, 2);
        lemma_prompt_example_line(b, k, 3);
        lemma_prompt_example_line(b, k, 4);
    }
}

} // verus!
