//! Reading a model's reply: either a final answer, or exactly one request
//! for one of the read-only tools, in the JSON shape the prompt bundle asks
//! for. Errors never echo the raw reply.
use vstd::prelude::*;
use vstd::string::*;
use crate::json::{JsonValue, find_member, has_member, json_document, lemma_member_found, member, parse_json_document};
use crate::text::{contains_text, is_blank, str_contains, str_eq, str_is_blank, trim, trim_str};

verus! {

#[derive(Debug, Clone, PartialEq, Eq)]
pub enum AssistantTurn {
    FinalAnswer(String),
    ToolUse(ToolUseRequest),
}

#[derive(Debug, Clone, PartialEq, Eq)]
pub enum ToolUseRequest {
    ReadFile(ReadFileToolUse),
    ListDirectory(ListDirectoryToolUse),
}

#[derive(Debug, Clone, PartialEq, Eq)]
pub struct ReadFileToolUse {
    pub path: String,
    pub start_line: Option<usize>,
    pub end_line: Option<usize>,
}

#[derive(Debug, Clone, PartialEq, Eq)]
pub struct ListDirectoryToolUse {
    pub path: String,
}

#[derive(Debug, Clone, PartialEq, Eq)]
pub enum ToolUseParseError {
    MultipleToolUses,
    MalformedRequest { reason: &'static str },
    UnknownTool,
    InvalidArguments { tool: &'static str, reason: &'static str },
}

/// A tool request as plain values.
pub enum RequestView {
    ReadFile { path: Seq<char>, start_line: Option<usize>, end_line: Option<usize> },
    ListDirectory { path: Seq<char> },
}

/// An assistant turn as plain values.
pub enum TurnView {
    FinalAnswer(Seq<char>),
    ToolUse(RequestView),
}

/// A parse error as plain values.
pub enum ParseFailure {
    MultipleToolUses,
    Malformed(Seq<char>),
    UnknownTool,
    InvalidArguments(Seq<char>, Seq<char>),
}

impl View for ToolUseRequest {
    type V = RequestView;

    open spec fn view(&self) -> RequestView {
        match self {
            ToolUseRequest::ReadFile(r) => RequestView::ReadFile {
                path: r.path@,
                start_line: r.start_line,
                end_line: r.end_line,
            },
            ToolUseRequest::ListDirectory(l) => RequestView::ListDirectory { path: l.path@ },
        }
    }
}

impl View for AssistantTurn {
    type V = TurnView;

    open spec fn view(&self) -> TurnView {
        match self {
            AssistantTurn::FinalAnswer(s) => TurnView::FinalAnswer(s@),
            AssistantTurn::ToolUse(r) => TurnView::ToolUse(r@),
        }
    }
}

impl View for ToolUseParseError {
    type V = ParseFailure;

    open spec fn view(&self) -> ParseFailure {
        match self {
            ToolUseParseError::MultipleToolUses => ParseFailure::MultipleToolUses,
            ToolUseParseError::MalformedRequest { reason } => ParseFailure::Malformed(reason@),
            ToolUseParseError::UnknownTool => ParseFailure::UnknownTool,
            ToolUseParseError::InvalidArguments { tool, reason } => ParseFailure::InvalidArguments(
                tool@,
                reason@,
            ),
        }
    }
}

/// The text of a JSON string value.
pub open spec fn string_value(v: JsonValue) -> Option<Seq<char>> {
    match v {
        JsonValue::String(s) => Some(s@),
        _ => None,
    }
}

/// A JSON value read as a `usize`: a non-negative integer that fits.
pub open spec fn usize_value(v: JsonValue) -> Option<usize> {
    match v {
        JsonValue::Number(Some(n)) => if n <= usize::MAX {
            Some(n as usize)
        } else {
            None
        },
        _ => None,
    }
}

/// An optional `usize` field: absent and `null` give `None`; anything but a
/// fitting non-negative integer is an error.
pub open spec fn optional_usize(v: Option<JsonValue>) -> Result<Option<usize>, ()> {
    match v {
        None => Ok(None),
        Some(JsonValue::Null) => Ok(None),
        Some(x) => match usize_value(x) {
            Some(n) => Ok(Some(n)),
            None => Err(()),
        },
    }
}

/// Every member of an object is one of the three named fields.
pub open spec fn keys_among(members: Seq<(String, JsonValue)>, a: Seq<char>, b: Seq<char>, c: Seq<char>) -> bool {
    forall|i: int|
        0 <= i < members.len() ==> {
            let k = (#[trigger] members[i]).0@;
            k == a || k == b || k == c
        }
}

/// The `{name, arguments}` record of a tool request, as a struct with these
/// two fields (unknown fields refused) reads it from an object or from a
/// two-element array.
pub open spec fn raw_tool_use(v: JsonValue) -> Option<(Seq<char>, JsonValue)> {
    match v {
        JsonValue::Object(ms) => {
            let name = member(ms@, "name"@);
            let arguments = member(ms@, "arguments"@);
            if keys_among(ms@, "name"@, "arguments"@, "arguments"@) && name is Some && string_value(
                name->Some_0,
            ) is Some && arguments is Some {
                Some((string_value(name->Some_0)->Some_0, arguments->Some_0))
            } else {
                None
            }
        },
        JsonValue::Array(items) => {
            if items@.len() == 2 && string_value(items@[0]) is Some {
                Some((string_value(items@[0])->Some_0, items@[1]))
            } else {
                None
            }
        },
        _ => None,
    }
}

/// The `read_file` arguments `{path, start_line?, end_line?}`, from an object
/// (unknown fields refused) or from an array of one to three elements.
pub open spec fn read_file_arguments(v: JsonValue) -> Option<(Seq<char>, Option<usize>, Option<usize>)> {
    match v {
        JsonValue::Object(ms) => {
            let path = member(ms@, "path"@);
            let start = optional_usize(member(ms@, "start_line"@));
            let end = optional_usize(member(ms@, "end_line"@));
            if keys_among(ms@, "path"@, "start_line"@, "end_line"@) && path is Some && string_value(
                path->Some_0,
            ) is Some && start is Ok && end is Ok {
                Some((string_value(path->Some_0)->Some_0, start->Ok_0, end->Ok_0))
            } else {
                None
            }
        },
        JsonValue::Array(items) => {
            let n = items@.len();
            let start = if n >= 2 { optional_usize(Some(items@[1])) } else { Ok(None) };
            let end = if n >= 3 { optional_usize(Some(items@[2])) } else { Ok(None) };
            if 1 <= n <= 3 && string_value(items@[0]) is Some && start is Ok && end is Ok {
                Some((string_value(items@[0])->Some_0, start->Ok_0, end->Ok_0))
            } else {
                None
            }
        },
        _ => None,
    }
}

/// The `list_directory` arguments `{path}`, from an object (unknown fields
/// refused) or from a one-element array.
pub open spec fn list_directory_arguments(v: JsonValue) -> Option<Seq<char>> {
    match v {
        JsonValue::Object(ms) => {
            let path = member(ms@, "path"@);
            if keys_among(ms@, "path"@, "path"@, "path"@) && path is Some && string_value(
                path->Some_0,
            ) is Some {
                string_value(path->Some_0)
            } else {
                None
            }
        },
        JsonValue::Array(items) => {
            if items@.len() == 1 {
                string_value(items@[0])
            } else {
                None
            }
        },
        _ => None,
    }
}

/// The checks on a read range: lines are 1-based and the start is not after
/// the end.
pub open spec fn line_range_failure(start: Option<usize>, end: Option<usize>) -> Option<Seq<char>> {
    if start == Some(0usize) || end == Some(0usize) {
        Some("line ranges are 1-based"@)
    } else if start is Some && end is Some && start->Some_0 > end->Some_0 {
        Some("start_line must be less than or equal to end_line"@)
    } else {
        None
    }
}

/// What a `tool_use` value asks for, or why it is refused.
pub open spec fn tool_use_request(v: JsonValue) -> Result<RequestView, ParseFailure> {
    match raw_tool_use(v) {
        None => Err(ParseFailure::Malformed("tool_use must contain name and arguments"@)),
        Some((name, arguments)) => {
            if name == "read_file"@ {
                match read_file_arguments(arguments) {
                    None => Err(
                        ParseFailure::InvalidArguments(
                            "read_file"@,
                            "arguments must match read_file schema"@,
                        ),
                    ),
                    Some((path, start, end)) => {
                        if is_blank(path) {
                            Err(ParseFailure::InvalidArguments("read_file"@, "path must not be empty"@))
                        } else if line_range_failure(start, end) is Some {
                            Err(
                                ParseFailure::InvalidArguments(
                                    "read_file"@,
                                    line_range_failure(start, end)->Some_0,
                                ),
                            )
                        } else {
                            Ok(RequestView::ReadFile { path, start_line: start, end_line: end })
                        }
                    },
                }
            } else if name == "list_directory"@ {
                match list_directory_arguments(arguments) {
                    None => Err(
                        ParseFailure::InvalidArguments(
                            "list_directory"@,
                            "arguments must match list_directory schema"@,
                        ),
                    ),
                    Some(path) => {
                        if is_blank(path) {
                            Err(
                                ParseFailure::InvalidArguments(
                                    "list_directory"@,
                                    "path must not be empty"@,
                                ),
                            )
                        } else {
                            Ok(RequestView::ListDirectory { path })
                        }
                    },
                }
            } else {
                Err(ParseFailure::UnknownTool)
            }
        },
    }
}

/// An object that names `tool_use` or `tool_uses`.
pub open spec fn mentions_tool_use(v: JsonValue) -> bool {
    match v {
        JsonValue::Object(ms) => has_member(ms@, "tool_use"@) || has_member(ms@, "tool_uses"@),
        _ => false,
    }
}

/// What a JSON reply asks for: no tool (`None`), one tool, or an error.
pub open spec fn json_turn(v: JsonValue) -> Result<Option<RequestView>, ParseFailure> {
    match v {
        JsonValue::Object(ms) => {
            if has_member(ms@, "tool_uses"@) {
                Err(ParseFailure::MultipleToolUses)
            } else {
                match member(ms@, "tool_use"@) {
                    None => Ok(None),
                    Some(t) => {
                        if t is Array {
                            Err(ParseFailure::MultipleToolUses)
                        } else if ms@.len() != 1 {
                            Err(ParseFailure::Malformed("tool-use object must contain only tool_use"@))
                        } else {
                            match tool_use_request(t) {
                                Ok(r) => Ok(Some(r)),
                                Err(e) => Err(e),
                            }
                        }
                    },
                }
            }
        },
        JsonValue::Array(items) => {
            if exists|i: int| 0 <= i < items@.len() && mentions_tool_use(#[trigger] items@[i]) {
                Err(ParseFailure::MultipleToolUses)
            } else {
                Ok(None)
            }
        },
        _ => Ok(None),
    }
}

/// Text that starts like JSON and mentions `tool_use`.
pub open spec fn looks_like_tool_use(t: Seq<char>) -> bool {
    t.len() > 0 && (t[0] == '{' || t[0] == '[') && contains_text(t, "tool_use"@)
}

/// The reading of a reply `text` whose trimmed form parsed to `document`.
pub open spec fn assistant_turn(text: Seq<char>, document: Option<JsonValue>) -> Result<TurnView, ParseFailure> {
    match document {
        Some(v) => match json_turn(v) {
            Ok(Some(r)) => Ok(TurnView::ToolUse(r)),
            Ok(None) => Ok(TurnView::FinalAnswer(text)),
            Err(e) => Err(e),
        },
        None => if looks_like_tool_use(trim(text)) {
            Err(ParseFailure::Malformed("tool-use JSON is invalid"@))
        } else {
            Ok(TurnView::FinalAnswer(text))
        },
    }
}

/// The plain-value reading of a parse result.
pub open spec fn turn_result_view(r: Result<AssistantTurn, ToolUseParseError>) -> Result<TurnView, ParseFailure> {
    match r {
        Ok(t) => Ok(t@),
        Err(e) => Err(e@),
    }
}

fn string_of(v: &JsonValue) -> (r: Option<String>)
    ensures
        match r {
            Some(s) => string_value(*v) == Some(s@),
            None => string_value(*v) is None,
        },
{
    match v {
        JsonValue::String(s) => Some(s.clone()),
        _ => None,
    }
}

fn optional_usize_of(v: Option<&JsonValue>) -> (r: Result<Option<usize>, ()>)
    ensures
        r == optional_usize(
            match v {
                Some(x) => Some(*x),
                None => None,
            },
        ),
{
    match v {
        None => Ok(None),
        Some(JsonValue::Null) => Ok(None),
        Some(JsonValue::Number(Some(n))) => {
            if *n <= usize::MAX as u64 {
                Ok(Some(*n as usize))
            } else {
                Err(())
            }
        },
        Some(_) => Err(()),
    }
}

fn keys_among_exec(members: &Vec<(String, JsonValue)>, a: &str, b: &str, c: &str) -> (r: bool)
    ensures
        r == keys_among(members@, a@, b@, c@),
{
    let n = members.len();
    let mut i: usize = 0;
    while i < n
        invariant
            n == members@.len(),
            i <= n,
            forall|k: int|
                0 <= k < i ==> {
                    let key = (#[trigger] members@[k]).0@;
                    key == a@ || key == b@ || key == c@
                },
        decreases n - i,
    {
        let k = members[i].0.as_str();
        if !(str_eq(k, a) || str_eq(k, b) || str_eq(k, c)) {
            return false;
        }
        i = i + 1;
    }
    true
}

fn raw_tool_use_of(v: &JsonValue) -> (r: Option<(String, &JsonValue)>)
    ensures
        match r {
            Some((name, arguments)) => raw_tool_use(*v) == Some((name@, *arguments)),
            None => raw_tool_use(*v) is None,
        },
{
    match v {
        JsonValue::Object(ms) => {
            if !keys_among_exec(ms, "name", "arguments", "arguments") {
                return None;
            }
            let name = match find_member(ms, "name") {
                Some(x) => match string_of(x) {
                    Some(s) => s,
                    None => {
                        return None;
                    },
                },
                None => {
                    return None;
                },
            };
            match find_member(ms, "arguments") {
                Some(a) => Some((name, a)),
                None => None,
            }
        },
        JsonValue::Array(items) => {
            if items.len() != 2 {
                return None;
            }
            match string_of(&items[0]) {
                Some(s) => Some((s, &items[1])),
                None => None,
            }
        },
        _ => None,
    }
}

fn read_file_arguments_of(v: &JsonValue) -> (r: Option<(String, Option<usize>, Option<usize>)>)
    ensures
        match r {
            Some((path, start, end)) => read_file_arguments(*v) == Some((path@, start, end)),
            None => read_file_arguments(*v) is None,
        },
{
    match v {
        JsonValue::Object(ms) => {
            if !keys_among_exec(ms, "path", "start_line", "end_line") {
                return None;
            }
            let path = match find_member(ms, "path") {
                Some(x) => match string_of(x) {
                    Some(s) => s,
                    None => {
                        return None;
                    },
                },
                None => {
                    return None;
                },
            };
            let start = match optional_usize_of(find_member(ms, "start_line")) {
                Ok(s) => s,
                Err(()) => {
                    return None;
                },
            };
            let end = match optional_usize_of(find_member(ms, "end_line")) {
                Ok(e) => e,
                Err(()) => {
                    return None;
                },
            };
            Some((path, start, end))
        },
        JsonValue::Array(items) => {
            let n = items.len();
            if n < 1 || n > 3 {
                return None;
            }
            let path = match string_of(&items[0]) {
                Some(s) => s,
                None => {
                    return None;
                },
            };
            let start = if n >= 2 {
                match optional_usize_of(Some(&items[1])) {
                    Ok(s) => s,
                    Err(()) => {
                        return None;
                    },
                }
            } else {
                None
            };
            let end = if n >= 3 {
                match optional_usize_of(Some(&items[2])) {
                    Ok(e) => e,
                    Err(()) => {
                        return None;
                    },
                }
            } else {
                None
            };
            Some((path, start, end))
        },
        _ => None,
    }
}

fn list_directory_arguments_of(v: &JsonValue) -> (r: Option<String>)
    ensures
        match r {
            Some(path) => list_directory_arguments(*v) == Some(path@),
            None => list_directory_arguments(*v) is None,
        },
{
    match v {
        JsonValue::Object(ms) => {
            if !keys_among_exec(ms, "path", "path", "path") {
                return None;
            }
            match find_member(ms, "path") {
                Some(x) => string_of(x),
                None => None,
            }
        },
        JsonValue::Array(items) => {
            if items.len() != 1 {
                return None;
            }
            string_of(&items[0])
        },
        _ => None,
    }
}

fn line_range_check(start: Option<usize>, end: Option<usize>) -> (r: Option<&'static str>)
    ensures
        match r {
            Some(reason) => line_range_failure(start, end) == Some(reason@),
            None => line_range_failure(start, end) is None,
        },
{
    if start == Some(0usize) || end == Some(0usize) {
        return Some("line ranges are 1-based");
    }
    match (start, end) {
        (Some(s), Some(e)) => {
            if s > e {
                return Some("start_line must be less than or equal to end_line");
            }
        },
        _ => {},
    }
    None
}

/// Reads a `tool_use` value (see `tool_use_request`).
pub fn parse_tool_use(v: &JsonValue) -> (r: Result<ToolUseRequest, ToolUseParseError>)
    ensures
        match r {
            Ok(q) => tool_use_request(*v) == Ok::<RequestView, ParseFailure>(q@),
            Err(e) => tool_use_request(*v) == Err::<RequestView, ParseFailure>(e@),
        },
{
    let (name, arguments) = match raw_tool_use_of(v) {
        Some(x) => x,
        None => {
            return Err(
                ToolUseParseError::MalformedRequest {
                    reason: "tool_use must contain name and arguments",
                },
            );
        },
    };
    if str_eq(name.as_str(), "read_file") {
        let (path, start, end) = match read_file_arguments_of(arguments) {
            Some(x) => x,
            None => {
                return Err(
                    ToolUseParseError::InvalidArguments {
                        tool: "read_file",
                        reason: "arguments must match read_file schema",
                    },
                );
            },
        };
        if str_is_blank(path.as_str()) {
            return Err(
                ToolUseParseError::InvalidArguments {
                    tool: "read_file",
                    reason: "path must not be empty",
                },
            );
        }
        match line_range_check(start, end) {
            Some(reason) => {
                return Err(ToolUseParseError::InvalidArguments { tool: "read_file", reason });
            },
            None => {},
        }
        Ok(ToolUseRequest::ReadFile(ReadFileToolUse { path, start_line: start, end_line: end }))
    } else if str_eq(name.as_str(), "list_directory") {
        let path = match list_directory_arguments_of(arguments) {
            Some(p) => p,
            None => {
                return Err(
                    ToolUseParseError::InvalidArguments {
                        tool: "list_directory",
                        reason: "arguments must match list_directory schema",
                    },
                );
            },
        };
        if str_is_blank(path.as_str()) {
            return Err(
                ToolUseParseError::InvalidArguments {
                    tool: "list_directory",
                    reason: "path must not be empty",
                },
            );
        }
        Ok(ToolUseRequest::ListDirectory(ListDirectoryToolUse { path }))
    } else {
        Err(ToolUseParseError::UnknownTool)
    }
}

fn mentions_tool_use_exec(v: &JsonValue) -> (b: bool)
    ensures
        b == mentions_tool_use(*v),
{
    match v {
        JsonValue::Object(ms) => {
            proof {
                lemma_member_found(ms@, "tool_use"@);
                lemma_member_found(ms@, "tool_uses"@);
            }
            find_member(ms, "tool_use").is_some() || find_member(ms, "tool_uses").is_some()
        },
        _ => false,
    }
}

/// Reads a parsed JSON reply (see `json_turn`).
pub fn parse_json_assistant_turn(v: &JsonValue) -> (r: Result<Option<ToolUseRequest>, ToolUseParseError>)
    ensures
        match r {
            Ok(Some(q)) => json_turn(*v) == Ok::<Option<RequestView>, ParseFailure>(Some(q@)),
            Ok(None) => json_turn(*v) == Ok::<Option<RequestView>, ParseFailure>(None),
            Err(e) => json_turn(*v) == Err::<Option<RequestView>, ParseFailure>(e@),
        },
{
    match v {
        JsonValue::Object(ms) => {
            proof {
                lemma_member_found(ms@, "tool_uses"@);
            }
            if find_member(ms, "tool_uses").is_some() {
                return Err(ToolUseParseError::MultipleToolUses);
            }
            let t = match find_member(ms, "tool_use") {
                Some(t) => t,
                None => {
                    return Ok(None);
                },
            };
            if t matches JsonValue::Array(_) {
                return Err(ToolUseParseError::MultipleToolUses);
            }
            if ms.len() != 1 {
                return Err(
                    ToolUseParseError::MalformedRequest {
                        reason: "tool-use object must contain only tool_use",
                    },
                );
            }
            match parse_tool_use(t) {
                Ok(q) => Ok(Some(q)),
                Err(e) => Err(e),
            }
        },
        JsonValue::Array(items) => {
            let n = items.len();
            let mut i: usize = 0;
            while i < n
                invariant
                    n == items@.len(),
                    *v == JsonValue::Array(*items),
                    i <= n,
                    forall|k: int| 0 <= k < i ==> !mentions_tool_use(#[trigger] items@[k]),
                decreases n - i,
            {
                if mentions_tool_use_exec(&items[i]) {
                    assert(mentions_tool_use(items@[i as int]));
                    assert(exists|k: int| 0 <= k < items@.len() && mentions_tool_use(#[trigger] items@[k]));
                    assert(*v is Array);
                    assert(v->Array_0@ == items@);
                    assert(json_turn(*v) == Err::<Option<RequestView>, ParseFailure>(ParseFailure::MultipleToolUses));
                    return Err(ToolUseParseError::MultipleToolUses);
                }
                i = i + 1;
            }
            Ok(None)
        },
        _ => Ok(None),
    }
}

/// Whether the trimmed reply starts like JSON and mentions `tool_use`.
fn looks_like_tool_use_exec(t: &str) -> (b: bool)
    ensures
        b == looks_like_tool_use(t@),
{
    let n = t.unicode_len();
    if n == 0 {
        return false;
    }
    let c = t.get_char(0);
    (c == '{' || c == '[') && str_contains(t, "tool_use")
}

/// Reads a reply whose trimmed text parsed to `document` (see `assistant_turn`).
pub fn assistant_turn_from_document(text: &str, document: Option<JsonValue>) -> (r: Result<
    AssistantTurn,
    ToolUseParseError,
>)
    ensures
        turn_result_view(r) == assistant_turn(text@, document),
{
    match document {
        Some(v) => match parse_json_assistant_turn(&v) {
            Ok(Some(q)) => Ok(AssistantTurn::ToolUse(q)),
            Ok(None) => Ok(AssistantTurn::FinalAnswer(text.to_owned())),
            Err(e) => Err(e),
        },
        None => {
            if looks_like_tool_use_exec(trim_str(text)) {
                Err(ToolUseParseError::MalformedRequest { reason: "tool-use JSON is invalid" })
            } else {
                Ok(AssistantTurn::FinalAnswer(text.to_owned()))
            }
        },
    }
}

/// Reads a model reply: its trimmed text is parsed as JSON, and the reply is
/// a final answer (the text unchanged), one tool request, or an error.
pub fn parse_assistant_turn(text: &str) -> (r: Result<AssistantTurn, ToolUseParseError>)
    ensures
        turn_result_view(r) == assistant_turn(text@, json_document(trim(text@))),
{
    let document = parse_json_document(trim_str(text));
    assistant_turn_from_document(text, document)
}

impl AssistantTurn {
    /// Reads a model reply (see `parse_assistant_turn`).
    pub fn parse(text: &str) -> (r: Result<AssistantTurn, ToolUseParseError>)
        ensures
            turn_result_view(r) == assistant_turn(text@, json_document(trim(text@))),
    {
        parse_assistant_turn(text)
    }
}

impl ToolUseRequest {
    /// The name of the requested tool.
    pub fn name(&self) -> (n: &'static str)
        ensures
            n@ == (match self {
                ToolUseRequest::ReadFile(_) => "read_file"@,
                ToolUseRequest::ListDirectory(_) => "list_directory"@,
            }),
    {
        match self {
            ToolUseRequest::ReadFile(_) => "read_file",
            ToolUseRequest::ListDirectory(_) => "list_directory",
        }
    }
}

/// The message of a parse error, as it is shown to the user.
pub open spec fn parse_error_text(e: ParseFailure) -> Seq<char> {
    match e {
        ParseFailure::MultipleToolUses => "assistant requested multiple tool uses; exactly one is supported"@,
        ParseFailure::Malformed(reason) => "malformed tool-use request: "@ + reason,
        ParseFailure::UnknownTool => "unknown tool requested"@,
        ParseFailure::InvalidArguments(tool, reason) => "invalid arguments for tool "@ + tool + ": "@
            + reason,
    }
}

impl ToolUseParseError {
    /// The error's message, as it is shown to the user.
    pub fn message(&self) -> (text: String)
        ensures
            text@ == parse_error_text(self@),
    {
        match self {
            ToolUseParseError::MultipleToolUses => "assistant requested multiple tool uses; exactly one is supported".to_owned(),
            ToolUseParseError::MalformedRequest { reason } => {
                let mut t = "malformed tool-use request: ".to_owned();
                t.append(reason);
                t
            },
            ToolUseParseError::UnknownTool => "unknown tool requested".to_owned(),
            ToolUseParseError::InvalidArguments { tool, reason } => {
                let mut t = "invalid arguments for tool ".to_owned();
                t.append(tool);
                t.append(": ");
                t.append(reason);
                t
            },
        }
    }
}

/// The fixed texts that parse errors carry: an error never holds any part
/// of the reply.
pub open spec fn static_failure(e: ParseFailure) -> bool {
    match e {
        ParseFailure::MultipleToolUses => true,
        ParseFailure::UnknownTool => true,
        ParseFailure::Malformed(r) => r == "tool_use must contain name and arguments"@ || r
            == "tool-use object must contain only tool_use"@ || r == "tool-use JSON is invalid"@,
        ParseFailure::InvalidArguments(t, r) => (t == "read_file"@ && (r
            == "arguments must match read_file schema"@ || r == "path must not be empty"@ || r
            == "line ranges are 1-based"@ || r == "start_line must be less than or equal to end_line"@))
            || (t == "list_directory"@ && (r == "arguments must match list_directory schema"@ || r
            == "path must not be empty"@)),
    }
}

/// Whatever the reply, a refused reply is refused with fixed texts only.
pub proof fn lemma_parse_errors_never_echo(text: Seq<char>, document: Option<JsonValue>)
    ensures
        assistant_turn(text, document) is Err ==> static_failure(
            assistant_turn(text, document)->Err_0,
        ),
{
}

/// A reply read as a final answer is the reply text, unchanged.
pub proof fn lemma_final_answer_unchanged(text: Seq<char>, document: Option<JsonValue>)
    ensures
        assistant_turn(text, document) matches Ok(TurnView::FinalAnswer(t)) ==> t == text,
{
}

/// The line range of a `read_file` request with a non-blank path and 1-based
/// lines: the request is refused for its range only when both lines are given
/// and the start is after the end; otherwise (an open range, or a start not
/// after the end, such as a start equal to the end for one line) it is
/// accepted exactly as asked.
pub proof fn lemma_read_file_line_ranges(
    v: JsonValue,
    arguments: JsonValue,
    path: Seq<char>,
    start: Option<usize>,
    end: Option<usize>,
)
    requires
        raw_tool_use(v) == Some(("read_file"@, arguments)),
        read_file_arguments(arguments) == Some((path, start, end)),
        !is_blank(path),
        start != Some(0usize),
        end != Some(0usize),
    ensures
        (start matches Some(s) && end matches Some(e) && s > e) ==> tool_use_request(v) == Err::<
            RequestView,
            ParseFailure,
        >(ParseFailure::InvalidArguments("read_file"@, "start_line must be less than or equal to end_line"@)),
        !(start matches Some(s) && end matches Some(e) && s > e) ==> tool_use_request(v) == Ok::<
            RequestView,
            ParseFailure,
        >(RequestView::ReadFile { path, start_line: start, end_line: end }),
{
}

} // verus!
