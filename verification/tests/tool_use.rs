use lean::json::{parse_json_document, JsonValue};
use lean::tool_use::{
    assistant_turn_from_document, parse_assistant_turn, AssistantTurn, ListDirectoryToolUse,
    ReadFileToolUse, ToolUseParseError, ToolUseRequest,
};

#[test]
fn parses_valid_read_file_tool_use() {
    let parsed = parse_assistant_turn(
        r#"{"tool_use":{"name":"read_file","arguments":{"path":"src/main.rs","start_line":2,"end_line":5}}}"#,
    )
    .expect("read_file tool use should parse");

    assert_eq!(
        parsed,
        AssistantTurn::ToolUse(ToolUseRequest::ReadFile(ReadFileToolUse {
            path: "src/main.rs".to_string(),
            start_line: Some(2),
            end_line: Some(5),
        }))
    );
}

#[test]
fn parses_valid_list_directory_tool_use() {
    let parsed = parse_assistant_turn(
        r#"{"tool_use":{"name":"list_directory","arguments":{"path":"src"}}}"#,
    )
    .expect("list_directory tool use should parse");

    let AssistantTurn::ToolUse(tool_use) = parsed else {
        panic!("assistant turn should be a tool use");
    };

    assert_eq!(tool_use.name(), "list_directory");
    assert_eq!(
        tool_use,
        ToolUseRequest::ListDirectory(ListDirectoryToolUse {
            path: "src".to_string(),
        })
    );
}

#[test]
fn rejects_unknown_tool_without_echoing_raw_name() {
    let error = parse_assistant_turn(
        r#"{"tool_use":{"name":"secret-token-write_file","arguments":{"path":"src/main.rs"}}}"#,
    )
    .expect_err("unknown tool should fail");

    assert_eq!(error, ToolUseParseError::UnknownTool);
    assert!(!error.message().contains("secret-token-write_file"));
}

#[test]
fn rejects_invalid_read_file_arguments() {
    let error = parse_assistant_turn(
        r#"{"tool_use":{"name":"read_file","arguments":{"path":"src/main.rs","start_line":0}}}"#,
    )
    .expect_err("zero line should fail");

    assert_eq!(
        error,
        ToolUseParseError::InvalidArguments {
            tool: "read_file",
            reason: "line ranges are 1-based",
        }
    );
}

#[test]
fn rejects_extra_argument_fields() {
    let error = parse_assistant_turn(
        r#"{"tool_use":{"name":"list_directory","arguments":{"path":"src","recursive":true}}}"#,
    )
    .expect_err("unknown argument should fail");

    assert_eq!(
        error,
        ToolUseParseError::InvalidArguments {
            tool: "list_directory",
            reason: "arguments must match list_directory schema",
        }
    );
}

#[test]
fn rejects_multiple_tool_use_requests() {
    let error = parse_assistant_turn(
        r#"{"tool_use":[{"name":"read_file","arguments":{"path":"src/main.rs"}},{"name":"list_directory","arguments":{"path":"src"}}]}"#,
    )
    .expect_err("multiple tool uses should fail");

    assert_eq!(error, ToolUseParseError::MultipleToolUses);
}

#[test]
fn rejects_malformed_tool_use_json_without_echoing_content() {
    let error = parse_assistant_turn(
        r#"{"tool_use":{"name":"read_file","arguments":{"path":"secret request body"}"#,
    )
    .expect_err("malformed tool-use JSON should fail");

    assert_eq!(
        error,
        ToolUseParseError::MalformedRequest {
            reason: "tool-use JSON is invalid",
        }
    );
    assert!(!error.message().contains("secret request body"));
}

#[test]
fn leaves_normal_final_answer_text_unchanged() {
    let answer = "\nDone. No tool needed.\n";

    let parsed = parse_assistant_turn(answer).expect("normal answer should parse");

    assert_eq!(parsed, AssistantTurn::FinalAnswer(answer.to_string()));
}

#[test]
fn leaves_non_tool_json_answers_unchanged() {
    let answer = r#"{"answer":"Done without tools."}"#;

    let parsed = AssistantTurn::parse(answer).expect("normal JSON answer should parse");

    assert_eq!(parsed, AssistantTurn::FinalAnswer(answer.to_string()));
}

#[test]
fn struct_forms_follow_serde_rules() {
    // The argument struct also reads from an array of its fields in order.
    let parsed = parse_assistant_turn(
        r#"{"tool_use":{"name":"read_file","arguments":["a.txt",null,3]}}"#,
    )
    .expect("array arguments should parse");
    assert_eq!(
        parsed,
        AssistantTurn::ToolUse(ToolUseRequest::ReadFile(ReadFileToolUse {
            path: "a.txt".to_string(),
            start_line: None,
            end_line: Some(3),
        }))
    );
    assert_eq!(
        parse_assistant_turn(r#"{"tool_use":["list_directory",{"path":"."}]}"#),
        Err(ToolUseParseError::MultipleToolUses)
    );
    let parsed = parse_assistant_turn(r#"{"tool_use":{"name":"list_directory","arguments":["src"]}}"#)
        .expect("single-element argument array should parse");
    assert_eq!(
        parsed,
        AssistantTurn::ToolUse(ToolUseRequest::ListDirectory(ListDirectoryToolUse {
            path: "src".to_string(),
        }))
    );
    assert_eq!(
        parse_assistant_turn(r#"{"tool_use":{"name":"read_file","arguments":{"path":"a","start_line":-1}}}"#),
        Err(ToolUseParseError::InvalidArguments {
            tool: "read_file",
            reason: "arguments must match read_file schema",
        })
    );
    assert_eq!(
        parse_assistant_turn(r#"{"tool_use":{"name":"read_file","arguments":{"path":"a","start_line":1.5}}}"#),
        Err(ToolUseParseError::InvalidArguments {
            tool: "read_file",
            reason: "arguments must match read_file schema",
        })
    );
    assert_eq!(
        parse_assistant_turn(r#"{"tool_use":{"name":"read_file","arguments":{"path":"a","start_line":3,"end_line":2}}}"#),
        Err(ToolUseParseError::InvalidArguments {
            tool: "read_file",
            reason: "start_line must be less than or equal to end_line",
        })
    );
    assert_eq!(
        parse_assistant_turn(r#"{"tool_use":{"name":"read_file","arguments":{"path":"  "}}}"#),
        Err(ToolUseParseError::InvalidArguments {
            tool: "read_file",
            reason: "path must not be empty",
        })
    );
    assert_eq!(
        parse_assistant_turn(r#"{"tool_use":{"name":"read_file"}}"#),
        Err(ToolUseParseError::MalformedRequest {
            reason: "tool_use must contain name and arguments",
        })
    );
    assert_eq!(
        parse_assistant_turn(r#"{"tool_use":{"name":"read_file","arguments":{"path":"a"}},"note":1}"#),
        Err(ToolUseParseError::MalformedRequest {
            reason: "tool-use object must contain only tool_use",
        })
    );
    assert_eq!(
        parse_assistant_turn(r#"[{"answer":1},{"tool_uses":[]}]"#),
        Err(ToolUseParseError::MultipleToolUses)
    );
    assert_eq!(
        parse_assistant_turn("[1, 2]"),
        Ok(AssistantTurn::FinalAnswer("[1, 2]".to_string()))
    );
}

#[test]
fn json_documents_are_read_node_for_node() {
    let doc = parse_json_document(r#"{"b":[1,-2,null,true],"a":"x"}"#).expect("valid JSON");
    match doc {
        JsonValue::Object(members) => {
            assert_eq!(members.len(), 2);
            assert_eq!(members[0].0, "a");
            assert_eq!(members[1].0, "b");
            match &members[1].1 {
                JsonValue::Array(items) => {
                    assert!(matches!(items[0], JsonValue::Number(Some(1))));
                    assert!(matches!(items[1], JsonValue::Number(None)));
                    assert!(matches!(items[2], JsonValue::Null));
                    assert!(matches!(items[3], JsonValue::Bool(true)));
                }
                other => panic!("expected an array, got {other:?}"),
            }
        }
        other => panic!("expected an object, got {other:?}"),
    }
    assert!(parse_json_document("{").is_none());
    assert!(matches!(
        assistant_turn_from_document("plain", None),
        Ok(AssistantTurn::FinalAnswer(_))
    ));
}
