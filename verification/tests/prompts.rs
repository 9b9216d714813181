use lean::prompts::{
    default_prompt_bundle, needs_default_prompt, PromptError, PromptStore, DEFAULT_PROMPT_NAME,
};

#[test]
fn rejects_invalid_prompt_name() {
    let store = PromptStore::with_prompts_dir("/tmp/prompt-invalid-name");

    let error = store
        .prompt_path("../secret")
        .expect_err("path traversal should fail");

    assert!(matches!(error, PromptError::InvalidPromptName { .. }));

    let error = store
        .prompt_path("team.default")
        .expect_err("dot-separated prompt names should fail");

    assert!(matches!(error, PromptError::InvalidPromptName { .. }));
}

#[test]
fn prompt_files_live_under_the_home_prompt_directory() {
    let store = PromptStore::from_home_dir("/home/dev");
    assert_eq!(store.prompts_dir(), "/home/dev/.lean/prompts");
    assert_eq!(
        store.prompt_path(DEFAULT_PROMPT_NAME),
        Ok("/home/dev/.lean/prompts/default.json".to_string())
    );
    assert!(needs_default_prompt("default", false));
    assert!(!needs_default_prompt("default", true));
    assert!(!needs_default_prompt("custom", false));

    assert_eq!(
        PromptStore::from_current_user(Some("   ")),
        Err(PromptError::HomeUnavailable)
    );
    assert_eq!(
        PromptStore::from_current_user(None),
        Err(PromptError::HomeUnavailable)
    );
    assert_eq!(
        PromptStore::from_current_user(Some("/root")).map(|s| s.prompts_dir().to_string()),
        Ok("/root/.lean/prompts".to_string())
    );
    assert_eq!(
        PromptError::HomeUnavailable.message(),
        "HOME is not set; cannot resolve ~/.lean/prompts"
    );
}

#[test]
fn default_prompt_bundle_is_valid_and_renders_every_section() {
    let bundle = default_prompt_bundle();
    assert_eq!(bundle.id, DEFAULT_PROMPT_NAME);
    assert_eq!(bundle.validate("default.json"), Ok(()));

    let rendered = bundle.render_system_prompt();
    assert!(rendered.starts_with("LEAN Default Coding Agent\n\nSystem Instructions\n- You are LEAN"));
    assert!(rendered.contains("Available Tools"));
    assert!(rendered.contains("read_file"));
    assert!(rendered.contains("\nTool Use Protocol\nFormat: single JSON object with a top-level tool_use field\n"));
    assert!(rendered.contains("\nExamples\nExample: Inspect a file before answering\n"));
    assert!(rendered.ends_with("Assistant after tool result: {\"tool_use\":{\"name\":\"read_file\",\"arguments\":{\"path\":\"src/main.rs\"}}}\n"));
}

#[test]
fn default_input_schemas_are_compact_json() {
    let bundle = default_prompt_bundle();
    for tool in &bundle.tools {
        let value: serde_json::Value =
            serde_json::from_str(&tool.input_schema).expect("schema should be JSON");
        assert!(value.is_object());
        assert_eq!(serde_json::to_string(&value).expect("schema should encode"), tool.input_schema);
    }
}

#[test]
fn rejects_prompt_bundle_with_duplicate_tools() {
    let mut bundle = default_prompt_bundle();
    bundle.tools.push(bundle.tools[0].clone());

    let error = bundle
        .validate("bad.json")
        .expect_err("duplicate tools should fail validation");

    assert_eq!(
        error,
        PromptError::Validation {
            path: "bad.json".to_string(),
            reason: "tools.name must be unique".to_string(),
        }
    );
    assert_eq!(error.message(), "prompt bad.json validation failed: tools.name must be unique");
}

#[test]
fn validation_names_the_first_failed_check() {
    let mut bundle = default_prompt_bundle();
    bundle.tools[1].input_schema = "[1,2]".to_string();
    assert_eq!(
        bundle.validate("p.json"),
        Err(PromptError::Validation {
            path: "p.json".to_string(),
            reason: "tools.input_schema must be a JSON object".to_string(),
        })
    );

    let mut bundle = default_prompt_bundle();
    bundle.schema_version = 2;
    bundle.title = String::new();
    assert_eq!(
        bundle.validate("p.json"),
        Err(PromptError::Validation {
            path: "p.json".to_string(),
            reason: "schema_version must be 1".to_string(),
        })
    );

    let mut bundle = default_prompt_bundle();
    bundle.system.push(" ".to_string());
    assert_eq!(
        bundle.validate_with_schema_shapes("p.json", &vec![true, true]),
        Err(PromptError::Validation {
            path: "p.json".to_string(),
            reason: "system entries must not be empty".to_string(),
        })
    );

    let mut bundle = default_prompt_bundle();
    bundle.tools[0].name = "read file".to_string();
    assert_eq!(
        bundle.validate_with_schema_shapes("p.json", &vec![true, true]),
        Err(PromptError::Validation {
            path: "p.json".to_string(),
            reason: "tools.name contains unsupported characters".to_string(),
        })
    );

    let mut bundle = default_prompt_bundle();
    bundle.examples[1].tool_result = "\t".to_string();
    assert_eq!(
        bundle.validate_with_schema_shapes("p.json", &vec![true, true]),
        Err(PromptError::Validation {
            path: "p.json".to_string(),
            reason: "examples.tool_result must not be empty".to_string(),
        })
    );
}

#[test]
fn rendered_prompt_keeps_headings_in_order_and_one_line_per_item() {
    let bundle = default_prompt_bundle();
    let rendered = bundle.render_system_prompt();
    let prefix = format!("{}\n\nSystem Instructions\n", bundle.title);
    assert!(rendered.starts_with(&prefix));
    let tools_at = rendered.find("\nAvailable Tools\n").expect("tools heading");
    let protocol_at = rendered.find("\nTool Use Protocol\n").expect("protocol heading");
    let examples_at = rendered.find("\nExamples\n").expect("examples heading");
    assert!(prefix.len() <= tools_at);
    assert!(tools_at < protocol_at && protocol_at < examples_at);
    for instruction in &bundle.system {
        assert!(rendered.contains(&format!("\n- {instruction}\n")), "{instruction}");
    }
    for tool in &bundle.tools {
        assert!(rendered.contains(&format!("\n- {}: {}\n", tool.name, tool.description)), "{}", tool.name);
    }
    assert_eq!(rendered, default_prompt_bundle().render_system_prompt());
}
