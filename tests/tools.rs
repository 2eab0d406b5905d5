use localwork::{extract_text_content, format_tools_for_prompt, get_file_tools, parse_tool_calls};

#[test]
fn test_parse_single_tool_call() {
    let text = r#"Let me list the files for you.
<tool_call>{"name": "list_files", "arguments": {"path": "/tmp/test"}}</tool_call>"#;

    let calls = parse_tool_calls(text);
    assert_eq!(calls.len(), 1);
    assert_eq!(calls[0].name, "list_files");
    assert_eq!(calls[0].arguments.get("path").unwrap(), "/tmp/test");
}

#[test]
fn test_parse_multiple_tool_calls() {
    let text = r#"I'll read both files.
<tool_call>{"name": "read_file", "arguments": {"path": "/tmp/a.txt"}}</tool_call>
<tool_call>{"name": "read_file", "arguments": {"path": "/tmp/b.txt"}}</tool_call>"#;

    let calls = parse_tool_calls(text);
    assert_eq!(calls.len(), 2);
    assert_eq!(calls[0].arguments.get("path").unwrap(), "/tmp/a.txt");
    assert_eq!(calls[1].arguments.get("path").unwrap(), "/tmp/b.txt");
}

#[test]
fn test_parse_no_tool_calls() {
    let text = "This is just a regular response with no tools.";
    let calls = parse_tool_calls(text);
    assert_eq!(calls.len(), 0);
}

#[test]
fn test_extract_text_content() {
    let text = r#"Let me list those files.
<tool_call>{"name": "list_files", "arguments": {"path": "/tmp"}}</tool_call>
Here are the results."#;

    let content = extract_text_content(text);
    assert_eq!(content, "Let me list those files.\n\nHere are the results.");
}

#[test]
fn test_format_tools_for_prompt() {
    let prompt = format_tools_for_prompt();
    assert!(prompt.contains("list_files"));
    assert!(prompt.contains("read_file"));
    assert!(prompt.contains("write_file"));
    assert!(prompt.contains("<tool_call>"));
}

#[test]
fn no_blocks_leaves_prose_trimmed() {
    let text = "  \n plain answer, no tools \t\n";
    assert!(parse_tool_calls(text).is_empty());
    assert_eq!(extract_text_content(text), "plain answer, no tools");
}

#[test]
fn two_blocks_in_order_with_ids() {
    let text = "  Before <tool_call>{\"name\": \"read_file\", \"arguments\": {\"path\": \"/x\"}}</tool_call> middle <tool_call> {\"name\": \"move_file\", \"arguments\": {\"src\": \"/a\", \"dest\": \"/b\"}} </tool_call> after  ";
    let calls = parse_tool_calls(text);
    assert_eq!(calls.len(), 2);
    assert_eq!(calls[0].id, "call_0");
    assert_eq!(calls[1].id, "call_1");
    assert_eq!(calls[0].name, "read_file");
    assert_eq!(calls[1].name, "move_file");
    assert_eq!(calls[0].arguments.get("path").unwrap(), "/x");
    assert_eq!(calls[1].arguments.get("src").unwrap(), "/a");
    assert_eq!(calls[1].arguments.get("dest").unwrap(), "/b");
    assert!(calls[0].result.is_none());
    assert_eq!(extract_text_content(text), "Before  middle  after");
}

#[test]
fn malformed_blocks_are_skipped_and_numbering_continues() {
    let text = "<tool_call>not json</tool_call><tool_call>{\"arguments\": {}}</tool_call><tool_call>{\"name\": 3, \"arguments\": {}}</tool_call><tool_call>{\"name\": \"delete_file\", \"arguments\": {\"path\": \"/d\"}}</tool_call>";
    let calls = parse_tool_calls(text);
    assert_eq!(calls.len(), 1);
    assert_eq!(calls[0].id, "call_0");
    assert_eq!(calls[0].name, "delete_file");
    assert_eq!(extract_text_content(text), "");
}

#[test]
fn unterminated_block_stops_the_scan() {
    let text = "a <tool_call>{\"name\": \"read_file\", \"arguments\": {\"path\": \"/1\"}}</tool_call> b <tool_call>{\"name\": \"read_file\", \"arguments\": {}} c";
    let calls = parse_tool_calls(text);
    assert_eq!(calls.len(), 1);
    assert_eq!(calls[0].arguments.get("path").unwrap(), "/1");
    assert_eq!(
        extract_text_content(text),
        "a  b <tool_call>{\"name\": \"read_file\", \"arguments\": {}} c"
    );
}

#[test]
fn ids_count_past_nine() {
    let block = "<tool_call>{\"name\": \"list_files\", \"arguments\": {\"path\": \"/\"}}</tool_call>";
    let text = block.repeat(12);
    let calls = parse_tool_calls(&text);
    assert_eq!(calls.len(), 12);
    assert_eq!(calls[10].id, "call_10");
    assert_eq!(calls[11].id, "call_11");
}

#[test]
fn unicode_prose_survives_extraction() {
    let text = "\u{3000}héllo <tool_call>{\"name\": \"x\", \"arguments\": {}}</tool_call>wörld\u{a0}";
    assert_eq!(extract_text_content(text), "héllo wörld");
    assert_eq!(parse_tool_calls(text)[0].name, "x");
}

#[test]
fn catalog_lists_six_tools_with_schemas() {
    let tools = get_file_tools();
    let names: Vec<&str> = tools.iter().map(|t| t.name.as_str()).collect();
    assert_eq!(
        names,
        vec!["list_files", "read_file", "write_file", "create_file", "delete_file", "move_file"]
    );
    assert_eq!(tools[5].description, "Move or rename a file");
    let params = &tools[5].parameters;
    assert_eq!(params.get("type").unwrap(), "object");
    assert_eq!(params["properties"]["src"]["type"], "string");
    assert_eq!(params["properties"]["dest"]["description"], "Absolute path for the destination");
    assert_eq!(params["required"][0], "src");
    assert_eq!(params["required"][1], "dest");
    assert_eq!(tools[2].parameters["required"].as_array().unwrap().len(), 2);
}

#[test]
fn prompt_embeds_pretty_catalog() {
    let prompt = format_tools_for_prompt();
    assert!(prompt.starts_with(
        "You have access to the following tools to help users with file operations:\n\n["
    ));
    assert!(prompt.contains("\"name\": \"move_file\""));
    assert!(prompt.contains("\"description\": \"Delete a file\""));
    assert!(prompt.ends_with("along with your tool calls."));
}

#[test]
fn blocks_formed_by_a_cut_are_cut_too() {
    let text = "<tool_<tool_call>x</tool_call>call><tool_call>y</tool_call></tool_call>";
    let once = extract_text_content(text);
    assert_eq!(once, "</tool_call>");
    assert_eq!(extract_text_content(&once), once);
    let joined = "a <tool_<tool_call>{}</tool_call>call>{\"name\": \"x\"}</tool_call> b";
    assert_eq!(extract_text_content(joined), "a  b");
}

#[test]
fn catalog_requires_each_parameter() {
    let tools = get_file_tools();
    let expected: Vec<Vec<&str>> = vec![
        vec!["path"],
        vec!["path"],
        vec!["path", "content"],
        vec!["path", "content"],
        vec!["path"],
        vec!["src", "dest"],
    ];
    for (tool, names) in tools.iter().zip(expected.iter()) {
        let required: Vec<&str> = tool.parameters["required"]
            .as_array()
            .unwrap()
            .iter()
            .map(|v| v.as_str().unwrap())
            .collect();
        assert_eq!(&required, names);
        for name in names {
            assert_eq!(tool.parameters["properties"][*name]["type"], "string");
        }
    }
    assert_eq!(
        tools[0].parameters["properties"]["path"]["description"],
        "Absolute path to the directory to list"
    );
}

#[test]
fn catalog_is_the_same_on_every_call() {
    let a = get_file_tools();
    let b = get_file_tools();
    assert_eq!(a.len(), b.len());
    for (x, y) in a.iter().zip(b.iter()) {
        assert_eq!(x.name, y.name);
        assert_eq!(x.description, y.description);
        assert_eq!(x.parameters, y.parameters);
        assert_eq!(x.parameters.as_object().unwrap().len(), 3);
    }
    assert_eq!(format_tools_for_prompt(), format_tools_for_prompt());
}
