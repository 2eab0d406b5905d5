use localwork::agent::AgentLoop;
use localwork::prompt::{chat_prompt_text, ends_turn};
use localwork::text::trim_text;
use localwork::{
    authorize, begin_tool, check_new_target, parse_tool_calls, plan_tool, render_result, FileError,
    FileInfo, FileOutput, FileRequest, InferenceError, Message, PermissionStore, MAX_ITERATIONS,
};

fn store_with(path: &str) -> PermissionStore {
    let mut store = PermissionStore::new();
    store.add(path.to_string());
    store
}

fn one_call(text: &str) -> localwork::ToolCall {
    let mut calls = parse_tool_calls(text);
    assert_eq!(calls.len(), 1);
    calls.remove(0)
}

fn denial_of(r: Result<(), FileError>) -> String {
    match r {
        Err(e @ FileError::AccessDenied(_)) => e.message(),
        _ => panic!("expected a denial"),
    }
}

#[test]
fn gate_denies_each_operation_outside_grants() {
    let store = PermissionStore::new();
    let list = authorize(&store, &FileRequest::List { path: "/tmp/some-path".to_string() });
    assert!(denial_of(list).contains("Access denied"));
    let read = authorize(&store, &FileRequest::Read { path: "/etc/passwd".to_string() });
    assert_eq!(denial_of(read), "Access denied: file not in granted folder");
    let write = authorize(
        &store,
        &FileRequest::Write { path: "/tmp/unauthorized.txt".to_string(), content: "content".to_string() },
    );
    assert!(denial_of(write).contains("Access denied"));
    let delete = authorize(&store, &FileRequest::Delete { path: "/tmp/unauthorized.txt".to_string() });
    assert!(denial_of(delete).contains("Access denied"));
}

#[test]
fn gate_checks_both_ends_of_a_move() {
    let store = store_with("/tmp/ws");
    let denied_src = authorize(
        &store,
        &FileRequest::Move { src: "/tmp/unauthorized.txt".to_string(), dest: "/tmp/ws/dest.txt".to_string() },
    );
    assert_eq!(denial_of(denied_src), "Access denied: source or destination not in granted folder");
    let denied_dest = authorize(
        &store,
        &FileRequest::Move { src: "/tmp/ws/source.txt".to_string(), dest: "/tmp/unauthorized.txt".to_string() },
    );
    assert!(denial_of(denied_dest).contains("Access denied"));
    let ok = authorize(
        &store,
        &FileRequest::Move { src: "/tmp/ws/source.txt".to_string(), dest: "/tmp/ws/sub/dest.txt".to_string() },
    );
    assert!(ok.is_ok());
}

#[test]
fn create_in_grant_then_again() {
    let store = store_with("/tmp/ws");
    let req = FileRequest::Create { path: "/tmp/ws/a.txt".to_string(), content: "hi".to_string() };
    assert!(authorize(&store, &req).is_ok());
    assert!(check_new_target(false).is_ok());
    match check_new_target(true) {
        Err(e @ FileError::AlreadyExists) => assert!(e.message().contains("already exists")),
        _ => panic!("expected a refusal"),
    }
    let read_out = authorize(&store, &FileRequest::Read { path: "/etc/passwd".to_string() });
    assert!(denial_of(read_out).contains("Access denied"));
    let create_out = authorize(
        &store,
        &FileRequest::Create { path: "/etc/x".to_string(), content: String::new() },
    );
    assert_eq!(denial_of(create_out), "Access denied: location not in granted folder");
}

#[test]
fn missing_metadata_time_is_zero() {
    let f = FileInfo::from_metadata("a".to_string(), "/a".to_string(), false, 3, None);
    assert_eq!(f.modified, 0);
    let g = FileInfo::from_metadata("b".to_string(), "/b".to_string(), true, 0, Some(42));
    assert_eq!(g.modified, 42);
    assert!(g.is_directory);
}

#[test]
fn plan_maps_each_tool() {
    let c = one_call("<tool_call>{\"name\": \"write_file\", \"arguments\": {\"path\": \"/w\", \"content\": \"x\"}}</tool_call>");
    match plan_tool(&c) {
        Ok(FileRequest::Write { path, content }) => {
            assert_eq!(path, "/w");
            assert_eq!(content, "x");
        }
        _ => panic!("expected a write"),
    }
    let m = one_call("<tool_call>{\"name\": \"move_file\", \"arguments\": {\"src\": \"/s\", \"dest\": \"/d\", \"extra\": 1}}</tool_call>");
    match plan_tool(&m) {
        Ok(FileRequest::Move { src, dest }) => {
            assert_eq!(src, "/s");
            assert_eq!(dest, "/d");
        }
        _ => panic!("expected a move"),
    }
}

#[test]
fn plan_reports_missing_arguments_and_unknown_tools() {
    let c = one_call("<tool_call>{\"name\": \"read_file\", \"arguments\": {\"file\": \"/x\"}}</tool_call>");
    assert_eq!(plan_tool(&c).err().unwrap(), "Error: Missing 'path' argument");
    let w = one_call("<tool_call>{\"name\": \"create_file\", \"arguments\": {\"path\": \"/x\"}}</tool_call>");
    assert_eq!(plan_tool(&w).err().unwrap(), "Error: Missing 'path' or 'content' argument");
    let m = one_call("<tool_call>{\"name\": \"move_file\", \"arguments\": {\"src\": \"/x\", \"dest\": 4}}</tool_call>");
    assert_eq!(plan_tool(&m).err().unwrap(), "Error: Missing 'src' or 'dest' argument");
    let u = one_call("<tool_call>{\"name\": \"format_disk\", \"arguments\": {}}</tool_call>");
    assert_eq!(plan_tool(&u).err().unwrap(), "Error: Unknown tool 'format_disk'");
}

#[test]
fn results_render_as_text() {
    let list = FileRequest::List { path: "/d".to_string() };
    let files = vec![
        FileInfo::from_metadata("sub".to_string(), "/d/sub".to_string(), true, 0, None),
        FileInfo::from_metadata("a.txt".to_string(), "/d/a.txt".to_string(), false, 5, Some(1)),
    ];
    assert_eq!(
        render_result(&list, &Ok(FileOutput::Entries(files))),
        "[DIR] sub (/d/sub)\n[FILE] a.txt (/d/a.txt)"
    );
    assert_eq!(render_result(&list, &Ok(FileOutput::Entries(Vec::new()))), "Directory is empty");
    let read = FileRequest::Read { path: "/d/a.txt".to_string() };
    assert_eq!(render_result(&read, &Ok(FileOutput::Text("hello".to_string()))), "hello");
    let mv = FileRequest::Move { src: "/a".to_string(), dest: "/b".to_string() };
    assert_eq!(render_result(&mv, &Ok(FileOutput::Done)), "Successfully moved /a to /b");
    let create = FileRequest::Create { path: "/c".to_string(), content: String::new() };
    assert_eq!(render_result(&create, &Ok(FileOutput::Done)), "Successfully created /c");
    assert_eq!(
        render_result(&create, &Err(FileError::AlreadyExists)),
        "Error: File already exists"
    );
    let write = FileRequest::Write { path: "/w".to_string(), content: String::new() };
    assert_eq!(
        render_result(&write, &Err(FileError::Io("Failed to write file: denied".to_string()))),
        "Error: Failed to write file: denied"
    );
    let delete = FileRequest::Delete { path: "/z".to_string() };
    assert_eq!(render_result(&delete, &Ok(FileOutput::Done)), "Successfully deleted /z");
}

#[test]
fn failures_tell_the_caller_what_went_wrong() {
    assert_eq!(
        InferenceError::ModelNotLoaded.failure(),
        "No model loaded. Please load a model first."
    );
    assert_eq!(
        InferenceError::ContextError("oom".to_string()).failure(),
        "Inference error: Failed to create context: oom"
    );
}

#[test]
fn inference_errors_explain_themselves() {
    assert_eq!(InferenceError::ModelNotLoaded.message(), "Model not loaded");
    assert_eq!(
        InferenceError::TokenizeError("bad".to_string()).message(),
        "Failed to tokenize: bad"
    );
    assert_eq!(
        InferenceError::InferenceError("Batch is empty".to_string()).message(),
        "Failed during inference: Batch is empty"
    );
}

fn user(text: &str) -> Message {
    Message { role: "user".to_string(), content: text.to_string() }
}

#[test]
fn quiet_first_answer_ends_the_run() {
    let mut run = AgentLoop::new(vec![user("hi")]);
    assert!(run.on_response("  Hello there!  ".to_string()));
    assert_eq!(run.iteration(), 0);
    assert_eq!(run.conversation().len(), 1);
    let out = run.into_response();
    assert_eq!(out.content, "Hello there!");
    assert!(out.tool_calls.is_empty());
}

#[test]
fn one_call_per_answer_runs_to_the_ceiling() {
    let answer = "Listing.<tool_call>{\"name\": \"list_files\", \"arguments\": {\"path\": \"/tmp\"}}</tool_call>";
    let mut run = AgentLoop::new(vec![user("list /tmp")]);
    let mut rounds = 0;
    loop {
        assert!(!run.on_response(answer.to_string()));
        assert_eq!(run.pending_calls().len(), 1);
        rounds += 1;
        if run.on_results(vec!["Directory is empty".to_string()]) {
            break;
        }
    }
    assert_eq!(rounds, MAX_ITERATIONS);
    assert_eq!(run.iteration(), MAX_ITERATIONS);
    assert_eq!(run.conversation().len(), 1 + 2 * MAX_ITERATIONS);
    assert_eq!(run.conversation()[1].role, "assistant");
    assert_eq!(run.conversation()[1].content, answer);
    assert_eq!(
        run.conversation()[2].content,
        "[Tool Results]\nTool 'list_files' result: Directory is empty"
    );
    let out = run.into_response();
    assert_eq!(out.content, "Listing.");
    assert_eq!(out.tool_calls.len(), MAX_ITERATIONS);
    assert_eq!(out.tool_calls[4].result.as_deref(), Some("Directory is empty"));
}

#[test]
fn results_report_every_call() {
    let answer = "<tool_call>{\"name\": \"read_file\", \"arguments\": {\"path\": \"/a\"}}</tool_call><tool_call>{\"name\": \"nope\", \"arguments\": {}}</tool_call>";
    let mut run = AgentLoop::new(Vec::new());
    assert!(!run.on_response(answer.to_string()));
    assert!(!run.on_results(vec!["A".to_string(), "Error: Unknown tool 'nope'".to_string()]));
    assert_eq!(
        run.conversation()[1].content,
        "[Tool Results]\nTool 'read_file' result: A\nTool 'nope' result: Error: Unknown tool 'nope'"
    );
    assert!(run.on_response("Done.".to_string()));
    let out = run.into_response();
    assert_eq!(out.content, "Done.");
    assert_eq!(out.tool_calls.len(), 2);
    assert_eq!(out.tool_calls[1].id, "call_1");
}

#[test]
fn chat_prompt_wraps_turns() {
    let msgs = vec![user("hi"), Message { role: "assistant".to_string(), content: "yo".to_string() }];
    let plain = chat_prompt_text(&msgs, None);
    assert_eq!(
        plain,
        "<|im_start|>system\nYou are a helpful AI assistant running locally on the user's computer. Be concise and helpful.<|im_end|>\n<|im_start|>user\nhi<|im_end|>\n<|im_start|>assistant\nyo<|im_end|>\n<|im_start|>assistant\n"
    );
    let tooled = chat_prompt_text(&Vec::new(), Some("TOOLS"));
    assert!(tooled.starts_with("<|im_start|>system\nYou are a helpful AI assistant running locally on the user's computer. Be concise and helpful.\n\nTOOLS<|im_end|>\n"));
    assert!(ends_turn("ok<|im_end|>"));
    assert!(!ends_turn("<|im_start|>"));
    assert_eq!(trim_text("\n out \t"), "out");
}

#[test]
fn begin_tool_checks_access_before_running() {
    let store = store_with("/tmp/ws");
    let inside = one_call("<tool_call>{\"name\": \"read_file\", \"arguments\": {\"path\": \"/tmp/ws/a.txt\"}}</tool_call>");
    match begin_tool(&store, &inside) {
        Ok(FileRequest::Read { path }) => assert_eq!(path, "/tmp/ws/a.txt"),
        _ => panic!("expected a read"),
    }
    let outside = one_call("<tool_call>{\"name\": \"read_file\", \"arguments\": {\"path\": \"/etc/passwd\"}}</tool_call>");
    assert_eq!(
        begin_tool(&store, &outside).err().unwrap(),
        "Error: Access denied: file not in granted folder"
    );
    let half = one_call("<tool_call>{\"name\": \"move_file\", \"arguments\": {\"src\": \"/tmp/ws/a\", \"dest\": \"/etc/a\"}}</tool_call>");
    assert_eq!(
        begin_tool(&store, &half).err().unwrap(),
        "Error: Access denied: source or destination not in granted folder"
    );
    let bad = one_call("<tool_call>{\"name\": \"list_files\", \"arguments\": {}}</tool_call>");
    assert_eq!(begin_tool(&store, &bad).err().unwrap(), "Error: Missing 'path' argument");
}
