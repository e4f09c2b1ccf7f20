use contui::gemini::{
    chat, chat_loop_done, chat_loop_prompt, chat_with_file_context, command_reply, create_file_reply,
    edit_file_reply, extract_is_finished_flag, format_bold_text, get_function_declarations, get_system_prompt,
    interpret_response, parse_command_blocks, parse_create_file_blocks, parse_edit_blocks, parse_manual_blocks,
    plan_function_call, request_url, should_retry, unknown_function_reply, ApiError, CallPlan, Candidate,
    CommandResult, Content, FunctionCall, GeminiResponse, JsonValue, ParamType, Part, ResponseContent,
    ResponsePart,
};
use serde_json::Value;

fn obj(fields: Vec<(&str, Value)>) -> Value {
    let mut m = serde_json::Map::new();
    for (k, v) in fields {
        m.insert(k.to_string(), v);
    }
    Value::Object(m)
}

fn s(text: &str) -> Value {
    Value::String(text.to_string())
}

fn create_file_call(filename: &str, content: &str) -> FunctionCall {
    FunctionCall {
        name: "create_file".to_string(),
        args: vec![
            ("filename".to_string(), JsonValue::Str(filename.to_string())),
            ("content".to_string(), JsonValue::Str(content.to_string())),
        ],
    }
}

#[test]
fn test_function_calling_json_structure() {
    let function_call_request = obj(vec![
        (
            "contents",
            Value::Array(vec![obj(vec![
                ("role", s("user")),
                (
                    "parts",
                    Value::Array(vec![obj(vec![(
                        "text",
                        s("test.txtというファイルを作成してください。内容は「Hello, Function Calling!」にしてください。"),
                    )])]),
                ),
            ])]),
        ),
        (
            "tools",
            Value::Array(vec![obj(vec![(
                "functionDeclarations",
                Value::Array(vec![obj(vec![
                    ("name", s("create_file")),
                    ("description", s("ファイルを作成します")),
                    (
                        "parameters",
                        obj(vec![
                            ("type", s("object")),
                            (
                                "properties",
                                obj(vec![
                                    ("filename", obj(vec![("type", s("string")), ("description", s("作成するファイル名"))])),
                                    ("content", obj(vec![("type", s("string")), ("description", s("ファイルの内容"))])),
                                ]),
                            ),
                            ("required", Value::Array(vec![s("filename"), s("content")])),
                        ]),
                    ),
                ])]),
            )])]),
        ),
        (
            "generationConfig",
            obj(vec![
                ("temperature", Value::from(0.7)),
                ("maxOutputTokens", Value::from(1000)),
            ]),
        ),
    ]);
    let function_call_response = obj(vec![(
        "candidates",
        Value::Array(vec![obj(vec![(
            "content",
            obj(vec![(
                "parts",
                Value::Array(vec![obj(vec![(
                    "functionCall",
                    obj(vec![
                        ("name", s("create_file")),
                        ("args", obj(vec![("filename", s("test.txt")), ("content", s("Hello, Function Calling!"))])),
                    ]),
                )])]),
            )]),
        )])]),
    )]);
    println!("=== Function Calling Request Test ===");
    println!("{}", serde_json::to_string_pretty(&function_call_request).unwrap());
    println!("\n=== Function Calling Response Test ===");
    println!("{}", serde_json::to_string_pretty(&function_call_response).unwrap());
    println!("\n=== Test Completed ===");
    println!("✅ Function Calling の JSON 構造が正しく実装されています");

    assert!(function_call_request["tools"].is_array());
    assert!(function_call_response["candidates"].is_array());

    // The same call, as the library reads it.
    let plan = plan_function_call(&create_file_call("test.txt", "Hello, Function Calling!"));
    match plan {
        Ok(CallPlan::CreateFile { filename, content }) => {
            assert_eq!(filename, "test.txt");
            assert_eq!(content, "Hello, Function Calling!");
        }
        other => panic!("unexpected plan {:?}", other),
    }
}

fn text_of(c: &Content) -> String {
    c.parts[0].text.clone()
}

#[test]
fn system_prompt_asks_for_the_flag() {
    let p = get_system_prompt();
    assert!(p.starts_with("あなたはファイル作成・部分編集・コマンド実行機能を持つAIアシスタントです。"));
    assert!(p.contains("is_finished: true または is_finished: false"));
}

#[test]
fn chat_frames_the_message() {
    let r = chat("hello", None);
    assert_eq!(r.len(), 2);
    assert_eq!(r[0].role, "user");
    assert_eq!(text_of(&r[0]), get_system_prompt());
    assert_eq!(r[1].role, "user");
    assert_eq!(text_of(&r[1]), "hello");

    let ctx = vec![
        Content { role: "user".to_string(), parts: vec![Part { text: "q".to_string() }] },
        Content { role: "model".to_string(), parts: vec![Part { text: "a".to_string() }] },
    ];
    let r = chat("next", Some(&ctx));
    assert_eq!(r.len(), 4);
    assert_eq!(r[1].role, "user");
    assert_eq!(text_of(&r[1]), "q");
    assert_eq!(r[2].role, "model");
    assert_eq!(text_of(&r[2]), "a");
    assert_eq!(text_of(&r[3]), "next");
}

#[test]
fn chat_with_files_shows_contents_and_errors() {
    let files = vec![
        ("a.txt".to_string(), Ok("x".to_string())),
        ("b.txt".to_string(), Err("not found".to_string())),
    ];
    let r = chat_with_file_context("q", &files, None);
    assert_eq!(r.len(), 3);
    assert_eq!(
        text_of(&r[1]),
        "=== FILE CONTENTS ===\n\n--- File: a.txt ---\nx\n--- End of file ---\n\n\n--- Error reading file: b.txt ---\nError: not found\n\n\n=== END FILE CONTENTS ===\n\n"
    );
    assert_eq!(text_of(&r[2]), "q");
    let none: Vec<(String, Result<String, String>)> = Vec::new();
    let r = chat_with_file_context("q", &none, None);
    assert_eq!(r.len(), 2);
}

#[test]
fn declarations_offer_three_functions() {
    let tools = get_function_declarations();
    assert_eq!(tools.len(), 1);
    let decls = &tools[0].function_declarations;
    let names: Vec<&str> = decls.iter().map(|d| d.name.as_str()).collect();
    assert_eq!(names, vec!["create_file", "edit_file", "execute_command"]);
    assert_eq!(decls[0].description, "ファイルを作成します");
    assert_eq!(decls[0].required, vec!["filename".to_string(), "content".to_string()]);
    assert_eq!(decls[1].parameters.len(), 4);
    assert!(decls[1].parameters[1].ty == ParamType::Integer);
    assert_eq!(decls[1].parameters[1].name, "start_line");
    assert_eq!(decls[2].required, vec!["command".to_string()]);
    assert!(decls[2].parameters[1].ty == ParamType::Boolean);
}

#[test]
fn plan_reports_missing_parameters() {
    let call = FunctionCall {
        name: "create_file".to_string(),
        args: vec![("filename".to_string(), JsonValue::Str("a".to_string()))],
    };
    let e = plan_function_call(&call).unwrap_err();
    assert_eq!(e.name, "content");
    assert_eq!(e.message(), "content parameter is required");

    let call = FunctionCall {
        name: "edit_file".to_string(),
        args: vec![
            ("filename".to_string(), JsonValue::Str("a".to_string())),
            ("start_line".to_string(), JsonValue::Str("1".to_string())),
        ],
    };
    assert_eq!(plan_function_call(&call).unwrap_err().name, "start_line");

    let call = FunctionCall { name: "execute_command".to_string(), args: vec![] };
    assert_eq!(plan_function_call(&call).unwrap_err().message(), "command parameter is required");
}

#[test]
fn plan_reads_arguments() {
    let call = FunctionCall {
        name: "edit_file".to_string(),
        args: vec![
            ("content".to_string(), JsonValue::Str("new".to_string())),
            ("end_line".to_string(), JsonValue::UInt(4)),
            ("start_line".to_string(), JsonValue::UInt(2)),
            ("filename".to_string(), JsonValue::Str("m.rs".to_string())),
        ],
    };
    match plan_function_call(&call) {
        Ok(CallPlan::EditFile { filename, start_line, end_line, content }) => {
            assert_eq!((filename.as_str(), start_line, end_line, content.as_str()), ("m.rs", 2, 4, "new"));
        }
        other => panic!("unexpected {:?}", other),
    }
    let call = FunctionCall {
        name: "execute_command".to_string(),
        args: vec![("command".to_string(), JsonValue::Str("ls".to_string()))],
    };
    match plan_function_call(&call) {
        Ok(CallPlan::ExecuteCommand { command, silent }) => {
            assert_eq!(command, "ls");
            assert!(!silent);
        }
        other => panic!("unexpected {:?}", other),
    }
    let call = FunctionCall {
        name: "execute_command".to_string(),
        args: vec![
            ("command".to_string(), JsonValue::Str("ls".to_string())),
            ("silent".to_string(), JsonValue::Bool(true)),
        ],
    };
    assert!(matches!(plan_function_call(&call), Ok(CallPlan::ExecuteCommand { silent: true, .. })));
    let call = FunctionCall { name: "fly".to_string(), args: vec![] };
    match plan_function_call(&call) {
        Ok(CallPlan::Unknown { name }) => assert_eq!(name, "fly"),
        other => panic!("unexpected {:?}", other),
    }
}

#[test]
fn replies_name_the_outcome() {
    assert_eq!(create_file_reply(&Ok("a.txt".to_string())), "✅ ファイルを作成しました: a.txt");
    assert_eq!(create_file_reply(&Err("denied".to_string())), "❌ ファイル作成に失敗しました: denied");
    assert_eq!(edit_file_reply("a.rs", &Ok(())), "✅ ファイルを編集しました: a.rs");
    assert_eq!(edit_file_reply("a.rs", &Err("bad".to_string())), "❌ ファイル編集に失敗しました: bad");
    let ok = CommandResult {
        command: "ls".to_string(),
        stdout: "x".to_string(),
        stderr: String::new(),
        success: true,
        exit_code: Some(0),
    };
    assert_eq!(command_reply("ls", &Ok(ok)), "✅ コマンド実行成功: ls\n出力: x");
    let failed = CommandResult {
        command: "ls".to_string(),
        stdout: String::new(),
        stderr: "boom".to_string(),
        success: false,
        exit_code: Some(1),
    };
    assert_eq!(command_reply("ls", &Ok(failed)), "❌ コマンド実行失敗: ls\nエラー: boom");
    assert_eq!(command_reply("ls", &Err("spawn".to_string())), "❌ コマンド実行エラー: spawn");
    assert_eq!(unknown_function_reply("fly"), "❌ 未知の関数呼び出し: fly");
}

#[test]
fn create_blocks_are_read_in_order() {
    let r = parse_create_file_blocks("intro\n```create_file: hello.txt \nline1\nline2\n```\nmid\n```create_file:b.txt\nonly\n```");
    assert_eq!(r, vec![("hello.txt".to_string(), "line1\nline2".to_string()), ("b.txt".to_string(), "only".to_string())]);
    assert!(parse_create_file_blocks("```create_file:   \nx\n```").is_empty());
    assert!(parse_create_file_blocks("no blocks here").is_empty());
    let r = parse_create_file_blocks("```create_file:open.txt\nrest\nof it");
    assert_eq!(r, vec![("open.txt".to_string(), "rest\nof it".to_string())]);
}

#[test]
fn command_blocks_are_trimmed_and_blank_ones_skipped() {
    let r = parse_command_blocks("```execute_command\nls -la\n```\n```execute_command_silent\n  echo hi  \n```\n```execute_command\n   \n```");
    assert_eq!(r, vec!["ls -la".to_string(), "echo hi".to_string()]);
}

#[test]
fn edit_blocks_need_a_full_header() {
    let r = parse_edit_blocks("```edit_file:main.rs:2:3\nnew a\nnew b\n```\n```edit_file:main.rs:0:3\nx\n```\n```edit_file:a:b\ny\n```\n```edit_file:m.rs: x :2\nz\n```");
    assert_eq!(r, vec![("main.rs".to_string(), 2, 3, "new a\nnew b".to_string())]);
}

#[test]
fn manual_blocks_read_names_and_bodies() {
    let r = parse_manual_blocks("text\n```create_file:notes.md\n# Title\nbody\n```");
    assert_eq!(r, vec![("notes.md".to_string(), "# Title\nbody".to_string())]);
}

#[test]
fn finished_flag_is_read() {
    assert_eq!(extract_is_finished_flag("done.\nis_finished: true"), Some(true));
    assert_eq!(extract_is_finished_flag("{\"is_finished\": false}"), Some(false));
    assert_eq!(extract_is_finished_flag("is_finished:true"), Some(true));
    assert_eq!(extract_is_finished_flag("no flag"), None);
    assert_eq!(extract_is_finished_flag("is_finished: maybe"), None);
    assert!(chat_loop_done("ok is_finished: true"));
    assert!(!chat_loop_done("is_finished: false"));
    assert!(!chat_loop_done(""));
}

#[test]
fn loop_prompt_and_url() {
    assert_eq!(
        chat_loop_prompt("hi"),
        "hi\n\n---\n次に何をすべきか、追加タスクがあるかを必ず明示してください。\nis_finished: true/false のJSONフラグを必ず返してください。"
    );
    assert_eq!(
        request_url("gemini-pro", "k"),
        "https://generativelanguage.googleapis.com/v1beta/models/gemini-pro:generateContent?key=k"
    );
    assert!(should_retry(Some(429)));
    assert!(!should_retry(Some(200)));
    assert!(!should_retry(Some(500)));
    assert!(should_retry(None));
    assert_eq!(format_bold_text("**bold**"), "**bold**");
}

fn reply_with(parts: Vec<ResponsePart>) -> GeminiResponse {
    GeminiResponse { candidates: vec![Candidate { content: ResponseContent { parts } }] }
}

#[test]
fn responses_are_interpreted() {
    match interpret_response("{}", Ok(reply_with(vec![ResponsePart::Text("hi".to_string())]))) {
        Ok(ResponsePart::Text(t)) => assert_eq!(t, "hi"),
        other => panic!("unexpected {:?}", other),
    }
    match interpret_response("{\"error\": 1}", Ok(reply_with(vec![]))) {
        Err(ApiError::Api(t)) => assert_eq!(t, "{\"error\": 1}"),
        other => panic!("unexpected {:?}", other),
    }
    match interpret_response("{}", Err("eof".to_string())) {
        Err(ApiError::Decode(d)) => assert_eq!(d, "eof"),
        other => panic!("unexpected {:?}", other),
    }
    assert!(matches!(interpret_response("{}", Ok(GeminiResponse { candidates: vec![] })), Err(ApiError::NoResponse)));
    assert!(matches!(interpret_response("{}", Ok(reply_with(vec![]))), Err(ApiError::NoResponse)));
}
