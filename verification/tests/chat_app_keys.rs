use contui::chat_app::{
    ChatApp, ChatEvent, CreationRequest, InputMode, KeyAction, KeyCode, KeyEvent, LoopReply, LoopState, SendAction,
};
use contui::history::{ChatHistory, HistoryManager};
use contui::todo_manager::TodoItem;

fn app() -> ChatApp {
    let hm = HistoryManager { history: ChatHistory::new(), file_path: "h.json".to_string() };
    ChatApp::new(hm, "/work".to_string())
}

fn key(code: KeyCode) -> KeyEvent {
    KeyEvent { code, control: false, shift: false, plain: true, press: true }
}

fn press(a: &mut ChatApp, code: KeyCode) -> KeyAction {
    a.handle_key_event(key(code))
}

fn type_text(a: &mut ChatApp, text: &str) {
    for c in text.chars() {
        press(a, KeyCode::Char(c));
    }
}

fn session_contents(a: &ChatApp) -> Vec<String> {
    a.history_manager.history.get_current_session().unwrap().messages.iter().map(|m| m.content.clone()).collect()
}

fn event_texts(events: &[ChatEvent]) -> Vec<(bool, String)> {
    events
        .iter()
        .map(|e| match e {
            ChatEvent::AIResponse(t) => (true, t.clone()),
            ChatEvent::Error(t) => (false, t.clone()),
        })
        .collect()
}

#[test]
fn new_app_welcomes_and_opens_a_session() {
    let a = app();
    assert_eq!(a.messages.len(), 1);
    assert_eq!(a.messages[0].content, "Welcome to ConTUI!");
    assert!(!a.messages[0].is_user);
    assert!(a.history_manager.history.current_session_id.is_some());
    assert_eq!(a.history_manager.history.sessions.len(), 1);
    assert!(a.ui.input.is_empty());
    assert!(a.ui.input_mode == InputMode::Normal);
    assert_eq!(a.ui.current_directory, "/work");
    assert!(!a.is_loading);
}

#[test]
fn insert_mode_edits_by_grapheme() {
    let mut a = app();
    assert!(press(&mut a, KeyCode::Char('i')) == KeyAction::Nothing);
    assert!(a.ui.input_mode == InputMode::Insert);
    type_text(&mut a, "héllo");
    assert_eq!(a.ui.input, "héllo");
    assert_eq!(a.ui.cursor_position, 5);
    press(&mut a, KeyCode::Left);
    assert_eq!(a.ui.cursor_position, 4);
    press(&mut a, KeyCode::Backspace);
    assert_eq!(a.ui.input, "hélo");
    assert_eq!(a.ui.cursor_position, 3);
    press(&mut a, KeyCode::Esc);
    assert!(a.ui.input_mode == InputMode::Normal);
    assert_eq!(a.ui.cursor_position, 2);
    press(&mut a, KeyCode::Char('x'));
    assert_eq!(a.ui.input, "héo");
    press(&mut a, KeyCode::Char('$'));
    assert_eq!(a.ui.cursor_position, 3);
    press(&mut a, KeyCode::Char('0'));
    assert_eq!(a.ui.cursor_position, 0);
    press(&mut a, KeyCode::Char('d'));
    assert_eq!(a.ui.input, "");
    assert_eq!(a.ui.cursor_position, 0);
}

#[test]
fn left_and_right_stay_in_bounds() {
    let mut a = app();
    press(&mut a, KeyCode::Char('h'));
    assert_eq!(a.ui.cursor_position, 0);
    a.ui.input = "ab".to_string();
    press(&mut a, KeyCode::Char('l'));
    press(&mut a, KeyCode::Char('l'));
    press(&mut a, KeyCode::Char('l'));
    assert_eq!(a.ui.cursor_position, 2);
    press(&mut a, KeyCode::Char('h'));
    assert_eq!(a.ui.cursor_position, 1);
}

#[test]
fn multiline_cursor_moves_between_lines() {
    let mut a = app();
    a.ui.input = "abc\nde".to_string();
    a.ui.cursor_position = 6;
    a.update_input_line_count();
    assert_eq!(a.ui.input_line_count, 2);
    assert_eq!(a.calculate_cursor_position(), (1, 2));
    a.move_cursor_up();
    assert_eq!(a.ui.cursor_position, 2);
    assert_eq!(a.calculate_cursor_position(), (0, 2));
    a.move_cursor_down();
    assert_eq!(a.ui.cursor_position, 6);
    assert_eq!(a.get_line_start_position(1), 4);
}

#[test]
fn words_are_skipped_in_visual_mode() {
    let mut a = app();
    a.ui.input = "one two three".to_string();
    press(&mut a, KeyCode::Char('v'));
    assert!(a.ui.input_mode == InputMode::Visual);
    assert_eq!(a.ui.visual_start, Some(0));
    press(&mut a, KeyCode::Char('w'));
    assert_eq!(a.ui.cursor_position, 4);
    assert_eq!(a.get_visual_selection_range(), Some((0, 5)));
    press(&mut a, KeyCode::Char('d'));
    assert_eq!(a.ui.input, "wo three");
    assert!(a.ui.input_mode == InputMode::Normal);
    assert_eq!(a.ui.visual_start, None);
}

#[test]
fn sending_shows_and_records_the_message() {
    let mut a = app();
    press(&mut a, KeyCode::Char('i'));
    type_text(&mut a, "hello @file:src/a.rs");
    assert!(press(&mut a, KeyCode::Enter) == KeyAction::Send);
    match a.send_message() {
        SendAction::Dispatch { message, files } => {
            assert_eq!(message, "hello");
            assert_eq!(files, vec!["src/a.rs".to_string()]);
        }
        other => panic!("unexpected {:?}", other),
    }
    assert_eq!(a.messages.len(), 2);
    assert_eq!(a.messages[1].content, "hello\nFiles: src/a.rs");
    assert!(a.messages[1].is_user);
    assert_eq!(session_contents(&a), vec!["hello\nFiles: src/a.rs".to_string()]);
    assert_eq!(a.ui.input, "");
    assert!(a.ui.input_mode == InputMode::Normal);
    assert_eq!(a.ui.input_history, vec!["hello @file:src/a.rs".to_string()]);
}

#[test]
fn only_files_ask_for_analysis() {
    let mut a = app();
    a.ui.input = "@file:b.txt @file:a.txt @file:b.txt".to_string();
    match a.send_message() {
        SendAction::Dispatch { message, files } => {
            assert_eq!(message, "Please analyze these files:");
            assert_eq!(files, vec!["a.txt".to_string(), "b.txt".to_string()]);
        }
        other => panic!("unexpected {:?}", other),
    }
    let (clean, files) = a.parse_file_references("see @file:x.md please");
    assert_eq!(clean, "see  please");
    assert_eq!(files, vec!["x.md".to_string()]);
}

#[test]
fn messages_wait_while_loading() {
    let mut a = app();
    a.is_loading = true;
    a.ui.input = "later".to_string();
    assert!(matches!(a.send_message(), SendAction::Buffered));
    assert_eq!(a.send_buffer, vec!["later".to_string()]);
    assert_eq!(a.messages.len(), 1);
    let out = a.handle_chat_event(ChatEvent::AIResponse("hi".to_string()));
    assert_eq!(out.resend, Some("[BUFFERED_SEND]later".to_string()));
    assert!(out.save);
    assert!(a.send_buffer.is_empty());
    assert!(!a.is_loading);
    assert_eq!(a.messages.last().unwrap().content, "hi");
    assert_eq!(session_contents(&a), vec!["hi".to_string()]);
}

#[test]
fn empty_replies_and_errors_are_shown() {
    let mut a = app();
    let out = a.handle_chat_event(ChatEvent::AIResponse(String::new()));
    assert_eq!(out.resend, None);
    assert_eq!(a.messages.last().unwrap().content, "AIからの応答がありませんでした。");
    a.is_loading = true;
    a.handle_chat_event(ChatEvent::Error("boom".to_string()));
    assert_eq!(a.messages.last().unwrap().content, "Error: boom");
    assert!(!a.is_loading);
}

#[test]
fn clearlog_empties_the_session() {
    let mut a = app();
    a.history_manager.history.add_message("old".to_string(), true).unwrap();
    a.ui.input = " /clearlog ".to_string();
    assert!(matches!(a.send_message(), SendAction::Cleared));
    assert_eq!(a.messages.len(), 1);
    assert_eq!(a.messages[0].content, "✅ ログを全て削除しました.");
    assert!(session_contents(&a).is_empty());
    assert_eq!(a.ui.input, "");
}

#[test]
fn input_history_is_recalled_and_restored() {
    let mut a = app();
    a.add_to_input_history("first".to_string());
    a.add_to_input_history("second".to_string());
    a.add_to_input_history("second".to_string());
    assert_eq!(a.ui.input_history, vec!["first".to_string(), "second".to_string()]);
    a.ui.input = "draft".to_string();
    a.navigate_history_up();
    assert_eq!(a.ui.input, "second");
    a.navigate_history_up();
    assert_eq!(a.ui.input, "first");
    a.navigate_history_up();
    assert_eq!(a.ui.input, "first");
    a.navigate_history_down();
    assert_eq!(a.ui.input, "second");
    a.navigate_history_down();
    assert_eq!(a.ui.input, "draft");
    assert_eq!(a.ui.history_index, None);
}

#[test]
fn sessions_are_created_switched_and_deleted() {
    let mut a = app();
    let first = a.history_manager.history.current_session_id.unwrap();
    assert!(press(&mut a, KeyCode::Char('n')) == KeyAction::Save);
    let second = a.history_manager.history.current_session_id.unwrap();
    assert_ne!(first, second);
    assert_eq!(a.history_manager.history.sessions.len(), 2);
    press(&mut a, KeyCode::Char('S'));
    assert!(a.ui.input_mode == InputMode::SessionList);
    assert_eq!(a.ui.session_list_state, Some(0));
    press(&mut a, KeyCode::Char('j'));
    assert_eq!(a.ui.session_list_state, Some(1));
    press(&mut a, KeyCode::Char('j'));
    assert_eq!(a.ui.session_list_state, Some(0));
    press(&mut a, KeyCode::Char('k'));
    assert_eq!(a.ui.session_list_state, Some(1));
    press(&mut a, KeyCode::Char('q'));
    assert!(a.ui.input_mode == InputMode::Normal);
    let listed: Vec<u128> = a.history_manager.history.get_session_list().iter().map(|s| s.id).collect();
    let other = listed.iter().position(|id| *id != second).unwrap();
    a.ui.session_list_state = Some(other);
    assert!(a.delete_selected_session());
    assert_eq!(a.history_manager.history.sessions.len(), 1);
    assert_eq!(a.history_manager.history.current_session_id, Some(second));
    assert!(a.history_manager.history.sessions.iter().all(|s| s.id != first));
    assert_eq!(a.ui.session_list_state, Some(0));
    a.ui.session_list_state = Some(0);
    assert!(a.delete_selected_session());
    assert_eq!(a.history_manager.history.sessions.len(), 1);
    assert_ne!(a.history_manager.history.current_session_id, Some(second));
    assert_eq!(a.messages.len(), 1);
    assert_eq!(a.messages[0].content, "Started new conversation session.");
}

#[test]
fn file_browser_selects_and_opens() {
    let mut a = app();
    assert!(press(&mut a, KeyCode::Char('f')) == KeyAction::Relist);
    assert!(a.ui.input_mode == InputMode::FileBrowser);
    a.refresh_directory_contents(Some(vec!["docs/".to_string(), "a.txt".to_string()]));
    assert_eq!(a.ui.file_browser_state, Some(0));
    press(&mut a, KeyCode::Char('j'));
    assert_eq!(a.ui.file_browser_state, Some(1));
    press(&mut a, KeyCode::Char('j'));
    assert_eq!(a.ui.file_browser_state, Some(1));
    press(&mut a, KeyCode::Char(' '));
    assert_eq!(a.ui.selected_files, vec!["/work/a.txt".to_string()]);
    assert_eq!(a.ui.input, "@file:/work/a.txt");
    assert!(a.file_entry_marked("a.txt"));
    press(&mut a, KeyCode::Char(' '));
    assert!(a.ui.selected_files.is_empty());
    assert_eq!(a.ui.input, "");
    press(&mut a, KeyCode::Char('k'));
    assert!(press(&mut a, KeyCode::Enter) == KeyAction::Relist);
    assert_eq!(a.ui.current_directory, "/work/docs");
    assert!(press(&mut a, KeyCode::Char('u')) == KeyAction::Relist);
    assert_eq!(a.ui.current_directory, "/work");
    a.refresh_directory_contents(None);
    assert!(a.ui.directory_contents.is_empty());
}

#[test]
fn help_and_quit_keys() {
    let mut a = app();
    let ctrl_h = KeyEvent { code: KeyCode::Char('h'), control: true, shift: false, plain: false, press: true };
    a.handle_key_event(ctrl_h);
    assert!(a.ui.show_help);
    assert!(a.help_text().len() > 10);
    a.handle_key_event(ctrl_h);
    assert!(!a.ui.show_help);
    assert!(press(&mut a, KeyCode::Char('q')) == KeyAction::Quit);
    let release = KeyEvent { code: KeyCode::Char('q'), control: false, shift: false, plain: true, press: false };
    assert!(a.handle_key_event(release) == KeyAction::Nothing);
}

#[test]
fn saving_is_reported() {
    let mut a = app();
    a.report_save(Ok(()));
    assert_eq!(a.messages.last().unwrap().content, "History saved successfully!");
    a.report_save(Err("disk full".to_string()));
    assert_eq!(a.messages.last().unwrap().content, "Error saving history: disk full");
}

#[test]
fn truncation_is_by_character() {
    assert_eq!(ChatApp::truncate_string_safe("hello", 10), "hello");
    assert_eq!(ChatApp::truncate_string_safe("日本語テキスト", 3), "日本語...");
}

#[test]
fn progress_loop_steps() {
    let (ev, next) = ChatApp::chat_loop_with_progress_static(
        LoopState { message: "m".to_string(), step: 1 },
        LoopReply::Replied("working".to_string()),
    );
    assert_eq!(event_texts(&ev), vec![(true, "🤖 Step 1: LLM応答\nworking".to_string())]);
    let next = next.unwrap();
    assert_eq!(next.message, "working");
    assert_eq!(next.step, 2);
    let (ev, next) = ChatApp::chat_loop_with_progress_static(
        LoopState { message: "m".to_string(), step: 2 },
        LoopReply::Replied("Done. IS_FINISHED: TRUE".to_string()),
    );
    assert!(next.is_none());
    assert_eq!(
        event_texts(&ev),
        vec![
            (true, "🤖 Step 2: LLM応答\nDone. IS_FINISHED: TRUE".to_string()),
            (true, "Done. IS_FINISHED: TRUE".to_string()),
            (true, "✅ LLMが終了を指示したためループを終了します。".to_string()),
        ]
    );
    let (ev, next) = ChatApp::chat_loop_with_progress_static(LoopState { message: "m".to_string(), step: 3 }, LoopReply::TimedOut);
    assert!(next.is_none());
    assert_eq!(event_texts(&ev), vec![(false, "❌ LLMリクエストがタイムアウトしました".to_string())]);
    let (ev, _) = ChatApp::chat_loop_with_progress_static(LoopState { message: "m".to_string(), step: 3 }, LoopReply::Replied(String::new()));
    assert_eq!(event_texts(&ev), vec![(false, "❌ LLMからの応答が空です。再試行してください。".to_string())]);
    let (ev, next) = ChatApp::chat_loop_with_progress_static(LoopState { message: "m".to_string(), step: 10 }, LoopReply::Replied("more".to_string()));
    assert!(next.is_none());
    assert_eq!(ev.len(), 3);
    assert_eq!(event_texts(&ev)[2], (true, "⚠️ LLM応答に「完了」等が含まれなかったため自動終了しました。".to_string()));
    assert_eq!(event_texts(&[ChatApp::progress_note(4)]), vec![(true, "🤖 Step 4: LLMに問い合わせ中...".to_string())]);
    assert!(ChatApp::progress_prompt("x").starts_with("x\n\n---\n"));
}

#[test]
fn creation_blocks_become_messages() {
    let mut a = app();
    let reply = "Here:\n```create_file:a.txt\nhello\n```\nand\n```create_file:b.txt\nbye\n```";
    let reqs = ChatApp::file_creation_requests(reply).unwrap();
    assert_eq!(reqs.len(), 2);
    assert_eq!(reqs[0].filename, "a.txt");
    assert_eq!(reqs[0].content, "hello\n");
    assert_eq!(reqs[0].block, "```create_file:a.txt\nhello\n```");
    let results = vec![Ok("a.txt".to_string()), Ok("b_1.txt".to_string())];
    let (text, created) = a.process_file_creation_requests(reply, &reqs, &results);
    assert!(created);
    assert_eq!(
        text,
        "Here:\n✅ File 'a.txt' created successfully!\nand\n✅ File 'b.txt' created as 'b_1.txt' (original name was taken)"
    );
    assert_eq!(a.ui.notification, Some("📁 ファイル作成: a.txt, b_1.txt".to_string()));
    let failed = vec![Err("denied".to_string()), Ok("b.txt".to_string())];
    let (text, _) = a.process_file_creation_requests(reply, &reqs, &failed);
    assert!(text.starts_with("Here:\n❌ Failed to create file 'a.txt' : denied\nand"));
    let none: Vec<CreationRequest> = Vec::new();
    let (text, created) = a.process_file_creation_requests("plain", &none, &vec![]);
    assert_eq!(text, "plain");
    assert!(!created);

    let manual = ChatApp::manual_creation_requests("```create_file:n.md\n# T\n```");
    assert_eq!(manual.len(), 1);
    assert_eq!(manual[0].block, "```create_file:n.md\n# T\n```");
    let (text, created) = a.manual_parse_file_creation("```create_file:n.md\n# T\n```", &manual, &vec![Ok("n.md".to_string())]);
    assert!(created);
    assert_eq!(text, "✅ File 'n.md' created successfully!\n\n📁 Created 1 file(s): n.md");
}

#[test]
fn todo_summary_is_appended() {
    let mut a = app();
    assert_eq!(a.append_todo_summary_to_response("r".to_string()), "r");
    a.create_new_todo_list();
    assert_eq!(a.ui.notification, Some("New todo list created".to_string()));
    assert_eq!(a.append_todo_summary_to_response("r".to_string()), "r");
    let list = a.todo_manager.current_list.as_mut().unwrap();
    list.items.push(TodoItem { title: "done".to_string(), completed: true });
    list.items.push(TodoItem { title: "open".to_string(), completed: false });
    assert_eq!(
        a.append_todo_summary_to_response("r".to_string()),
        "r\n\n📋 TODO進捗: 1/2\n🔄 現在実行中のTODO:\n- open"
    );
}

#[test]
fn input_history_keeps_the_last_fifty() {
    let mut a = app();
    for i in 0..60 {
        a.add_to_input_history(format!("m{}", i));
    }
    assert_eq!(a.ui.input_history.len(), 50);
    assert_eq!(a.ui.input_history[0], "m10");
    assert_eq!(a.ui.input_history.last().unwrap(), "m59");
}

#[test]
fn buffered_messages_leave_oldest_first() {
    let mut a = app();
    a.is_loading = true;
    a.ui.input = "one".to_string();
    a.send_message();
    a.ui.input = "two".to_string();
    a.send_message();
    assert_eq!(a.send_buffer, vec!["one".to_string(), "two".to_string()]);
    let out = a.handle_chat_event(ChatEvent::AIResponse("r1".to_string()));
    assert_eq!(out.resend, Some("[BUFFERED_SEND]one".to_string()));
    let out = a.handle_chat_event(ChatEvent::AIResponse("r2".to_string()));
    assert_eq!(out.resend, Some("[BUFFERED_SEND]two".to_string()));
    let out = a.handle_chat_event(ChatEvent::AIResponse("r3".to_string()));
    assert_eq!(out.resend, None);
}

#[test]
fn line_keys_work_on_the_current_line() {
    let mut a = app();
    a.ui.input = "abc\ndef\nghi".to_string();
    a.ui.cursor_position = 5;
    press(&mut a, KeyCode::Char('0'));
    assert_eq!(a.ui.cursor_position, 4);
    press(&mut a, KeyCode::Char('$'));
    assert_eq!(a.ui.cursor_position, 7);
    press(&mut a, KeyCode::Char('d'));
    assert_eq!(a.ui.input, "abc\nghi");
    assert_eq!(a.ui.cursor_position, 4);
    assert_eq!(a.ui.input_line_count, 2);
    a.ui.cursor_position = 6;
    press(&mut a, KeyCode::Char('d'));
    assert_eq!(a.ui.input, "abc");
    assert_eq!(a.ui.cursor_position, 3);
    assert_eq!(a.ui.input_line_count, 1);
    press(&mut a, KeyCode::Char('d'));
    assert_eq!(a.ui.input, "");
    assert_eq!(a.ui.cursor_position, 0);
}

#[test]
fn enter_on_blank_input_breaks_the_line() {
    let mut a = app();
    press(&mut a, KeyCode::Char('i'));
    assert!(press(&mut a, KeyCode::Enter) == KeyAction::Nothing);
    assert_eq!(a.ui.input, "\n");
    assert_eq!(a.ui.cursor_position, 1);
    assert_eq!(a.ui.input_line_count, 1);
    a.ui.input = "  ".to_string();
    a.ui.cursor_position = 1;
    press(&mut a, KeyCode::Enter);
    assert_eq!(a.ui.input, " \n ");
    assert_eq!(a.ui.cursor_position, 2);
    assert_eq!(a.ui.input_line_count, 2);
    let ctrl_enter = KeyEvent { code: KeyCode::Enter, control: true, shift: false, plain: false, press: true };
    a.handle_key_event(ctrl_enter);
    assert_eq!(a.ui.input, " \n ");
}

#[test]
fn failed_clearlog_keeps_the_conversation() {
    let mut a = app();
    a.history_manager.history.current_session_id = None;
    a.ui.input = "/clearlog".to_string();
    assert!(matches!(a.send_message(), SendAction::Cleared));
    assert_eq!(a.messages.len(), 2);
    assert_eq!(a.messages[0].content, "Welcome to ConTUI!");
    assert_eq!(a.messages[1].content, "❌ ログ削除に失敗しました: No active session");
    assert_eq!(a.ui.input, "");
}

#[test]
fn new_app_keeps_saved_sessions() {
    let mut history = ChatHistory::new();
    let old = history.new_session(Some("old".to_string()));
    history.add_message("kept".to_string(), true).unwrap();
    history.current_session_id = None;
    let hm = HistoryManager { history, file_path: "h.json".to_string() };
    let a = ChatApp::new(hm, "/work".to_string());
    assert_eq!(a.history_manager.history.sessions.len(), 2);
    let current = a.history_manager.history.current_session_id.unwrap();
    assert_ne!(current, old);
    let kept = a.history_manager.history.sessions.iter().find(|s| s.id == old).unwrap();
    assert_eq!(kept.messages[0].content, "kept");
    assert!(a.history_manager.history.get_current_session().unwrap().title.starts_with("Chat Session "));
}
