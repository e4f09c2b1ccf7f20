use contui::todo::{
    create_todo_list_from_request, project_type, ProjectType, TodoError, TodoItem, TodoList, TodoManager,
    TodoStatus,
};

fn item_by_id<'a>(list: &'a TodoList, id: &str) -> &'a TodoItem {
    list.items.iter().find(|i| i.id == id).unwrap()
}

fn titles(list: &TodoList) -> Vec<String> {
    list.order.iter().map(|id| item_by_id(list, id).title.clone()).collect()
}

#[test]
fn new_item_is_pending() {
    let item = TodoItem::new("a".to_string(), "b".to_string());
    assert!(item.status == TodoStatus::Pending);
    assert_eq!(item.id.len(), 36);
    assert!(item.dependencies.is_empty());
    assert!(item.tool_execution_result.is_none());
    assert!(item.error_message.is_none());
    assert!(item.is_ready_to_execute(&vec![]));
}

#[test]
fn readiness_needs_dependencies_done() {
    let mut item = TodoItem::new("a".to_string(), "b".to_string());
    item.dependencies.push("x".to_string());
    assert!(!item.is_ready_to_execute(&vec![]));
    assert!(item.is_ready_to_execute(&vec!["y".to_string(), "x".to_string()]));
    item.update_status(TodoStatus::InProgress);
    assert!(!item.is_ready_to_execute(&vec!["x".to_string()]));
    item.set_tool_result("ok".to_string());
    assert_eq!(item.tool_execution_result.as_deref(), Some("ok"));
    item.set_error("bad".to_string());
    assert!(item.status == TodoStatus::Failed);
    assert_eq!(item.error_message.as_deref(), Some("bad"));
}

#[test]
fn list_progress_and_display() {
    let mut list = TodoList::new("T".to_string(), "D".to_string());
    assert!(list.is_active);
    assert!(list.is_completed());
    let a = TodoItem::new("a".to_string(), "first".to_string());
    let a_id = a.id.clone();
    let b = TodoItem::new("b".to_string(), String::new());
    let b_id = b.id.clone();
    list.add_item(a);
    list.add_item(b);
    assert_eq!(list.order, vec![a_id.clone(), b_id.clone()]);
    assert_eq!(list.get_progress_summary(), "進捗: 0/2 完了, 0 進行中, 0 失敗");
    assert_eq!(list.get_next_pending_item().unwrap().id, a_id);
    assert_eq!(list.get_current_step_description().unwrap(), "現在のステップ: a\n詳細: first");
    assert_eq!(list.update_item_status(&a_id, TodoStatus::Completed), Ok(()));
    assert_eq!(list.set_item_error(&b_id, "oops".to_string()), Ok(()));
    assert_eq!(list.get_progress_summary(), "進捗: 1/2 完了, 0 進行中, 1 失敗");
    assert!(list.is_completed());
    assert!(list.get_next_pending_item().is_none());
    assert!(list.get_current_step_description().is_none());
    assert_eq!(list.get_display_text(), "📋 T\nD\n\n進捗: 1/2 完了, 0 進行中, 1 失敗\n\n✅ a\n   first\n❌ b\n   ❌ エラー: oops\n");
    assert_eq!(list.update_item_status("nope", TodoStatus::Completed), Err(TodoError::ItemNotFound));
    assert_eq!(list.set_item_tool_result("nope", "r".to_string()), Err(TodoError::ItemNotFound));
    assert_eq!(list.set_item_error("nope", "r".to_string()), Err(TodoError::ItemNotFound));
    assert_eq!(list.find_item(&b_id), Some(1));
}

#[test]
fn project_types_follow_keywords() {
    assert_eq!(project_type("make a website"), ProjectType::WebDevelopment);
    assert_eq!(project_type("a rust cli"), ProjectType::RustDevelopment);
    assert_eq!(project_type("flask api"), ProjectType::PythonDevelopment);
    assert_eq!(project_type("データ分析"), ProjectType::DataAnalysis);
    assert_eq!(project_type("an android game"), ProjectType::MobileDevelopment);
    assert_eq!(project_type("docker setup"), ProjectType::DevOps);
    assert_eq!(project_type("csv変換"), ProjectType::FileOperation);
    assert_eq!(project_type("hello"), ProjectType::Generic);
    let m = TodoManager::new();
    assert_eq!(m.detect_project_type("rust"), ProjectType::RustDevelopment);
    let todos = m.generate_project_specific_todos("Build a RUST tool");
    let t: Vec<&str> = todos.iter().map(|i| i.title.as_str()).collect();
    assert_eq!(t, vec!["Cargoプロジェクト作成", "依存関係設定", "コア機能実装", "エラーハンドリング", "テスト作成"]);
}

#[test]
fn manager_without_list() {
    let mut m = TodoManager::new();
    assert_eq!(m.storage_path, "todo_state.json");
    assert!(m.current_list.is_none());
    assert_eq!(m.add_todo_item("a".to_string(), "b".to_string()), Err(TodoError::NoActiveList));
    assert_eq!(m.update_todo_status("x", TodoStatus::Completed), Err(TodoError::NoActiveList));
    assert_eq!(m.set_todo_tool_result("x", "r".to_string()), Err(TodoError::NoActiveList));
    assert_eq!(m.set_todo_error("x", "r".to_string()), Err(TodoError::NoActiveList));
    assert!(m.get_next_todo().is_none());
    assert!(m.get_current_step_context().is_none());
    assert!(!m.is_list_completed());
    assert!(m.get_display_text().is_none());
    assert_eq!(m.get_context_for_llm(), "");
    assert!(m.update_from_ai_response("✅ File 'a' created successfully").is_empty());
    assert_eq!(m.handle_failed_todo_recursive("x", "e"), Err(TodoError::NoActiveList));
    assert!(m.generate_retry_context("x").is_none());
    assert!(m.should_create_new_list("build an app"));
    assert!(!m.should_create_new_list("hello there"));
}

#[test]
fn new_list_starts_first_task() {
    let mut m = TodoManager::new();
    let id = m.create_new_list("t".to_string(), "build a rust cli".to_string());
    let list = m.current_list.as_ref().unwrap();
    assert_eq!(list.id, id);
    assert_eq!(titles(list), vec!["Cargoプロジェクト作成", "依存関係設定", "コア機能実装", "エラーハンドリング", "テスト作成"]);
    let first = item_by_id(list, &list.order[0]);
    assert!(first.status == TodoStatus::InProgress);
    assert_eq!(m.get_next_todo().unwrap().title, "依存関係設定");
    assert_eq!(m.get_current_step_context().unwrap(), "現在のステップ: 依存関係設定\n詳細: Cargo.tomlに必要なcrateを追加");
    assert!(!m.should_create_new_list("hello there"));
    let ctx = m.get_context_for_llm();
    assert!(ctx.starts_with("**TODO List: t**\nDescription: build a rust cli\nStatus: 進捗: 0/5 完了, 1 進行中, 0 失敗\n\n**Current Step:**\n現在のステップ: 依存関係設定\n詳細: Cargo.tomlに必要なcrateを追加\n\n**All TODO Items:**\n- 🔄 In Progress Cargoプロジェクト作成\n  Description: cargo newでプロジェクト初期化\n- ⭕ Pending 依存関係設定\n"));
    assert!(ctx.ends_with("\n**Instructions:**\n- Please help with the current step or provide guidance on the next actions\n- If a step fails, suggest corrections or alternative approaches\n- Update TODO status based on the conversation progress\n"));
    let added = m.add_todo_item("extra".to_string(), "more".to_string()).unwrap();
    assert_eq!(m.current_list.as_ref().unwrap().order.last(), Some(&added));
    m.clear_current_list();
    assert!(m.current_list.is_none());
}

#[test]
fn reply_updates_tasks() {
    let mut m = TodoManager::new();
    m.create_new_list("t".to_string(), "build a rust cli".to_string());
    let order = m.current_list.as_ref().unwrap().order.clone();
    let updated = m.update_from_ai_response("✅ File 'main.rs' created successfully");
    assert_eq!(updated, vec![order[0].clone(), order[1].clone(), order[2].clone()]);
    let list = m.current_list.as_ref().unwrap();
    let first = item_by_id(list, &order[0]);
    assert!(first.status == TodoStatus::Completed);
    assert_eq!(first.tool_execution_result.as_deref(), Some("ファイル作成完了: main.rs"));
    let second = item_by_id(list, &order[1]);
    assert!(second.status == TodoStatus::Completed);
    assert_eq!(second.tool_execution_result.as_deref(), Some("コマンド実行完了: ✅ File 'main.rs' created successfully"));
    assert!(item_by_id(list, &order[2]).status == TodoStatus::InProgress);

    let updated = m.update_from_ai_response("Error: build failed");
    assert_eq!(updated, vec![order[2].clone(), order[3].clone(), order[4].clone()]);
    let list = m.current_list.as_ref().unwrap();
    let third = item_by_id(list, &order[2]);
    assert!(third.status == TodoStatus::Failed);
    assert_eq!(third.error_message.as_deref(), Some("コマンド実行失敗: Error: build failed"));
    let fourth = item_by_id(list, &order[3]);
    assert!(fourth.status == TodoStatus::Failed);
    assert_eq!(fourth.error_message.as_deref(), Some("Error: build failed"));
    assert!(item_by_id(list, &order[4]).status == TodoStatus::InProgress);
}

#[test]
fn detections_read_reply_lines() {
    let m = TodoManager::new();
    assert_eq!(
        m.detect_file_creation("x\n✅ File 'a.txt' created successfully\n✅ File 'b.txt' created as 'b_1.txt'"),
        Some(vec!["a.txt".to_string(), "b.txt".to_string()])
    );
    assert_eq!(m.detect_file_creation("nothing"), None);
    let c = m.detect_command_execution("ok\nCommand Completed fine").unwrap();
    assert!(c.success);
    assert_eq!(c.description, "Command Completed fine");
    let c = m.detect_command_execution("it FAILED TO EXECUTE").unwrap();
    assert!(!c.success);
    assert!(m.detect_command_execution("plain").is_none());
    assert_eq!(m.detect_error_in_response("a\nException: boom\nb"), Some("Exception: boom".to_string()));
    assert_eq!(m.detect_error_in_response("fine"), None);
}

#[test]
fn failed_task_gets_retries() {
    let mut m = TodoManager::new();
    m.create_new_list("t".to_string(), "hello".to_string());
    let order = m.current_list.as_ref().unwrap().order.clone();
    let failed = order[0].clone();
    m.set_todo_error(&failed, "file not found".to_string()).unwrap();
    let ctx = m.generate_retry_context(&failed).unwrap();
    assert_eq!(ctx, "## 失敗したタスクの修正要請\n\n**失敗したタスク**: 要件分析\n**タスク詳細**: ユーザーのリクエストを分析し、必要な作業を特定\n**エラー内容**: file not found\n\n**修正要請**:\n上記のエラーを分析し、適切な修正方法を提案してください。可能であれば修正されたコードやコマンドを提供してください。\n");
    assert_eq!(m.get_retry_count(&failed), 0);
    let r = m.handle_failed_todo_recursive(&failed, "File Not Found").unwrap();
    let list = m.current_list.as_ref().unwrap();
    let retry_id = list.order[1].clone();
    assert_eq!(r, format!("修正提案を作成しました: {}\n提案内容: ファイルパスを確認し、正しいディレクトリにファイルが存在するかチェックしてください。相対パスではなく絶対パスを使用することを検討してください。", retry_id));
    let retry = item_by_id(list, &retry_id);
    assert_eq!(retry.title, "要件分析 (修正 1回目)");
    assert!(retry.status == TodoStatus::InProgress);
    assert!(retry.description.ends_with("\n\n元のエラー: File Not Found"));
    assert_eq!(m.get_retry_count(&failed), 1);
    m.handle_failed_todo_recursive(&failed, "x").unwrap();
    m.handle_failed_todo_recursive(&failed, "x").unwrap();
    assert_eq!(m.get_retry_count(&failed), 3);
    let r = m.handle_failed_todo_recursive(&failed, "x").unwrap();
    assert_eq!(r, "最大リトライ回数（3回）に達しました。手動での修正が必要です:\n要件分析");
    assert_eq!(m.current_list.as_ref().unwrap().order.len(), 8);
    assert_eq!(m.handle_failed_todo_recursive("missing", "x"), Err(TodoError::ItemNotFound));
}

#[test]
fn corrections_follow_the_error() {
    assert_eq!(
        TodoManager::generate_correction_suggestion_static("t", "d", "Permission denied"),
        "ファイル・ディレクトリのアクセス権限を確認してください。sudo権限が必要な場合があります。"
    );
    assert_eq!(
        TodoManager::generate_correction_suggestion_static("t", "d", "network down"),
        "ネットワーク接続を確認してください。プロキシ設定やファイアウォールの設定が原因の可能性があります。"
    );
    assert_eq!(
        TodoManager::generate_correction_suggestion_static("t", "do it", "boom"),
        "以下の観点から問題を確認してください:\n1. 入力パラメータの妥当性\n2. 依存関係の充足\n3. 環境設定の確認\n4. リソースの可用性\n\n元のタスク: do it\nエラー詳細を確認し、適切な修正を行ってください。"
    );
    let m = TodoManager::new();
    assert!(m.is_auto_correctable("Module Not Found here"));
    assert!(!m.is_auto_correctable("boom"));
}

#[test]
fn list_from_request() {
    let l = create_todo_list_from_request("make a website");
    assert_eq!(l.title, "タスク: make a website");
    assert_eq!(l.description, "make a website");
    assert_eq!(titles(&l), vec!["プロジェクト設定", "フロントエンド実装", "バックエンド実装", "データベース設計", "テスト・デプロイ"]);
    assert!(l.items.iter().all(|i| i.status == TodoStatus::Pending));
    let long: String = std::iter::repeat('あ').take(60).collect();
    let l = create_todo_list_from_request(&long);
    assert_eq!(l.title.chars().count(), "タスク: ".chars().count() + 50);
}
