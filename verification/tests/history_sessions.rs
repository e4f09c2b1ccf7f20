use contui::history::{ChatHistory, HistoryError, HistoryManager};
use contui::stamp::{timestamp_le, uuid_string, Timestamp};

fn manager() -> HistoryManager {
    HistoryManager { history: ChatHistory::new(), file_path: "history.json".to_string() }
}

#[test]
fn new_history_has_no_session() {
    let h = ChatHistory::new();
    assert!(h.sessions.is_empty());
    assert!(h.current_session_id.is_none());
    assert!(h.get_current_session().is_none());
}

#[test]
fn messages_need_a_current_session() {
    let mut h = ChatHistory::new();
    assert_eq!(h.add_message("hi".to_string(), true), Err(HistoryError::NoActiveSession));
    assert_eq!(h.clear_messages(), Err(HistoryError::NoActiveSession));
    h.current_session_id = Some(7);
    assert_eq!(h.add_message("hi".to_string(), true), Err(HistoryError::SessionNotFound));
    assert_eq!(h.clear_messages(), Err(HistoryError::SessionNotFound));
}

#[test]
fn new_session_becomes_current_with_default_title() {
    let mut h = ChatHistory::new();
    let id = h.new_session(None);
    assert_eq!(h.current_session_id, Some(id));
    let s = h.get_current_session().unwrap();
    assert!(s.title.starts_with("Chat Session "));
    assert_eq!(s.title.chars().count(), "Chat Session 2024-01-01 00:00".chars().count());
    assert!(s.messages.is_empty());
    let named = h.new_session(Some("Work".to_string()));
    assert_ne!(named, id);
    assert_eq!(h.get_current_session().unwrap().title, "Work");
    assert_eq!(h.sessions.len(), 2);
}

#[test]
fn added_messages_are_kept_in_order() {
    let mut h = ChatHistory::new();
    h.new_session(None);
    assert_eq!(h.add_message("question".to_string(), true), Ok(()));
    assert_eq!(h.add_message("answer".to_string(), false), Ok(()));
    let s = h.get_current_session().unwrap();
    assert_eq!(s.messages.len(), 2);
    assert_eq!(s.messages[0].content, "question");
    assert!(s.messages[0].is_user);
    assert_eq!(s.messages[1].content, "answer");
    assert!(!s.messages[1].is_user);
    assert!(timestamp_le(&s.created_at, &s.updated_at));
    assert_eq!(h.clear_messages(), Ok(()));
    assert!(h.get_current_session().unwrap().messages.is_empty());
}

#[test]
fn switch_and_delete_sessions() {
    let mut h = ChatHistory::new();
    let a = h.new_session(Some("a".to_string()));
    let b = h.new_session(Some("b".to_string()));
    assert_eq!(h.switch_session(a), Ok(()));
    assert_eq!(h.current_session_id, Some(a));
    assert_eq!(h.switch_session(a ^ b ^ 1), Err(HistoryError::SessionNotFound));
    assert_eq!(h.current_session_id, Some(a));
    assert_eq!(h.delete_session(b), Ok(()));
    assert_eq!(h.current_session_id, Some(a));
    assert_eq!(h.delete_session(b), Err(HistoryError::SessionNotFound));
    assert_eq!(h.delete_session(a), Ok(()));
    assert!(h.current_session_id.is_none());
    assert!(h.sessions.is_empty());
}

#[test]
fn session_list_is_newest_first() {
    let mut h = ChatHistory::new();
    let a = h.new_session(Some("a".to_string()));
    let b = h.new_session(Some("b".to_string()));
    h.sessions[0].updated_at = Timestamp { secs: 100, nanos: 0 };
    h.sessions[1].updated_at = Timestamp { secs: 50, nanos: 0 };
    let ids: Vec<u128> = h.get_session_list().iter().map(|s| s.id).collect();
    let first = h.sessions[0].id;
    assert_eq!(ids.len(), 2);
    assert_eq!(ids[0], first);
    assert!(ids.contains(&a) && ids.contains(&b));
    assert_eq!(h.find_index(b).map(|i| h.sessions[i].id), Some(b));
    assert_eq!(h.find_index(a ^ b ^ 1), None);
}

#[test]
fn context_is_the_last_messages() {
    let mut m = manager();
    let id = m.ensure_active_session();
    assert_eq!(m.ensure_active_session(), id);
    for i in 0..5 {
        m.history.add_message(format!("m{}", i), i % 2 == 0).unwrap();
    }
    let ctx = m.get_conversation_context(3);
    assert_eq!(ctx.len(), 3);
    assert_eq!(ctx[0].role, "user");
    assert_eq!(ctx[0].parts[0].text, "m2");
    assert_eq!(ctx[1].role, "model");
    assert_eq!(ctx[2].parts[0].text, "m4");
    assert_eq!(m.get_conversation_context(10).len(), 5);
    assert!(m.get_conversation_context(0).is_empty());
    assert_eq!(m.clear_messages(), Ok(()));
    assert!(m.get_conversation_context(10).is_empty());
    assert_eq!(m.get_history().sessions.len(), 1);
}

#[test]
fn context_without_session_is_empty() {
    let m = manager();
    assert!(m.get_conversation_context(10).is_empty());
}

#[test]
fn uuid_text_is_hyphenated_hex() {
    assert_eq!(uuid_string(0), "00000000-0000-0000-0000-000000000000");
    let v: u128 = 0x123e4567_e89b_12d3_a456_426614174000;
    assert_eq!(uuid_string(v), "123e4567-e89b-12d3-a456-426614174000");
    assert_eq!(uuid_string(v), uuid::Uuid::from_u128(v).to_string());
    assert_eq!(uuid_string(u128::MAX), "ffffffff-ffff-ffff-ffff-ffffffffffff");
}

#[test]
fn timestamps_are_ordered() {
    let a = Timestamp { secs: 1, nanos: 5 };
    let b = Timestamp { secs: 1, nanos: 6 };
    let c = Timestamp { secs: 2, nanos: 0 };
    assert!(timestamp_le(&a, &b));
    assert!(!timestamp_le(&b, &a));
    assert!(timestamp_le(&b, &c));
    assert!(timestamp_le(&a, &a));
}

#[test]
fn history_can_be_changed_in_place() {
    let mut m = manager();
    let id = m.get_history_mut().new_session(Some("in place".to_string()));
    assert_eq!(m.history.current_session_id, Some(id));
    assert_eq!(m.get_history().get_current_session().unwrap().title, "in place");
    assert_eq!(m.file_path, "history.json");
}

#[test]
fn sessions_updated_together_keep_their_stored_order() {
    let mut h = ChatHistory::new();
    h.new_session(Some("a".to_string()));
    h.new_session(Some("b".to_string()));
    h.new_session(Some("c".to_string()));
    for s in h.sessions.iter_mut() {
        s.updated_at = Timestamp { secs: 70, nanos: 5 };
    }
    h.sessions[2].updated_at = Timestamp { secs: 80, nanos: 0 };
    let stored: Vec<u128> = h.sessions.iter().map(|s| s.id).collect();
    let listed: Vec<u128> = h.get_session_list().iter().map(|s| s.id).collect();
    assert_eq!(listed, vec![stored[2], stored[0], stored[1]]);
    assert_eq!(h.get_session_list().iter().map(|s| s.id).collect::<Vec<u128>>(), listed);
}
