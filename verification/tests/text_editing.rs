use contui::editor::{
    cursor_down, cursor_position, cursor_up, cut_range, delete_at, input_line_count, insert_char_at,
    line_start_position, next_word, prev_word, selection_range, truncate_chars,
};
use contui::text::{join_strings, parse_usize, replace_chars, trim_str, usize_to_string};
use contui::todo_manager::{TodoItem, TodoManager};
use contui::unicode::grapheme_count;

fn cv(s: &str) -> Vec<char> {
    s.chars().collect()
}

#[test]
fn graphemes_count_combined_characters_once() {
    assert_eq!(grapheme_count("héllo"), 5);
    assert_eq!(grapheme_count("e\u{301}x"), 2);
    assert_eq!(grapheme_count(""), 0);
    assert_eq!(insert_char_at("e\u{301}x", 1, '!'), "e\u{301}!x");
    assert_eq!(insert_char_at("ab", 9, 'c'), "abc");
    assert_eq!(delete_at("e\u{301}x", 0), Some("x".to_string()));
    assert_eq!(delete_at("ab", 2), None);
}

#[test]
fn cursor_rows_and_columns() {
    assert_eq!(cursor_position("abc\nde", 6), (1, 2));
    assert_eq!(cursor_position("abc\nde", 1), (0, 1));
    assert_eq!(cursor_position("日本\nx", 2), (0, 4));
    assert_eq!(line_start_position("abc\nde", 1), 4);
    assert_eq!(line_start_position("abc\nde", 5), 0);
    assert_eq!(input_line_count("a\nb\nc"), 3);
    assert_eq!(input_line_count(""), 1);
    assert_eq!(cursor_up("abc\nde", 6), 2);
    assert_eq!(cursor_up("abc", 2), 2);
    assert_eq!(cursor_down("abcd\nde", 4), 7);
}

#[test]
fn word_motions() {
    assert_eq!(next_word("one two  three", 0), 4);
    assert_eq!(next_word("one two  three", 4), 9);
    assert_eq!(next_word("one", 1), 3);
    assert_eq!(prev_word("one two", 6), 4);
    assert_eq!(prev_word("one two", 4), 0);
    assert_eq!(prev_word("one", 0), 0);
}

#[test]
fn selections_and_cuts() {
    assert_eq!(selection_range(Some(3), 1), Some((1, 4)));
    assert_eq!(selection_range(Some(1), 3), Some((1, 4)));
    assert_eq!(selection_range(None, 3), None);
    assert_eq!(cut_range("abcdef", 1, 4), "aef");
    assert_eq!(cut_range("abc", 2, 10), "ab");
    assert_eq!(truncate_chars("hello", 3), "hel...");
    assert_eq!(truncate_chars("hi", 3), "hi");
}

#[test]
fn text_helpers() {
    assert_eq!(trim_str("  a b \n"), "a b");
    assert_eq!(parse_usize(&cv("42")), Some(42));
    assert_eq!(parse_usize(&cv("")), None);
    assert_eq!(parse_usize(&cv("4x")), None);
    assert_eq!(parse_usize(&cv("99999999999999999999999")), None);
    assert_eq!(usize_to_string(1200), "1200");
    assert_eq!(usize_to_string(0), "0");
    assert_eq!(join_strings(&vec!["a".to_string(), "b".to_string()], ", "), "a, b");
    assert_eq!(join_strings(&vec![], ", "), "");
    assert_eq!(replace_chars(&cv("a-b-c"), &cv("-"), &cv("+")), cv("a+b+c"));
}

#[test]
fn checklist_manager() {
    let mut m = TodoManager::new().unwrap();
    assert!(m.should_create_new_list("anything"));
    assert_eq!(m.get_context_for_llm(), "");
    assert_eq!(m.create_new_list("Plan".to_string(), "week".to_string()), Ok(()));
    assert!(!m.should_create_new_list("anything"));
    let list = m.current_list.as_mut().unwrap();
    list.items.push(TodoItem { title: "a".to_string(), completed: true });
    list.items.push(TodoItem { title: "b".to_string(), completed: false });
    assert_eq!(m.get_context_for_llm(), "Plan: week\n- [x] a\n- [ ] b\n");
    assert_eq!(m.update_from_ai_response("x").unwrap().len(), 0);
    assert_eq!(m.load(), Ok(()));
    assert_eq!(m.current_list.as_ref().unwrap().items.len(), 2);
    assert_eq!(m.clear_current_list(), Ok(()));
    assert!(m.current_list.is_none());
}
