//! The chat client's state and the rules that change it: the modal line
//! editor, the input history, scrolling, sessions, the file browser and the
//! handling of keys and model replies. The terminal, the network and the
//! disk are the caller's: each rule returns what the caller must do.

use vstd::prelude::*;
use crate::text::{chars_of, string_of, push_str_chars, push_all, trim_seq, trim_chars, str_eq, is_blank, lines_of, line_count};
use crate::unicode::{graphemes_of, grapheme_count};
use crate::editor::{insert_char_spec, insert_char_at, delete_at_spec, delete_at, cursor_position, cursor_position_spec, line_start, line_start_position, input_line_count_spec, input_line_count, cursor_up, cursor_up_spec, cursor_down, cursor_down_spec, next_word, next_word_spec, prev_word, prev_word_spec, prev_word_allowed, selection_range, selection_range_spec, cut_range, cut_spec, truncate_chars, truncate_spec, clamp, line_begin, line_end, line_cut, current_line_start, current_line_end, current_line_cut};
use crate::history::{ChatMessage, MessageView, HistoryManager};
use crate::stamp::{now_utc, new_uuid};

verus! {

/// The editing modes of the interface.
#[derive(Debug, Clone, Copy, PartialEq, Eq, Structural)]
pub enum InputMode {
    Normal,
    Insert,
    Visual,
    SessionList,
    FileBrowser,
}

/// A message for the chat view, sent by the model task.
#[derive(Debug)]
pub enum ChatEvent {
    AIResponse(String),
    Error(String),
}

/// The state of the interface. The three list selections are the selected
/// indices of the message list, the session list and the file list.
pub struct UiState {
    pub input: String,
    pub cursor_position: usize,
    pub visual_start: Option<usize>,
    pub input_mode: InputMode,
    pub list_state: Option<usize>,
    pub scroll_offset: usize,
    pub session_list_state: Option<usize>,
    pub file_browser_state: Option<usize>,
    pub current_directory: String,
    pub directory_contents: Vec<String>,
    pub selected_files: Vec<String>,
    pub input_line_count: usize,
    pub input_history: Vec<String>,
    pub history_index: Option<usize>,
    pub temp_input: String,
    pub show_help: bool,
    pub notification: Option<String>,
}

/// The plain-value model of the interface state.
#[verifier::ext_equal]
pub struct UiView {
    pub input: Seq<char>,
    pub cursor_position: usize,
    pub visual_start: Option<usize>,
    pub input_mode: InputMode,
    pub list_state: Option<usize>,
    pub scroll_offset: usize,
    pub session_list_state: Option<usize>,
    pub file_browser_state: Option<usize>,
    pub current_directory: Seq<char>,
    pub directory_contents: Seq<Seq<char>>,
    pub selected_files: Seq<Seq<char>>,
    pub input_line_count: usize,
    pub input_history: Seq<Seq<char>>,
    pub history_index: Option<usize>,
    pub temp_input: Seq<char>,
    pub show_help: bool,
    pub notification: Option<Seq<char>>,
}

impl View for UiState {
    type V = UiView;

    open spec fn view(&self) -> UiView {
        UiView {
            input: self.input@,
            cursor_position: self.cursor_position,
            visual_start: self.visual_start,
            input_mode: self.input_mode,
            list_state: self.list_state,
            scroll_offset: self.scroll_offset,
            session_list_state: self.session_list_state,
            file_browser_state: self.file_browser_state,
            current_directory: self.current_directory@,
            directory_contents: self.directory_contents.deep_view(),
            selected_files: self.selected_files.deep_view(),
            input_line_count: self.input_line_count,
            input_history: self.input_history.deep_view(),
            history_index: self.history_index,
            temp_input: self.temp_input@,
            show_help: self.show_help,
            notification: crate::todo::opt_view(self.notification),
        }
    }
}

/// The chat client: the interface, the shown messages, whether a reply is
/// awaited, the sessions, the messages waiting to be sent and the
/// checklist.
pub struct ChatApp {
    pub ui: UiState,
    pub messages: Vec<ChatMessage>,
    pub is_loading: bool,
    pub history_manager: HistoryManager,
    pub send_buffer: Vec<String>,
    pub todo_manager: crate::todo_manager::TodoManager,
}

/// The shown messages as plain values.
pub open spec fn msgs(m: Seq<ChatMessage>) -> Seq<MessageView> {
    m.map_values(|x: ChatMessage| x@)
}

/// The number of grapheme clusters of the input.
pub open spec fn clusters(s: Seq<char>) -> int {
    graphemes_of(s).len() as int
}

impl ChatApp {
    /// Session identifiers are unique and the history position, when set,
    /// names an entry of the input history.
    pub open spec fn wf(&self) -> bool {
        &&& self.history_manager.wf()
        &&& self.ui.history_index matches Some(i) ==> i < self.ui.input_history@.len()
    }

    /// Everything but the interface state is the same.
    pub open spec fn same_data(a: &ChatApp, b: &ChatApp) -> bool {
        &&& a.messages == b.messages
        &&& a.is_loading == b.is_loading
        &&& a.history_manager == b.history_manager
        &&& a.send_buffer == b.send_buffer
        &&& a.todo_manager == b.todo_manager
    }

    /// Recounts the input lines (at least one).
    pub fn update_input_line_count(&mut self)
        ensures
            final(self).ui@ == (UiView { input_line_count: input_line_count_spec(old(self).ui.input@) as usize, ..old(self).ui@ }),
            Self::same_data(&*final(self), &*old(self)),
            final(self).ui.history_index == old(self).ui.history_index,
            final(self).ui.input_history == old(self).ui.input_history,
    {
        self.ui.input_line_count = input_line_count(self.ui.input.as_str());
    }

    /// One cluster to the left, when there is one.
    pub fn move_cursor_left(&mut self)
        ensures
            final(self).ui@ == (UiView {
                cursor_position: if old(self).ui.cursor_position > 0 {
                    (old(self).ui.cursor_position - 1) as usize
                } else {
                    old(self).ui.cursor_position
                },
                ..old(self).ui@
            }),
            Self::same_data(&*final(self), &*old(self)),
            final(self).ui.history_index == old(self).ui.history_index,
            final(self).ui.input_history == old(self).ui.input_history,
    {
        if self.ui.cursor_position > 0 {
            self.ui.cursor_position = self.ui.cursor_position - 1;
        }
    }

    /// One cluster to the right, up to the end of the input.
    pub fn move_cursor_right(&mut self)
        ensures
            final(self).ui@ == (UiView {
                cursor_position: if old(self).ui.cursor_position < clusters(old(self).ui.input@) {
                    (old(self).ui.cursor_position + 1) as usize
                } else {
                    old(self).ui.cursor_position
                },
                ..old(self).ui@
            }),
            Self::same_data(&*final(self), &*old(self)),
            final(self).ui.history_index == old(self).ui.history_index,
            final(self).ui.input_history == old(self).ui.input_history,
    {
        let n = grapheme_count(self.ui.input.as_str());
        if self.ui.cursor_position < n {
            self.ui.cursor_position = self.ui.cursor_position + 1;
        }
    }

    /// The cursor's line and display column.
    pub fn calculate_cursor_position(&self) -> (r: (usize, usize))
        ensures
            (r.0 as nat, r.1 as nat) == cursor_position_spec(self.ui.input@, self.ui.cursor_position as int),
    {
        cursor_position(self.ui.input.as_str(), self.ui.cursor_position)
    }

    /// The cluster index where line `line` of the input starts.
    pub fn get_line_start_position(&self, line: usize) -> (r: usize)
        ensures
            r == line_start(graphemes_of(self.ui.input@), line as nat),
    {
        line_start_position(self.ui.input.as_str(), line)
    }

    /// To the same column of the line above, when there is one.
    pub fn move_cursor_up(&mut self)
        ensures
            final(self).ui@ == (UiView {
                cursor_position: cursor_up_spec(old(self).ui.input@, old(self).ui.cursor_position as int) as usize,
                ..old(self).ui@
            }),
            Self::same_data(&*final(self), &*old(self)),
            final(self).ui.history_index == old(self).ui.history_index,
            final(self).ui.input_history == old(self).ui.input_history,
    {
        self.ui.cursor_position = cursor_up(self.ui.input.as_str(), self.ui.cursor_position);
    }

    /// To the same column of the line below, when there is one.
    pub fn move_cursor_down(&mut self)
        ensures
            final(self).ui@ == (UiView {
                cursor_position: cursor_down_spec(old(self).ui.input@, old(self).ui.cursor_position as int) as usize,
                ..old(self).ui@
            }),
            Self::same_data(&*final(self), &*old(self)),
            final(self).ui.history_index == old(self).ui.history_index,
            final(self).ui.input_history == old(self).ui.input_history,
    {
        self.ui.cursor_position = cursor_down(self.ui.input.as_str(), self.ui.cursor_position);
    }

    /// Inserts a character before the cursor's cluster (at the end when the
    /// cursor is past it) and moves the cursor past it.
    pub fn insert_char(&mut self, c: char)
        requires
            old(self).ui.cursor_position < usize::MAX,
        ensures
            final(self).ui@ == (UiView {
                input: insert_char_spec(old(self).ui.input@, old(self).ui.cursor_position as int, c),
                cursor_position: (old(self).ui.cursor_position + 1) as usize,
                input_line_count: input_line_count_spec(
                    insert_char_spec(old(self).ui.input@, old(self).ui.cursor_position as int, c),
                ) as usize,
                ..old(self).ui@
            }),
            Self::same_data(&*final(self), &*old(self)),
            final(self).ui.history_index == old(self).ui.history_index,
            final(self).ui.input_history == old(self).ui.input_history,
    {
        self.ui.input = insert_char_at(self.ui.input.as_str(), self.ui.cursor_position, c);
        self.ui.cursor_position = self.ui.cursor_position + 1;
        self.update_input_line_count();
    }

    /// Deletes the cluster at the cursor, when there is one.
    pub fn delete_char_at_cursor(&mut self)
        ensures
            match delete_at_spec(old(self).ui.input@, old(self).ui.cursor_position as int) {
                Some(s) => final(self).ui@ == (UiView {
                    input: s,
                    input_line_count: input_line_count_spec(s) as usize,
                    ..old(self).ui@
                }),
                None => final(self).ui@ == old(self).ui@,
            },
            Self::same_data(&*final(self), &*old(self)),
            final(self).ui.history_index == old(self).ui.history_index,
            final(self).ui.input_history == old(self).ui.input_history,
    {
        match delete_at(self.ui.input.as_str(), self.ui.cursor_position) {
            Some(s) => {
                self.ui.input = s;
                self.update_input_line_count();
            },
            None => {},
        }
    }

    /// Deletes the cluster before the cursor (backspace).
    pub fn delete_char_before_cursor(&mut self)
        ensures
            old(self).ui.cursor_position == 0 ==> final(self).ui@ == old(self).ui@,
            old(self).ui.cursor_position > 0 ==> {
                let c = (old(self).ui.cursor_position - 1) as usize;
                match delete_at_spec(old(self).ui.input@, c as int) {
                    Some(s) => final(self).ui@ == (UiView {
                        input: s,
                        cursor_position: c,
                        input_line_count: input_line_count_spec(s) as usize,
                        ..old(self).ui@
                    }),
                    None => final(self).ui@ == (UiView { cursor_position: c, ..old(self).ui@ }),
                }
            },
            Self::same_data(&*final(self), &*old(self)),
            final(self).ui.history_index == old(self).ui.history_index,
            final(self).ui.input_history == old(self).ui.input_history,
    {
        if self.ui.cursor_position > 0 {
            self.ui.cursor_position = self.ui.cursor_position - 1;
            self.delete_char_at_cursor();
        }
    }

    /// Selects the message row at the scroll position, when there are messages.
    pub fn update_list_state_from_scroll(&mut self)
        ensures
            final(self).ui@ == (UiView {
                list_state: if old(self).messages@.len() > 0 {
                    Some(old(self).ui.scroll_offset)
                } else {
                    old(self).ui.list_state
                },
                ..old(self).ui@
            }),
            Self::same_data(&*final(self), &*old(self)),
            final(self).ui.history_index == old(self).ui.history_index,
            final(self).ui.input_history == old(self).ui.input_history,
    {
        if self.messages.len() > 0 {
            self.ui.list_state = Some(self.ui.scroll_offset);
        }
    }

    /// Scrolls the messages up one row.
    pub fn scroll_messages_up(&mut self)
        ensures
            old(self).ui.scroll_offset == 0 ==> final(self).ui@ == old(self).ui@,
            old(self).ui.scroll_offset > 0 ==> final(self).ui@ == (UiView {
                scroll_offset: (old(self).ui.scroll_offset - 1) as usize,
                list_state: if old(self).messages@.len() > 0 {
                    Some((old(self).ui.scroll_offset - 1) as usize)
                } else {
                    old(self).ui.list_state
                },
                ..old(self).ui@
            }),
            Self::same_data(&*final(self), &*old(self)),
            final(self).ui.history_index == old(self).ui.history_index,
            final(self).ui.input_history == old(self).ui.input_history,
    {
        if self.ui.scroll_offset > 0 {
            self.ui.scroll_offset = self.ui.scroll_offset - 1;
            self.update_list_state_from_scroll();
        }
    }

    /// Scrolls the messages down one row.
    pub fn scroll_messages_down(&mut self)
        requires
            old(self).ui.scroll_offset < usize::MAX,
        ensures
            final(self).ui@ == (UiView { scroll_offset: (old(self).ui.scroll_offset + 1) as usize, ..old(self).ui@ }),
            Self::same_data(&*final(self), &*old(self)),
            final(self).ui.history_index == old(self).ui.history_index,
            final(self).ui.input_history == old(self).ui.input_history,
    {
        self.ui.scroll_offset = self.ui.scroll_offset + 1;
    }

    /// To the start of the next word: past the rest of this word and the
    /// white space after it.
    pub fn move_to_next_word(&mut self)
        ensures
            final(self).ui@ == (UiView {
                cursor_position: next_word_spec(old(self).ui.input@, old(self).ui.cursor_position as int) as usize,
                ..old(self).ui@
            }),
            Self::same_data(&*final(self), &*old(self)),
            final(self).ui.history_index == old(self).ui.history_index,
            final(self).ui.input_history == old(self).ui.input_history,
    {
        self.ui.cursor_position = next_word(self.ui.input.as_str(), self.ui.cursor_position);
    }

    /// To the start of the previous word. A cursor that lies beyond the
    /// input (where the clusters before it cannot be read) stays.
    pub fn move_to_prev_word(&mut self)
        ensures
            prev_word_allowed(old(self).ui.input@, old(self).ui.cursor_position as int) ==> final(self).ui@ == (UiView {
                cursor_position: prev_word_spec(old(self).ui.input@, old(self).ui.cursor_position as int) as usize,
                ..old(self).ui@
            }),
            !prev_word_allowed(old(self).ui.input@, old(self).ui.cursor_position as int) ==> final(self).ui@
                == old(self).ui@,
            Self::same_data(&*final(self), &*old(self)),
            final(self).ui.history_index == old(self).ui.history_index,
            final(self).ui.input_history == old(self).ui.input_history,
    {
        let n = grapheme_count(self.ui.input.as_str());
        if self.ui.cursor_position <= n || self.ui.cursor_position == 1 {
            self.ui.cursor_position = prev_word(self.ui.input.as_str(), self.ui.cursor_position);
        }
    }

    /// The selected cluster range of visual mode: from the earlier of the
    /// anchor and the cursor to one past the later.
    pub fn get_visual_selection_range(&self) -> (r: Option<(usize, usize)>)
        requires
            self.ui.cursor_position < usize::MAX,
            self.ui.visual_start matches Some(s) ==> s < usize::MAX,
        ensures
            match r {
                Some((a, b)) => selection_range_spec(self.ui.visual_start, self.ui.cursor_position as int) == Some(
                    (a as int, b as int),
                ),
                None => selection_range_spec(self.ui.visual_start, self.ui.cursor_position as int) is None,
            },
    {
        selection_range(self.ui.visual_start, self.ui.cursor_position)
    }

    /// Deletes the visual selection; the cursor goes to its start (or to
    /// the end of the shorter input).
    pub fn delete_visual_selection(&mut self)
        requires
            old(self).ui.cursor_position < usize::MAX,
            old(self).ui.visual_start matches Some(s) ==> s < usize::MAX,
        ensures
            match selection_range_spec(old(self).ui.visual_start, old(self).ui.cursor_position as int) {
                Some((a, b)) => {
                    let s = cut_spec(old(self).ui.input@, a, b);
                    final(self).ui@ == (UiView {
                        input: s,
                        cursor_position: (if a < clusters(s) {
                            a
                        } else {
                            clusters(s)
                        }) as usize,
                        ..old(self).ui@
                    })
                },
                None => final(self).ui@ == old(self).ui@,
            },
            Self::same_data(&*final(self), &*old(self)),
            final(self).ui.history_index == old(self).ui.history_index,
            final(self).ui.input_history == old(self).ui.input_history,
    {
        match self.get_visual_selection_range() {
            Some((a, b)) => {
                self.ui.input = cut_range(self.ui.input.as_str(), a, b);
                let n = grapheme_count(self.ui.input.as_str());
                self.ui.cursor_position = if a < n {
                    a
                } else {
                    n
                };
            },
            None => {},
        }
    }

    /// Shows a notification.
    pub fn show_notification(&mut self, message: &str)
        ensures
            final(self).ui@ == (UiView { notification: Some(message@), ..old(self).ui@ }),
            Self::same_data(&*final(self), &*old(self)),
            final(self).ui.history_index == old(self).ui.history_index,
            final(self).ui.input_history == old(self).ui.input_history,
    {
        self.ui.notification = Some(crate::text::to_owned_string(message));
    }
}

} // verus!

verus! {

/// The input shown when history entry `i` is recalled.
pub open spec fn recalled(h: Seq<Seq<char>>, i: int) -> Seq<char> {
    h[i]
}

/// The input history after a message: the message is added unless it
/// repeats the last entry, and the oldest entry goes when there are more
/// than fifty.
pub open spec fn history_after(h: Seq<Seq<char>>, m: Seq<char>) -> Seq<Seq<char>> {
    let h1 = if h.len() == 0 || h.last() != m {
        h.push(m)
    } else {
        h
    };
    if h1.len() > 50 {
        h1.drop_first()
    } else {
        h1
    }
}

/// The interface with `text` in the input, the cursor at its end and the
/// line count updated.
pub open spec fn with_input(u: UiView, text: Seq<char>) -> UiView {
    UiView {
        input: text,
        cursor_position: clusters(text) as usize,
        input_line_count: input_line_count_spec(text) as usize,
        ..u
    }
}

impl ChatApp {
    fn set_input_at_end(&mut self, text: String)
        ensures
            final(self).ui@ == with_input(old(self).ui@, text@),
            final(self).ui.cursor_position == clusters(text@),
            Self::same_data(&*final(self), &*old(self)),
            final(self).ui.history_index == old(self).ui.history_index,
            final(self).ui.input_history == old(self).ui.input_history,
    {
        self.ui.input = text;
        self.ui.cursor_position = grapheme_count(self.ui.input.as_str());
        self.update_input_line_count();
    }

    /// Recalls the previous entry of the input history (the newest one when
    /// none is recalled yet, keeping the current input aside).
    pub fn navigate_history_up(&mut self)
        requires
            old(self).wf(),
        ensures
            final(self).wf(),
            Self::same_data(&*final(self), &*old(self)),
            final(self).ui.input_history == old(self).ui.input_history,
            final(self).ui@ == old(self).ui@ || final(self).ui.cursor_position == clusters(final(self).ui@.input),
            ({
                let h = old(self).ui@.input_history;
                if h.len() == 0 {
                    final(self).ui@ == old(self).ui@
                } else {
                    let idx: usize = match old(self).ui.history_index {
                        Some(i) => if i > 0 {
                            (i - 1) as usize
                        } else {
                            0
                        },
                        None => (h.len() - 1) as usize,
                    };
                    let temp = match old(self).ui.history_index {
                        Some(_) => old(self).ui@.temp_input,
                        None => old(self).ui@.input,
                    };
                    final(self).ui@ == with_input(
                        UiView { history_index: Some(idx), temp_input: temp, ..old(self).ui@ },
                        recalled(h, idx as int),
                    )
                }
            }),
    {
        let n = self.ui.input_history.len();
        if n == 0 {
            return;
        }
        let new_index = match self.ui.history_index {
            Some(idx) => {
                if idx > 0 {
                    idx - 1
                } else {
                    0
                }
            },
            None => {
                self.ui.temp_input = self.ui.input.clone();
                n - 1
            },
        };
        self.ui.history_index = Some(new_index);
        assert(self.ui.input_history.deep_view()[new_index as int] == self.ui.input_history[new_index as int]@);
        let text = self.ui.input_history[new_index].clone();
        self.set_input_at_end(text);
    }

    /// Recalls the next entry of the input history; past the newest, the
    /// input kept aside comes back.
    pub fn navigate_history_down(&mut self)
        requires
            old(self).wf(),
        ensures
            final(self).wf(),
            Self::same_data(&*final(self), &*old(self)),
            final(self).ui.input_history == old(self).ui.input_history,
            final(self).ui@ == old(self).ui@ || final(self).ui.cursor_position == clusters(final(self).ui@.input),
            ({
                let h = old(self).ui@.input_history;
                if h.len() == 0 {
                    final(self).ui@ == old(self).ui@
                } else {
                    match old(self).ui.history_index {
                        None => final(self).ui@ == old(self).ui@,
                        Some(i) => if i < h.len() - 1 {
                            final(self).ui@ == with_input(
                                UiView { history_index: Some((i + 1) as usize), ..old(self).ui@ },
                                recalled(h, i + 1),
                            )
                        } else {
                            final(self).ui@ == with_input(
                                UiView { history_index: None, temp_input: Seq::empty(), ..old(self).ui@ },
                                old(self).ui@.temp_input,
                            )
                        },
                    }
                }
            }),
    {
        let n = self.ui.input_history.len();
        if n == 0 {
            return;
        }
        let new_index = match self.ui.history_index {
            Some(idx) => {
                if idx < n - 1 {
                    idx + 1
                } else {
                    self.reset_history_navigation();
                    return;
                }
            },
            None => return,
        };
        self.ui.history_index = Some(new_index);
        assert(self.ui.input_history.deep_view()[new_index as int] == self.ui.input_history[new_index as int]@);
        let text = self.ui.input_history[new_index].clone();
        self.set_input_at_end(text);
    }

    /// Leaves history recall: the input kept aside comes back.
    pub fn reset_history_navigation(&mut self)
        requires
            old(self).wf(),
        ensures
            final(self).wf(),
            Self::same_data(&*final(self), &*old(self)),
            final(self).ui.input_history == old(self).ui.input_history,
            final(self).ui@ == old(self).ui@ || final(self).ui.cursor_position == clusters(final(self).ui@.input),
            old(self).ui.history_index is None ==> final(self).ui@ == old(self).ui@,
            old(self).ui.history_index is Some ==> final(self).ui@ == with_input(
                UiView { history_index: None, temp_input: Seq::empty(), ..old(self).ui@ },
                old(self).ui@.temp_input,
            ),
    {
        if self.ui.history_index.is_some() {
            let text = self.ui.temp_input.clone();
            self.ui.temp_input = String::new();
            self.ui.history_index = None;
            self.set_input_at_end(text);
        }
    }

    /// Adds a sent message to the input history and leaves history recall.
    pub fn add_to_input_history(&mut self, message: String)
        ensures
            final(self).ui@ == (UiView {
                input_history: history_after(old(self).ui@.input_history, message@),
                history_index: None,
                ..old(self).ui@
            }),
            Self::same_data(&*final(self), &*old(self)),
    {
        let n = self.ui.input_history.len();
        let ghost h = self.ui@.input_history;
        let repeat = n > 0 && str_eq(self.ui.input_history[n - 1].as_str(), message.as_str());
        proof {
            if n > 0 {
                assert(h.last() == self.ui.input_history[n - 1]@);
            }
        }
        if !repeat {
            let ghost mv = message@;
            self.ui.input_history.push(message);
            assert(self.ui.input_history.deep_view() =~= h.push(mv));
        }
        if self.ui.input_history.len() > 50 {
            let ghost h1 = self.ui.input_history.deep_view();
            self.ui.input_history.remove(0);
            assert(self.ui.input_history.deep_view() =~= h1.drop_first());
        }
        self.ui.history_index = None;
    }

    /// Copies the selected message into the input (on a new line after any
    /// text there) and enters insert mode.
    pub fn insert_selected_message(&mut self)
        requires
            old(self).wf(),
        ensures
            final(self).wf(),
            Self::same_data(&*final(self), &*old(self)),
            final(self).ui.input_history == old(self).ui.input_history,
            final(self).ui@ == old(self).ui@ || final(self).ui.cursor_position == clusters(final(self).ui@.input),
            match old(self).ui.list_state {
                Some(i) => if i < old(self).messages@.len() {
                    let c = old(self).messages@[i as int].content@;
                    let text = if old(self).ui@.input.len() == 0 {
                        c
                    } else {
                        old(self).ui@.input.push('\n') + c
                    };
                    final(self).ui@ == with_input(UiView { input_mode: InputMode::Insert, ..old(self).ui@ }, text)
                } else {
                    final(self).ui@ == old(self).ui@
                },
                None => final(self).ui@ == old(self).ui@,
            },
    {
        match self.ui.list_state {
            Some(i) => {
                if i < self.messages.len() {
                    let mut v = chars_of(self.ui.input.as_str());
                    if v.len() > 0 {
                        v.push('\n');
                    }
                    push_str_chars(&mut v, self.messages[i].content.as_str());
                    let text = string_of(&v);
                    self.ui.input_mode = InputMode::Insert;
                    self.set_input_at_end(text);
                }
            },
            None => {},
        }
    }

    /// At most `max_chars` characters of a text, with "..." when cut.
    pub fn truncate_string_safe(s: &str, max_chars: usize) -> (r: String)
        ensures
            r@ == truncate_spec(s@, max_chars as int),
    {
        truncate_chars(s, max_chars)
    }
}

} // verus!

verus! {

/// How a message is shown: "You: " or "AI: " and its text.
pub open spec fn display_text(m: MessageView) -> Seq<char> {
    (if m.is_user {
        "You"@
    } else {
        "AI"@
    }) + ": "@ + m.content
}

/// The rows the messages take when wrapped to `width` columns.
pub open spec fn total_rows(ms: Seq<MessageView>, width: nat) -> nat
    decreases ms.len(),
{
    if ms.len() == 0 {
        0
    } else {
        total_rows(ms.drop_last(), width) + lines_of(crate::markdown::wrapped(display_text(ms.last()), width)).len()
    }
}

/// `a - b`, or zero when `b` is larger, capped at `usize::MAX`.
pub open spec fn rows_above(a: nat, b: nat) -> usize {
    if a <= b {
        0
    } else if a - b > usize::MAX {
        usize::MAX
    } else {
        (a - b) as usize
    }
}

/// How a message is shown.
pub fn message_display_text(m: &ChatMessage) -> (r: String)
    ensures
        r@ == display_text(m@),
{
    let mut v = if m.is_user {
        chars_of("You")
    } else {
        chars_of("AI")
    };
    push_str_chars(&mut v, ": ");
    push_str_chars(&mut v, m.content.as_str());
    string_of(&v)
}

impl ChatApp {
    /// Scrolls so that the last messages fill `visible_height` rows of a
    /// view wrapped to 72 columns, and selects that row. (A count of rows
    /// beyond `usize::MAX` is taken as `usize::MAX`.)
    pub fn scroll_to_bottom(&mut self, visible_height: usize)
        ensures
            Self::same_data(&*final(self), &*old(self)),
            final(self).ui.history_index == old(self).ui.history_index,
            final(self).ui.input_history == old(self).ui.input_history,
            old(self).messages@.len() == 0 ==> final(self).ui@ == old(self).ui@,
            old(self).messages@.len() > 0 ==> {
                let off = rows_above(total_rows(msgs(old(self).messages@), 72), visible_height as nat);
                final(self).ui@ == (UiView { scroll_offset: off, list_state: Some(off), ..old(self).ui@ })
            },
    {
        if self.messages.len() == 0 {
            return;
        }
        let ghost ms = msgs(self.messages@);
        let mut acc: u128 = 0;
        let mut i: usize = 0;
        let n = self.messages.len();
        while i < n
            invariant
                i <= n,
                n == self.messages@.len(),
                ms == msgs(self.messages@),
                acc == total_rows(ms.take(i as int), 72),
                acc <= i * (usize::MAX as int),
            decreases n - i,
        {
            assert(ms.take(i + 1).drop_last() =~= ms.take(i as int));
            let text = message_display_text(&self.messages[i]);
            let wrapped = crate::markdown::wrap_text(text.as_str(), 72);
            let rows = line_count(wrapped.as_str());
            assert(acc + rows <= (i + 1) * (usize::MAX as int)) by (nonlinear_arith)
                requires
                    acc <= i * (usize::MAX as int),
                    rows <= usize::MAX,
            ;
            assert((i + 1) * (usize::MAX as int) <= (usize::MAX as int) * (usize::MAX as int)) by (nonlinear_arith)
                requires
                    i + 1 <= usize::MAX,
            ;
            assert((usize::MAX as int) * (usize::MAX as int) < 0x1_0000_0000_0000_0000_0000_0000_0000_0000int) by (nonlinear_arith)
                requires
                    usize::MAX <= 0xffff_ffff_ffff_ffffint,
            ;
            acc = acc + rows as u128;
            i = i + 1;
        }
        assert(ms.take(i as int) =~= ms);
        let vis = visible_height as u128;
        let diff: u128 = if acc > vis {
            acc - vis
        } else {
            0
        };
        let off: usize = if diff > usize::MAX as u128 {
            usize::MAX
        } else {
            diff as usize
        };
        self.ui.scroll_offset = off;
        self.ui.list_state = Some(off);
    }
}

} // verus!

verus! {

/// The "@file:" references of a message, in order: after each "@file:",
/// the text up to the next space (possibly empty).
#[verifier::opaque]
pub open spec fn ref_scan(s: Seq<char>) -> Seq<Seq<char>>
    decreases s.len(),
{
    match crate::text::first_occurrence(s, "@file:"@) {
        Some(start) => {
            let k = start + "@file:"@.len();
            if 0 <= start && "@file:"@.len() > 0 && k <= s.len() {
                let after = s.skip(k);
                let end = crate::text::char_index(after, ' ');
                if 0 <= end <= after.len() {
                    seq![after.take(end)] + ref_scan(after.skip(end))
                } else {
                    Seq::empty()
                }
            } else {
                Seq::empty()
            }
        },
        None => Seq::empty(),
    }
}

/// The message with each found reference "@file:path" replaced by nothing,
/// one after the other.
pub open spec fn strip_refs(m: Seq<char>, paths: Seq<Seq<char>>) -> Seq<char>
    decreases paths.len(),
{
    if paths.len() == 0 {
        m
    } else {
        strip_refs(crate::text::replace_seq(m, "@file:"@ + paths[0], Seq::empty()), paths.drop_first())
    }
}

/// The non-empty paths, in order.
pub open spec fn nonempty_paths(ps: Seq<Seq<char>>) -> Seq<Seq<char>>
    decreases ps.len(),
{
    if ps.len() == 0 {
        Seq::empty()
    } else {
        nonempty_paths(ps.drop_last()) + if ps.last().len() > 0 {
            seq![ps.last()]
        } else {
            Seq::empty()
        }
    }
}

/// A sequence without its repeated neighbours (`Vec::dedup`).
pub open spec fn dedup_seq(s: Seq<Seq<char>>) -> Seq<Seq<char>>
    decreases s.len(),
{
    if s.len() == 0 {
        Seq::empty()
    } else {
        let d = dedup_seq(s.drop_last());
        if d.len() > 0 && d.last() == s.last() {
            d
        } else {
            d.push(s.last())
        }
    }
}

/// Each element is no greater than the later ones.
pub open spec fn sorted_names(s: Seq<Seq<char>>) -> bool {
    forall|i: int, j: int| 0 <= i < j < s.len() ==> crate::file_access::str_le(#[trigger] s[i], #[trigger] s[j])
}

fn dedup_names(v: &Vec<String>) -> (r: Vec<String>)
    ensures
        r.deep_view() == dedup_seq(v.deep_view()),
{
    let mut out: Vec<String> = Vec::new();
    let mut i: usize = 0;
    while i < v.len()
        invariant
            i <= v.len(),
            out.deep_view() == dedup_seq(v.deep_view().take(i as int)),
        decreases v.len() - i,
    {
        assert(v.deep_view().take(i + 1).drop_last() =~= v.deep_view().take(i as int));
        assert(v.deep_view()[i as int] == v[i as int]@);
        let n = out.len();
        let same = n > 0 && str_eq(out[n - 1].as_str(), v[i].as_str());
        proof {
            if n > 0 {
                assert(out.deep_view().last() == out[n - 1]@);
            }
        }
        if !same {
            let ghost before = out.deep_view();
            out.push(v[i].clone());
            assert(out.deep_view() =~= before.push(v[i as int]@));
        }
        i = i + 1;
    }
    assert(v.deep_view().take(i as int) =~= v.deep_view());
    out
}

proof fn lemma_file_prefix()
    ensures
        "@file:"@.len() == 6,
{
    reveal_strlit("@file:");
}

proof fn lemma_ref_scan_found(s: Seq<char>, start: int, end: int)
    requires
        crate::text::first_occurrence(s, "@file:"@) == Some(start),
        0 <= start,
        start + 6 <= s.len(),
        end == crate::text::char_index(s.skip(start + 6), ' '),
    ensures
        0 <= end <= s.len() - start - 6,
        ref_scan(s) == seq![s.skip(start + 6).take(end)] + ref_scan(s.skip(start + 6).skip(end)),
{
    reveal(ref_scan);
    lemma_file_prefix();
    crate::text::lemma_char_index(s.skip(start + 6), ' ');
}

proof fn lemma_ref_scan_none(s: Seq<char>)
    requires
        crate::text::first_occurrence(s, "@file:"@) is None,
    ensures
        ref_scan(s) == Seq::<Seq<char>>::empty(),
{
    reveal(ref_scan);
}

#[verifier::rlimit(80)]
fn scan_one(m: &Vec<char>, pos: usize) -> (r: Option<(Vec<char>, usize)>)
    requires
        pos <= m.len(),
    ensures
        match r {
            Some((path, np)) => pos < np <= m.len() && ref_scan(m@.skip(pos as int)) == seq![path@] + ref_scan(
                m@.skip(np as int),
            ),
            None => ref_scan(m@.skip(pos as int)) == Seq::<Seq<char>>::empty(),
        },
{
    let prefix = chars_of("@file:");
    proof {
        lemma_file_prefix();
    }
    let rest = crate::text::slice_chars(m, pos, m.len());
    assert(rest@ =~= m@.skip(pos as int));
    match crate::text::find_chars(&rest, &prefix) {
        Some(start) => {
            let k = start + prefix.len();
            let after = crate::text::slice_chars(&rest, k, rest.len());
            let end = crate::text::char_index_from(&after, ' ', 0);
            let path = crate::text::slice_chars(&after, 0, end);
            proof {
                assert(after@ =~= rest@.skip(k as int));
                assert(after@.subrange(0, after@.len() as int) =~= after@);
                lemma_ref_scan_found(rest@, start as int, end as int);
                assert(rest@.skip(k as int).skip(end as int) =~= m@.skip(pos + k + end));
                assert(path@ =~= after@.take(end as int));
            }
            Some((path, pos + k + end))
        },
        None => {
            proof {
                lemma_ref_scan_none(rest@);
            }
            None
        },
    }
}

fn scan_refs(m: &Vec<char>) -> (r: Vec<Vec<char>>)
    ensures
        r.deep_view() == ref_scan(m@),
{
    let mut found: Vec<Vec<char>> = Vec::new();
    let mut pos: usize = 0;
    assert(m@.skip(0) =~= m@);
    loop
        invariant
            pos <= m.len(),
            ref_scan(m@) == found.deep_view() + ref_scan(m@.skip(pos as int)),
        decreases m.len() - pos,
    {
        match scan_one(m, pos) {
            Some((path, np)) => {
                let ghost fb = found.deep_view();
                let ghost pv = path@;
                assert(path.deep_view() =~= path@);
                found.push(path);
                assert(found.deep_view() =~= fb.push(pv));
                assert(fb + ref_scan(m@.skip(pos as int)) =~= found.deep_view() + ref_scan(m@.skip(np as int)));
                pos = np;
            },
            None => {
                assert(found.deep_view() + Seq::<Seq<char>>::empty() =~= found.deep_view());
                return found;
            },
        }
    }
}

fn strip_found(message: &str, found: &Vec<Vec<char>>) -> (r: Vec<char>)
    ensures
        r@ == strip_refs(message@, found.deep_view()),
{
    let ghost fv = found.deep_view();
    let mut clean = chars_of(message);
    let mut i: usize = 0;
    assert(fv.skip(0) =~= fv);
    while i < found.len()
        invariant
            i <= found.len(),
            fv == found.deep_view(),
            strip_refs(message@, fv) == strip_refs(clean@, fv.skip(i as int)),
        decreases found.len() - i,
    {
        assert(fv[i as int] == found[i as int]@);
        let mut pat = chars_of("@file:");
        push_all(&mut pat, &found[i]);
        proof {
            reveal_strlit("@file:");
        }
        let empty: Vec<char> = Vec::new();
        assert(empty@ =~= Seq::<char>::empty());
        clean = crate::text::replace_chars(&clean, &pat, &empty);
        proof {
            assert(fv.skip(i as int)[0] == fv[i as int]);
            assert(fv.skip(i as int).drop_first() =~= fv.skip(i + 1));
        }
        i = i + 1;
    }
    assert(fv.skip(i as int) =~= Seq::<Seq<char>>::empty());
    clean
}

fn gather_paths(found: &Vec<Vec<char>>, selected: &Vec<String>) -> (r: Vec<String>)
    ensures
        r.deep_view() == nonempty_paths(found.deep_view()) + selected.deep_view(),
{
    let ghost fv = found.deep_view();
    let mut paths: Vec<String> = Vec::new();
    let mut i: usize = 0;
    while i < found.len()
        invariant
            i <= found.len(),
            fv == found.deep_view(),
            paths.deep_view() == nonempty_paths(fv.take(i as int)),
        decreases found.len() - i,
    {
        assert(fv[i as int] == found[i as int]@);
        assert(fv.take(i + 1).drop_last() =~= fv.take(i as int));
        if found[i].len() > 0 {
            let ghost before = paths.deep_view();
            paths.push(string_of(&found[i]));
            assert(paths.deep_view() =~= before.push(fv[i as int]));
        } else {
            assert(nonempty_paths(fv.take(i + 1)) =~= paths.deep_view());
        }
        i = i + 1;
    }
    assert(fv.take(i as int) =~= fv);
    let ghost np = paths.deep_view();
    let mut j: usize = 0;
    while j < selected.len()
        invariant
            j <= selected.len(),
            paths.deep_view() == np + selected.deep_view().take(j as int),
        decreases selected.len() - j,
    {
        let ghost before = paths.deep_view();
        paths.push(selected[j].clone());
        assert(paths.deep_view() =~= before.push(selected.deep_view()[j as int]));
        assert(selected.deep_view().take(j + 1) =~= selected.deep_view().take(j as int).push(
            selected.deep_view()[j as int],
        ));
        j = j + 1;
    }
    assert(selected.deep_view().take(j as int) =~= selected.deep_view());
    paths
}

impl ChatApp {
    /// Splits a message into its text and the files it refers to: every
    /// "@file:path" (up to the next space) is taken out of the text, which
    /// is then trimmed; the non-empty paths and the selected files are
    /// sorted, without repeats.
    pub fn parse_file_references(&self, message: &str) -> (r: (String, Vec<String>))
        ensures
            ({
                let found = ref_scan(message@);
                &&& r.0@ == trim_seq(strip_refs(message@, found))
                &&& exists|s: Seq<Seq<char>>|
                    #![trigger dedup_seq(s)]
                    sorted_names(s) && s.to_multiset() == (nonempty_paths(found)
                        + self.ui@.selected_files).to_multiset() && r.1.deep_view() == dedup_seq(s)
            }),
    {
        let m = chars_of(message);
        let found = scan_refs(&m);
        let clean = strip_found(message, &found);
        let mut paths = gather_paths(&found, &self.ui.selected_files);
        crate::file_access::sort_strings(&mut paths);
        let files = dedup_names(&paths);
        let text = trim_chars(&clean);
        proof {
            assert(sorted_names(paths.deep_view()));
        }
        (string_of(&text), files)
    }
}

} // verus!

verus! {

/// The messages of the current session, if it exists.
pub open spec fn current_messages(h: crate::history::ChatHistory) -> Seq<MessageView> {
    match h.current_session_id {
        Some(id) => if h.map().contains_key(id) {
            h.map()[id].messages
        } else {
            Seq::empty()
        },
        None => Seq::empty(),
    }
}

/// A single message from the assistant with the given text.
pub open spec fn lone_note(ms: Seq<MessageView>, text: Seq<char>) -> bool {
    ms.len() == 1 && ms[0].content == text && !ms[0].is_user
}

/// The shown messages `after` are `before` with one more note from the
/// assistant, reading `text`.
pub open spec fn note_added(before: Seq<MessageView>, after: Seq<MessageView>, text: Seq<char>) -> bool {
    &&& after.len() == before.len() + 1
    &&& after.drop_last() == before
    &&& after.last().content == text
    &&& !after.last().is_user
}

/// The shown messages after restoring a session: its messages, or a
/// welcome note when it has none.
pub open spec fn restored(h: crate::history::ChatHistory, ms: Seq<MessageView>) -> bool {
    if current_messages(h).len() > 0 {
        ms == current_messages(h)
    } else {
        lone_note(ms, "Welcome to ConTUI!"@)
    }
}

/// The selection after a step through `n` entries, wrapping around (a
/// selection past the end counts from the start again).
pub open spec fn stepped(sel: Option<usize>, n: nat, forward: bool) -> usize {
    let c = match sel {
        Some(s) => (s as int) % (n as int),
        None => 0,
    };
    (if forward {
        if c + 1 == n {
            0
        } else {
            c + 1
        }
    } else if c == 0 {
        n - 1
    } else {
        c - 1
    }) as usize
}

/// `l` lists the sessions of `h` as the session list shows them: most
/// recently updated first (`by_recency`).
pub open spec fn recency_order(h: crate::history::ChatHistory, l: Seq<&crate::history::ChatSession>) -> bool {
    &&& crate::history::derefs(l) == crate::history::by_recency(h.sessions@)
    &&& l.len() == h.sessions@.len()
    &&& crate::history::drawn_from(l, h.sessions@, h.sessions@.len() as int)
    &&& crate::history::covers(l, h.sessions@, h.sessions@.len() as int)
    &&& crate::history::sorted_by_recency(l)
}

fn note(text: &str) -> (r: ChatMessage)
    ensures
        r@.content == text@,
        !r@.is_user,
{
    ChatMessage { id: new_uuid(), content: crate::text::to_owned_string(text), is_user: false, timestamp: now_utc() }
}

impl ChatApp {
    fn select_session_offset(&mut self, forward: bool)
        requires
            old(self).wf(),
        ensures
            final(self).wf(),
            Self::same_data(&*final(self), &*old(self)),
            final(self).ui.history_index == old(self).ui.history_index,
            final(self).ui.input_history == old(self).ui.input_history,
            old(self).history_manager.history.sessions@.len() == 0 ==> final(self).ui@ == old(self).ui@,
            old(self).history_manager.history.sessions@.len() > 0 ==> final(self).ui@ == (UiView {
                session_list_state: Some(
                    stepped(
                        old(self).ui.session_list_state,
                        old(self).history_manager.history.sessions@.len(),
                        forward,
                    ),
                ),
                ..old(self).ui@
            }),
    {
        let n = self.history_manager.history.sessions.len();
        if n == 0 {
            return;
        }
        let cur = match self.ui.session_list_state {
            Some(s) => s % n,
            None => 0,
        };
        let next = if forward {
            if cur + 1 == n {
                0
            } else {
                cur + 1
            }
        } else if cur == 0 {
            n - 1
        } else {
            cur - 1
        };
        self.ui.session_list_state = Some(next);
    }

    /// Selects the next session, wrapping around.
    pub fn session_list_next(&mut self)
        requires
            old(self).wf(),
        ensures
            final(self).wf(),
            Self::same_data(&*final(self), &*old(self)),
            final(self).ui.input_history == old(self).ui.input_history,
            old(self).history_manager.history.sessions@.len() == 0 ==> final(self).ui@ == old(self).ui@,
            old(self).history_manager.history.sessions@.len() > 0 ==> final(self).ui@ == (UiView {
                session_list_state: Some(
                    stepped(old(self).ui.session_list_state, old(self).history_manager.history.sessions@.len(), true),
                ),
                ..old(self).ui@
            }),
    {
        self.select_session_offset(true);
    }

    /// Selects the previous session, wrapping around.
    pub fn session_list_previous(&mut self)
        requires
            old(self).wf(),
        ensures
            final(self).wf(),
            Self::same_data(&*final(self), &*old(self)),
            final(self).ui.input_history == old(self).ui.input_history,
            old(self).history_manager.history.sessions@.len() == 0 ==> final(self).ui@ == old(self).ui@,
            old(self).history_manager.history.sessions@.len() > 0 ==> final(self).ui@ == (UiView {
                session_list_state: Some(
                    stepped(old(self).ui.session_list_state, old(self).history_manager.history.sessions@.len(), false),
                ),
                ..old(self).ui@
            }),
    {
        self.select_session_offset(false);
    }

    /// Shows the messages of the current session, or a welcome note when it
    /// has none.
    pub fn restore_session_messages(&mut self)
        requires
            old(self).wf(),
        ensures
            final(self).wf(),
            final(self).ui == old(self).ui,
            final(self).history_manager == old(self).history_manager,
            final(self).is_loading == old(self).is_loading,
            final(self).send_buffer == old(self).send_buffer,
            final(self).todo_manager == old(self).todo_manager,
            restored(old(self).history_manager.history, msgs(final(self).messages@)),
    {
        let mut shown: Vec<ChatMessage> = Vec::new();
        match self.history_manager.history.get_current_session() {
            Some(session) => {
                let mut i: usize = 0;
                while i < session.messages.len()
                    invariant
                        i <= session.messages.len(),
                        msgs(shown@) == msgs(session.messages@).take(i as int),
                    decreases session.messages.len() - i,
                {
                    let ghost before = msgs(shown@);
                    let m = session.messages[i].duplicate();
                    shown.push(m);
                    assert(msgs(shown@) =~= before.push(session.messages@[i as int]@));
                    assert(msgs(session.messages@).take(i + 1) =~= msgs(session.messages@).take(i as int).push(
                        session.messages@[i as int]@,
                    ));
                    i = i + 1;
                }
                assert(msgs(session.messages@).take(i as int) =~= msgs(session.messages@));
            },
            None => {},
        }
        if shown.len() == 0 {
            shown.push(note("Welcome to ConTUI!"));
        }
        self.messages = shown;
    }

    /// Opens a new session and shows a note about it; the caller saves the
    /// history.
    pub fn create_new_session(&mut self)
        requires
            old(self).wf(),
        ensures
            final(self).wf(),
            final(self).ui == old(self).ui,
            final(self).is_loading == old(self).is_loading,
            final(self).send_buffer == old(self).send_buffer,
            final(self).todo_manager == old(self).todo_manager,
            final(self).history_manager.file_path == old(self).history_manager.file_path,
            ({
                let h = final(self).history_manager.history;
                &&& h.current_session_id matches Some(id) && h.map() == old(self).history_manager.history.map().insert(
                    id,
                    h.map()[id],
                ) && h.map()[id].messages.len() == 0 && h.map()[id].title
                    == crate::history::ChatHistory::default_title(h.map()[id].created_at)
            }),
            lone_note(msgs(final(self).messages@), "Started new conversation session."@),
    {
        let _id = self.history_manager.history.new_session(None);
        let mut shown: Vec<ChatMessage> = Vec::new();
        shown.push(note("Started new conversation session."));
        self.messages = shown;
    }

    /// Keeps the session selection within the list after a deletion.
    pub fn adjust_session_selection(&mut self, prev_index: usize)
        requires
            old(self).wf(),
        ensures
            final(self).wf(),
            Self::same_data(&*final(self), &*old(self)),
            final(self).ui.input_history == old(self).ui.input_history,
            ({
                let n = old(self).history_manager.history.sessions@.len();
                final(self).ui@ == (UiView {
                    session_list_state: if n == 0 {
                        None
                    } else if prev_index >= n {
                        Some((n - 1) as usize)
                    } else {
                        Some(prev_index)
                    },
                    ..old(self).ui@
                })
            }),
    {
        let n = self.history_manager.history.sessions.len();
        if n == 0 {
            self.ui.session_list_state = None;
        } else {
            let new_index = if prev_index >= n {
                n - 1
            } else {
                prev_index
            };
            self.ui.session_list_state = Some(new_index);
        }
    }

    /// Switches to the selected session of the list (most recent first):
    /// its messages are shown, normal mode resumes and the view scrolls to
    /// the bottom. Returns whether it switched (the caller then saves).
    pub fn switch_to_selected_session(&mut self) -> (switched: bool)
        requires
            old(self).wf(),
        ensures
            final(self).wf(),
            final(self).is_loading == old(self).is_loading,
            final(self).send_buffer == old(self).send_buffer,
            final(self).todo_manager == old(self).todo_manager,
            final(self).history_manager.file_path == old(self).history_manager.file_path,
            final(self).history_manager.history.map() == old(self).history_manager.history.map(),
            final(self).ui.input_history == old(self).ui.input_history,
            switched == (old(self).ui.session_list_state matches Some(i) && i
                < old(self).history_manager.history.sessions@.len()),
            !switched ==> *final(self) == *old(self),
            switched ==> {
                let i = old(self).ui.session_list_state.unwrap();
                let off = rows_above(total_rows(msgs(final(self).messages@), 72), 20);
                &&& exists|l: Seq<&crate::history::ChatSession>|
                    recency_order(old(self).history_manager.history, l)
                        && final(self).history_manager.history.current_session_id == Some(#[trigger] l[i as int].id)
                &&& restored(final(self).history_manager.history, msgs(final(self).messages@))
                &&& final(self).ui@ == (UiView {
                    input_mode: InputMode::Normal,
                    scroll_offset: off,
                    list_state: Some(off),
                    ..old(self).ui@
                })
            },
    {
        let i = match self.ui.session_list_state {
            Some(i) => i,
            None => return false,
        };
        let session_id = {
            let sessions = self.history_manager.history.get_session_list();
            if i < sessions.len() {
                let id = sessions[i].id;
                proof {
                    let j = choose|j: int| 0 <= j < self.history_manager.history.sessions@.len() && *sessions@[i as int]
                        == self.history_manager.history.sessions@[j];
                    assert(self.history_manager.history.sessions@[j].id == id);
                    assert(crate::history::has_id(self.history_manager.history.sessions@, id));
                }
                Some(id)
            } else {
                None
            }
        };
        let session_id = match session_id {
            Some(id) => id,
            None => return false,
        };
        let _ = self.history_manager.history.switch_session(session_id);
        self.restore_session_messages();
        self.ui.input_mode = InputMode::Normal;
        self.scroll_to_bottom(20);
        true
    }
}

} // verus!

verus! {

/// The session selection kept within `n` entries after a deletion at
/// `prev`.
pub open spec fn adjusted(prev: usize, n: nat) -> Option<usize> {
    if n == 0 {
        None
    } else if prev >= n {
        Some((n - 1) as usize)
    } else {
        Some(prev)
    }
}

/// The sessions and shown messages after session `id` was deleted: when it
/// was current, or none was, a new empty session is current and a note says
/// so; else the current session's messages are shown.
pub open spec fn after_drop(
    h0: crate::history::ChatHistory,
    h: crate::history::ChatHistory,
    ms: Seq<MessageView>,
    id: u128,
) -> bool {
    if h0.current_session_id == Some(id) || h0.current_session_id is None {
        &&& h.current_session_id matches Some(n) && h.map() == h0.map().remove(id).insert(n, h.map()[n])
            && h.map()[n].messages.len() == 0
        &&& lone_note(ms, "Started new conversation session."@)
    } else {
        &&& h.map() == h0.map().remove(id)
        &&& h.current_session_id == h0.current_session_id
        &&& restored(h, ms)
    }
}

impl ChatApp {
    fn drop_session(&mut self, id: u128)
        requires
            old(self).wf(),
            old(self).history_manager.history.map().contains_key(id),
        ensures
            final(self).wf(),
            final(self).ui == old(self).ui,
            final(self).is_loading == old(self).is_loading,
            final(self).send_buffer == old(self).send_buffer,
            final(self).todo_manager == old(self).todo_manager,
            final(self).history_manager.file_path == old(self).history_manager.file_path,
            after_drop(old(self).history_manager.history, final(self).history_manager.history, msgs(final(self).messages@), id),
    {
        let _ = self.history_manager.history.delete_session(id);
        if self.history_manager.history.current_session_id.is_none() {
            self.create_new_session();
        } else {
            self.restore_session_messages();
        }
    }

    /// Deletes the selected session of the list (most recent first). When
    /// it was the current one a new session is opened, else the current
    /// session's messages are shown again; the view scrolls to the bottom
    /// and the selection stays within the list. Returns whether it deleted
    /// (the caller then saves).
    pub fn delete_selected_session(&mut self) -> (deleted: bool)
        requires
            old(self).wf(),
        ensures
            final(self).wf(),
            final(self).is_loading == old(self).is_loading,
            final(self).send_buffer == old(self).send_buffer,
            final(self).todo_manager == old(self).todo_manager,
            final(self).history_manager.file_path == old(self).history_manager.file_path,
            final(self).ui.input_history == old(self).ui.input_history,
            deleted == (old(self).ui.session_list_state matches Some(i) && i
                < old(self).history_manager.history.sessions@.len()),
            !deleted ==> *final(self) == *old(self),
            deleted ==> {
                let i = old(self).ui.session_list_state.unwrap();
                let h0 = old(self).history_manager.history;
                let h = final(self).history_manager.history;
                let off = rows_above(total_rows(msgs(final(self).messages@), 72), 20);
                &&& exists|l: Seq<&crate::history::ChatSession>|
                    #![trigger recency_order(h0, l)]
                    recency_order(h0, l) && after_drop(h0, h, msgs(final(self).messages@), l[i as int].id)
                &&& final(self).ui@ == (UiView {
                    scroll_offset: off,
                    list_state: Some(off),
                    session_list_state: adjusted(i, h.sessions@.len()),
                    ..old(self).ui@
                })
            },
    {
        let i = match self.ui.session_list_state {
            Some(i) => i,
            None => return false,
        };
        let ghost h0 = self.history_manager.history;
        let sessions = self.history_manager.history.get_session_list();
        let ghost l = sessions@;
        if i >= sessions.len() {
            return false;
        }
        let session_id = sessions[i].id;
        proof {
            let j = choose|j: int| 0 <= j < h0.sessions@.len() && *l[i as int] == h0.sessions@[j];
            assert(h0.sessions@[j].id == session_id);
            assert(crate::history::has_id(h0.sessions@, session_id));
            assert(recency_order(h0, l));
        }
        self.drop_session(session_id);
        self.scroll_to_bottom(20);
        self.adjust_session_selection(i);
        assert(recency_order(h0, l) && l[i as int].id == session_id);
        true
    }
}

} // verus!

verus! {

/// A directory entry: its name ends with "/".
pub open spec fn is_dir_entry(item: Seq<char>) -> bool {
    item.len() > 0 && item.last() == '/'
}

/// `s` without its trailing `c` characters (`str::trim_end_matches`).
pub open spec fn trim_end_char(s: Seq<char>, c: char) -> Seq<char>
    decreases s.len(),
{
    if s.len() > 0 && s.last() == c {
        trim_end_char(s.drop_last(), c)
    } else {
        s
    }
}

/// The first position of `x` in `s`.
pub open spec fn first_index(s: Seq<Seq<char>>, x: Seq<char>) -> Option<int>
    decreases s.len(),
{
    if s.len() == 0 {
        None
    } else if s[0] == x {
        Some(0)
    } else {
        match first_index(s.drop_first(), x) {
            Some(i) => Some(i + 1),
            None => None,
        }
    }
}

/// The input with a file reference appended, after a space when the input
/// is not empty.
pub open spec fn with_reference(input: Seq<char>, path: Seq<char>) -> Seq<char> {
    (if input.len() == 0 {
        input
    } else {
        input.push(' ')
    }) + "@file:"@ + path
}

/// The selected entry of the file list, if the selection names one.
pub open spec fn selected_entry(u: UiView) -> Option<Seq<char>> {
    match u.file_browser_state {
        Some(k) => if k < u.directory_contents.len() {
            Some(u.directory_contents[k as int])
        } else {
            None
        },
        None => None,
    }
}

fn trim_end_slash(s: &String) -> (r: String)
    ensures
        r@ == trim_end_char(s@, '/'),
{
    let v = chars_of(s.as_str());
    let mut n = v.len();
    assert(v@.take(n as int) =~= v@);
    while n > 0 && v[n - 1] == '/'
        invariant
            n <= v.len(),
            trim_end_char(v@, '/') == trim_end_char(v@.take(n as int), '/'),
        decreases n,
    {
        assert(v@.take(n as int).drop_last() =~= v@.take(n - 1));
        n = n - 1;
    }
    let t = crate::text::slice_chars(&v, 0, n);
    assert(t@ =~= v@.take(n as int));
    string_of(&t)
}

fn position_of(v: &Vec<String>, x: &String) -> (r: Option<usize>)
    ensures
        match first_index(v.deep_view(), x@) {
            Some(i) => r matches Some(q) && q as int == i && 0 <= i < v.deep_view().len(),
            None => r is None,
        },
{
    let ghost d = v.deep_view();
    let mut i: usize = 0;
    assert(d.skip(0) =~= d);
    while i < v.len()
        invariant
            i <= v.len(),
            d == v.deep_view(),
            forall|j: int| 0 <= j < i ==> d[j] != x@,
            first_index(d, x@) == match first_index(d.skip(i as int), x@) {
                Some(k) => Some(k + i),
                None => None::<int>,
            },
        decreases v.len() - i,
    {
        assert(d[i as int] == v[i as int]@);
        assert(d.skip(i as int)[0] == d[i as int]);
        assert(d.skip(i as int).drop_first() =~= d.skip(i + 1));
        if str_eq(v[i].as_str(), x.as_str()) {
            return Some(i);
        }
        i = i + 1;
    }
    None
}

fn with_reference_exec(input: &String, path: &String) -> (r: String)
    ensures
        r@ == with_reference(input@, path@),
{
    let mut v = chars_of(input.as_str());
    if v.len() > 0 {
        v.push(' ');
    }
    push_str_chars(&mut v, "@file:");
    push_str_chars(&mut v, path.as_str());
    string_of(&v)
}

impl ChatApp {
    /// Shows the listing of the current directory, or nothing when it could
    /// not be listed.
    pub fn refresh_directory_contents(&mut self, listing: Option<Vec<String>>)
        ensures
            final(self).ui@ == (UiView {
                directory_contents: match listing {
                    Some(v) => v.deep_view(),
                    None => Seq::empty(),
                },
                ..old(self).ui@
            }),
            Self::same_data(&*final(self), &*old(self)),
            final(self).ui.history_index == old(self).ui.history_index,
            final(self).ui.input_history == old(self).ui.input_history,
    {
        match listing {
            Some(v) => {
                self.ui.directory_contents = v;
            },
            None => {
                self.ui.directory_contents = Vec::new();
                assert(self.ui.directory_contents.deep_view() =~= Seq::<Seq<char>>::empty());
            },
        }
    }

    /// Selects the entry above in the file list.
    pub fn file_browser_previous(&mut self)
        ensures
            ({
                let s = match old(self).ui.file_browser_state {
                    Some(k) => k,
                    None => 0,
                };
                final(self).ui@ == if s > 0 {
                    UiView { file_browser_state: Some((s - 1) as usize), ..old(self).ui@ }
                } else {
                    old(self).ui@
                }
            }),
            Self::same_data(&*final(self), &*old(self)),
            final(self).ui.history_index == old(self).ui.history_index,
            final(self).ui.input_history == old(self).ui.input_history,
    {
        let s = match self.ui.file_browser_state {
            Some(k) => k,
            None => 0,
        };
        if s > 0 {
            self.ui.file_browser_state = Some(s - 1);
        }
    }

    /// Selects the entry below in the file list.
    pub fn file_browser_next(&mut self)
        ensures
            ({
                let s = match old(self).ui.file_browser_state {
                    Some(k) => k,
                    None => 0,
                };
                let n = old(self).ui@.directory_contents.len();
                final(self).ui@ == if n > 0 && s < n - 1 {
                    UiView { file_browser_state: Some((s + 1) as usize), ..old(self).ui@ }
                } else {
                    old(self).ui@
                }
            }),
            Self::same_data(&*final(self), &*old(self)),
            final(self).ui.history_index == old(self).ui.history_index,
            final(self).ui.input_history == old(self).ui.input_history,
    {
        let s = match self.ui.file_browser_state {
            Some(k) => k,
            None => 0,
        };
        let n = self.ui.directory_contents.len();
        if n > 0 && s < n - 1 {
            self.ui.file_browser_state = Some(s + 1);
        }
    }

    /// Opens the selected entry: a directory becomes the current one (the
    /// caller lists it; returns true), a file is added to the input as a
    /// reference and insert mode starts.
    pub fn open_selected_file(&mut self) -> (relist: bool)
        ensures
            relist || selected_entry(old(self).ui@) is None || final(self).ui.cursor_position == clusters(final(self).ui@.input),
            Self::same_data(&*final(self), &*old(self)),
            final(self).ui.history_index == old(self).ui.history_index,
            final(self).ui.input_history == old(self).ui.input_history,
            match selected_entry(old(self).ui@) {
                Some(item) => if is_dir_entry(item) {
                    relist && final(self).ui@ == (UiView {
                        current_directory: crate::file_access::path_joined(
                            old(self).ui@.current_directory,
                            trim_end_char(item, '/'),
                        ),
                        file_browser_state: Some(0),
                        ..old(self).ui@
                    })
                } else {
                    let p = crate::file_access::path_joined(old(self).ui@.current_directory, item);
                    let text = with_reference(old(self).ui@.input, p);
                    !relist && final(self).ui@ == (UiView {
                        input: text,
                        cursor_position: clusters(text) as usize,
                        input_mode: InputMode::Insert,
                        ..old(self).ui@
                    })
                },
                None => !relist && final(self).ui@ == old(self).ui@,
            },
    {
        let k = match self.ui.file_browser_state {
            Some(k) => k,
            None => return false,
        };
        if k >= self.ui.directory_contents.len() {
            return false;
        }
        assert(self.ui@.directory_contents[k as int] == self.ui.directory_contents[k as int]@);
        if crate::text::ends_with_char(self.ui.directory_contents[k].as_str(), '/') {
            let name = trim_end_slash(&self.ui.directory_contents[k]);
            self.ui.current_directory = crate::file_access::join_path(self.ui.current_directory.as_str(), name.as_str());
            self.ui.file_browser_state = Some(0);
            true
        } else {
            let p = crate::file_access::join_path(self.ui.current_directory.as_str(), self.ui.directory_contents[k].as_str());
            self.ui.input = with_reference_exec(&self.ui.input, &p);
            self.ui.cursor_position = grapheme_count(self.ui.input.as_str());
            self.ui.input_mode = InputMode::Insert;
            false
        }
    }

    /// Toggles whether the selected file is attached: an attached file is
    /// dropped from the selection and its reference removed from the input
    /// (which is then trimmed); another is attached and referenced.
    pub fn toggle_file_selection(&mut self)
        ensures
            final(self).ui@.selected_files == old(self).ui@.selected_files || final(self).ui.cursor_position == clusters(final(self).ui@.input),
            Self::same_data(&*final(self), &*old(self)),
            final(self).ui.history_index == old(self).ui.history_index,
            final(self).ui.input_history == old(self).ui.input_history,
            match selected_entry(old(self).ui@) {
                Some(item) => if is_dir_entry(item) {
                    final(self).ui@ == old(self).ui@
                } else {
                    let p = crate::file_access::path_joined(old(self).ui@.current_directory, item);
                    match first_index(old(self).ui@.selected_files, p) {
                        Some(pos) => {
                            let text = trim_seq(
                                crate::text::replace_seq(old(self).ui@.input, "@file:"@ + p, Seq::empty()),
                            );
                            final(self).ui@ == (UiView {
                                selected_files: old(self).ui@.selected_files.remove(pos),
                                input: text,
                                cursor_position: clusters(text) as usize,
                                ..old(self).ui@
                            })
                        },
                        None => {
                            let text = with_reference(old(self).ui@.input, p);
                            final(self).ui@ == (UiView {
                                selected_files: old(self).ui@.selected_files.push(p),
                                input: text,
                                cursor_position: clusters(text) as usize,
                                ..old(self).ui@
                            })
                        },
                    }
                },
                None => final(self).ui@ == old(self).ui@,
            },
    {
        let k = match self.ui.file_browser_state {
            Some(k) => k,
            None => return,
        };
        if k >= self.ui.directory_contents.len() {
            return;
        }
        assert(self.ui@.directory_contents[k as int] == self.ui.directory_contents[k as int]@);
        if crate::text::ends_with_char(self.ui.directory_contents[k].as_str(), '/') {
            return;
        }
        let p = crate::file_access::join_path(self.ui.current_directory.as_str(), self.ui.directory_contents[k].as_str());
        match position_of(&self.ui.selected_files, &p) {
            Some(pos) => {
                let ghost before = self.ui@.selected_files;
                self.ui.selected_files.remove(pos);
                assert(self.ui@.selected_files =~= before.remove(pos as int));
                let mut pat = chars_of("@file:");
                push_str_chars(&mut pat, p.as_str());
                proof {
                    reveal_strlit("@file:");
                }
                let empty: Vec<char> = Vec::new();
                assert(empty@ =~= Seq::<char>::empty());
                let cur = chars_of(self.ui.input.as_str());
                let replaced = crate::text::replace_chars(&cur, &pat, &empty);
                let trimmed = trim_chars(&replaced);
                self.ui.input = string_of(&trimmed);
                self.ui.cursor_position = grapheme_count(self.ui.input.as_str());
            },
            None => {
                let ghost before = self.ui@.selected_files;
                let ghost pv = p@;
                self.ui.selected_files.push(p.clone());
                assert(self.ui@.selected_files =~= before.push(pv));
                self.ui.input = with_reference_exec(&self.ui.input, &p);
                self.ui.cursor_position = grapheme_count(self.ui.input.as_str());
            },
        }
    }

    /// Detaches the selected file, when it is attached.
    pub fn delete_selected_file(&mut self)
        ensures
            Self::same_data(&*final(self), &*old(self)),
            final(self).ui.history_index == old(self).ui.history_index,
            final(self).ui.input_history == old(self).ui.input_history,
            match selected_entry(old(self).ui@) {
                Some(item) => if is_dir_entry(item) {
                    final(self).ui@ == old(self).ui@
                } else {
                    let p = crate::file_access::path_joined(old(self).ui@.current_directory, item);
                    match first_index(old(self).ui@.selected_files, p) {
                        Some(pos) => final(self).ui@ == (UiView {
                            selected_files: old(self).ui@.selected_files.remove(pos),
                            ..old(self).ui@
                        }),
                        None => final(self).ui@ == old(self).ui@,
                    }
                },
                None => final(self).ui@ == old(self).ui@,
            },
    {
        let k = match self.ui.file_browser_state {
            Some(k) => k,
            None => return,
        };
        if k >= self.ui.directory_contents.len() {
            return;
        }
        assert(self.ui@.directory_contents[k as int] == self.ui.directory_contents[k as int]@);
        if crate::text::ends_with_char(self.ui.directory_contents[k].as_str(), '/') {
            return;
        }
        let p = crate::file_access::join_path(self.ui.current_directory.as_str(), self.ui.directory_contents[k].as_str());
        match position_of(&self.ui.selected_files, &p) {
            Some(pos) => {
                let ghost before = self.ui@.selected_files;
                self.ui.selected_files.remove(pos);
                assert(self.ui@.selected_files =~= before.remove(pos as int));
            },
            None => {},
        }
    }

    /// Goes up to the parent directory, when there is one (the caller lists
    /// it; returns true).
    pub fn go_to_parent_directory(&mut self) -> (relist: bool)
        ensures
            Self::same_data(&*final(self), &*old(self)),
            final(self).ui.history_index == old(self).ui.history_index,
            final(self).ui.input_history == old(self).ui.input_history,
            match crate::file_access::path_parent(old(self).ui@.current_directory) {
                Some(p) => relist && final(self).ui@ == (UiView {
                    current_directory: p,
                    file_browser_state: Some(0),
                    ..old(self).ui@
                }),
                None => !relist && final(self).ui@ == old(self).ui@,
            },
    {
        match crate::file_access::parent_of(self.ui.current_directory.as_str()) {
            Some(p) => {
                self.ui.current_directory = p;
                self.ui.file_browser_state = Some(0);
                true
            },
            None => false,
        }
    }
}

} // verus!

verus! {

/// The history after a message was appended to the current session, when
/// there is one.
pub open spec fn appended(h0: crate::history::ChatHistory, h: crate::history::ChatHistory, content: Seq<char>, is_user: bool) -> bool {
    &&& h.current_session_id == h0.current_session_id
    &&& match h0.current_session_id {
        Some(sid) => if h0.map().contains_key(sid) {
            let after = h.map()[sid];
            let m = after.messages.last();
            &&& h.map() == h0.map().insert(sid, after)
            &&& after == crate::history::SessionView {
                messages: h0.map()[sid].messages.push(m),
                updated_at: after.updated_at,
                ..h0.map()[sid]
            }
            &&& m.content == content
            &&& m.is_user == is_user
        } else {
            h.map() == h0.map()
        },
        None => h.map() == h0.map(),
    }
}

/// What the caller does after a reply was shown.
#[derive(Debug)]
pub struct EventOutcome {
    /// A buffered message to send next, as a reply event marked
    /// "[BUFFERED_SEND]".
    pub resend: Option<String>,
    /// Whether the history must be saved.
    pub save: bool,
}

/// The text shown for a model reply: the reply, or a note when it is empty.
pub open spec fn reply_text(m: Seq<char>) -> Seq<char> {
    if m.len() == 0 {
        "AIからの応答がありませんでした。"@
    } else {
        m
    }
}

impl ChatApp {
    /// Shows a model reply (after its file-creation blocks were carried
    /// out) or an error. A reply ends the wait, is added to the current
    /// session (the caller saves) and releases the oldest buffered message;
    /// an error is shown as "Error: ..." and ends the wait.
    pub fn handle_chat_event(&mut self, event: ChatEvent) -> (r: EventOutcome)
        requires
            old(self).wf(),
        ensures
            final(self).wf(),
            final(self).ui == old(self).ui,
            final(self).todo_manager == old(self).todo_manager,
            final(self).history_manager.file_path == old(self).history_manager.file_path,
            !final(self).is_loading,
            match event {
                ChatEvent::AIResponse(m) => {
                    let text = reply_text(m@);
                    let shown = msgs(final(self).messages@);
                    &&& shown.drop_last() == msgs(old(self).messages@)
                    &&& shown.len() == old(self).messages@.len() + 1
                    &&& shown.last().content == text && !shown.last().is_user
                    &&& appended(old(self).history_manager.history, final(self).history_manager.history, text, false)
                    &&& r.save
                    &&& if old(self).send_buffer@.len() > 0 {
                        &&& final(self).send_buffer@ == old(self).send_buffer@.drop_first()
                        &&& r.resend matches Some(s) && s@ == "[BUFFERED_SEND]"@ + old(self).send_buffer@[0]@
                    } else {
                        final(self).send_buffer@ == old(self).send_buffer@ && r.resend is None
                    }
                },
                ChatEvent::Error(e) => {
                    let shown = msgs(final(self).messages@);
                    &&& shown.drop_last() == msgs(old(self).messages@)
                    &&& shown.len() == old(self).messages@.len() + 1
                    &&& shown.last().content == "Error: "@ + e@ && !shown.last().is_user
                    &&& final(self).history_manager == old(self).history_manager
                    &&& final(self).send_buffer == old(self).send_buffer
                    &&& !r.save && r.resend is None
                },
            },
    {
        match event {
            ChatEvent::AIResponse(m) => {
                let text = if m.as_str().unicode_len() == 0 {
                    crate::text::to_owned_string("AIからの応答がありませんでした。")
                } else {
                    m
                };
                let ghost before = msgs(self.messages@);
                let msg = ChatMessage { id: new_uuid(), content: text.clone(), is_user: false, timestamp: now_utc() };
                let ghost mv = msg@;
                self.messages.push(msg);
                assert(msgs(self.messages@) =~= before.push(mv));
                self.is_loading = false;
                let resend = if self.send_buffer.len() > 0 {
                    let ghost b = self.send_buffer@;
                    let next = self.send_buffer.remove(0);
                    assert(self.send_buffer@ =~= b.drop_first());
                    let mut v = chars_of("[BUFFERED_SEND]");
                    push_str_chars(&mut v, next.as_str());
                    Some(string_of(&v))
                } else {
                    None
                };
                let _ = self.history_manager.history.add_message(text, false);
                EventOutcome { resend, save: true }
            },
            ChatEvent::Error(e) => {
                let mut v = chars_of("Error: ");
                push_str_chars(&mut v, e.as_str());
                let ghost before = msgs(self.messages@);
                let msg = ChatMessage { id: new_uuid(), content: string_of(&v), is_user: false, timestamp: now_utc() };
                let ghost mv = msg@;
                self.messages.push(msg);
                assert(msgs(self.messages@) =~= before.push(mv));
                self.is_loading = false;
                EventOutcome { resend: None, save: false }
            },
        }
    }
}

} // verus!

verus! {

/// What the caller does after the send key.
#[derive(Debug)]
pub enum SendAction {
    /// A reply is awaited: the input was buffered.
    Buffered,
    /// "/clearlog": the current session's messages were cleared (the caller
    /// saves).
    Cleared,
    /// Send `message` to the model with `files` attached (the caller saves
    /// the history and starts the request).
    Dispatch { message: String, files: Vec<String> },
}

/// The text of a history error.
pub open spec fn history_error_text(e: crate::history::HistoryError) -> Seq<char> {
    match e {
        crate::history::HistoryError::NoActiveSession => "No active session"@,
        crate::history::HistoryError::SessionNotFound => "Session not found"@,
    }
}

fn history_error_message(e: crate::history::HistoryError) -> (r: String)
    ensures
        r@ == history_error_text(e),
{
    match e {
        crate::history::HistoryError::NoActiveSession => crate::text::to_owned_string("No active session"),
        crate::history::HistoryError::SessionNotFound => crate::text::to_owned_string("Session not found"),
    }
}

/// The interface after a message left the input: the input empty, the
/// cursor at its start, normal mode, one input line, history recall left.
pub open spec fn input_reset(u: UiView) -> UiView {
    UiView {
        input: Seq::empty(),
        cursor_position: 0,
        input_mode: InputMode::Normal,
        input_line_count: 1,
        history_index: None,
        temp_input: Seq::empty(),
        notification: None,
        ..u
    }
}

/// The message sent for a text and its files: the text, or a request to
/// analyse the files when only files were given.
pub open spec fn message_to_send(clean: Seq<char>, files: Seq<Seq<char>>) -> Seq<char> {
    if clean.len() == 0 && files.len() > 0 {
        "Please analyze these files:"@
    } else {
        clean
    }
}

/// The user message shown for a sent message and its files.
pub open spec fn shown_message(msg: Seq<char>, files: Seq<Seq<char>>) -> Seq<char> {
    if files.len() == 0 {
        msg
    } else {
        msg + "\nFiles: "@ + crate::text::join_seq(files, ", "@)
    }
}

impl ChatApp {
    /// Sends the input. While a reply is awaited it is buffered instead.
    /// "/clearlog" clears the current session. Otherwise a non-blank input
    /// goes to the input history, the input is reset, file references are
    /// taken out, the message is shown and added to the current session,
    /// and the selected files are released.
    pub fn send_message(&mut self) -> (r: SendAction)
        requires
            old(self).wf(),
        ensures
            final(self).wf(),
            final(self).todo_manager == old(self).todo_manager,
            final(self).history_manager.file_path == old(self).history_manager.file_path,
            !old(self).is_loading ==> !final(self).is_loading,
            old(self).is_loading ==> {
                &&& r is Buffered
                &&& final(self).send_buffer@ == old(self).send_buffer@.push(old(self).ui.input)
                &&& final(self).ui@ == (UiView { notification: None, ..old(self).ui@ })
                &&& final(self).messages == old(self).messages
                &&& final(self).history_manager == old(self).history_manager
                &&& final(self).is_loading
            },
            !old(self).is_loading && trim_seq(old(self).ui@.input) == "/clearlog"@ ==> {
                let h0 = old(self).history_manager.history;
                let h = final(self).history_manager.history;
                &&& r is Cleared
                &&& final(self).send_buffer == old(self).send_buffer
                &&& final(self).ui@ == (UiView { selected_files: Seq::empty(), ..input_reset(old(self).ui@) })
                &&& h.current_session_id == h0.current_session_id
                &&& match h0.current_session_id {
                    Some(id) => if h0.map().contains_key(id) {
                        &&& h.map() == h0.map().insert(
                            id,
                            crate::history::SessionView {
                                messages: Seq::empty(),
                                updated_at: h.map()[id].updated_at,
                                ..h0.map()[id]
                            },
                        )
                        &&& lone_note(msgs(final(self).messages@), "✅ ログを全て削除しました."@)
                    } else {
                        &&& h.map() == h0.map()
                        &&& note_added(
                            msgs(old(self).messages@),
                            msgs(final(self).messages@),
                            "❌ ログ削除に失敗しました: "@ + history_error_text(crate::history::HistoryError::SessionNotFound),
                        )
                    },
                    None => {
                        &&& h.map() == h0.map()
                        &&& note_added(
                            msgs(old(self).messages@),
                            msgs(final(self).messages@),
                            "❌ ログ削除に失敗しました: "@ + history_error_text(crate::history::HistoryError::NoActiveSession),
                        )
                    },
                }
            },
            !old(self).is_loading && trim_seq(old(self).ui@.input) != "/clearlog"@ ==> {
                let input = old(self).ui@.input;
                let found = ref_scan(input);
                let clean = trim_seq(strip_refs(input, found));
                let hist = if trim_seq(input).len() > 0 {
                    history_after(old(self).ui@.input_history, input)
                } else {
                    old(self).ui@.input_history
                };
                &&& r matches SendAction::Dispatch { message, files } && {
                    let fv = files.deep_view();
                    let shown = msgs(final(self).messages@);
                    &&& exists|s: Seq<Seq<char>>|
                        #![trigger dedup_seq(s)]
                        sorted_names(s) && s.to_multiset() == (nonempty_paths(found)
                            + old(self).ui@.selected_files).to_multiset() && fv == dedup_seq(s)
                    &&& message@ == message_to_send(clean, fv)
                    &&& shown.drop_last() == msgs(old(self).messages@)
                    &&& shown.len() == old(self).messages@.len() + 1
                    &&& shown.last().content == shown_message(message@, fv) && shown.last().is_user
                    &&& appended(
                        old(self).history_manager.history,
                        final(self).history_manager.history,
                        shown_message(message@, fv),
                        true,
                    )
                }
                &&& final(self).send_buffer == old(self).send_buffer
                &&& final(self).ui@ == (UiView {
                    input_history: hist,
                    selected_files: Seq::empty(),
                    ..input_reset(old(self).ui@)
                })
            },
    {
        self.ui.notification = None;
        if self.is_loading {
            let ghost b = self.send_buffer@;
            let pending = self.ui.input.clone();
            self.send_buffer.push(pending);
            return SendAction::Buffered;
        }
        let original = self.ui.input.clone();
        let trimmed = crate::text::trim_str(original.as_str());
        if str_eq(trimmed.as_str(), "/clearlog") {
            let ghost mv0 = msgs(self.messages@);
            match self.history_manager.clear_messages() {
                Ok(()) => {
                    let note_text = crate::text::to_owned_string("✅ ログを全て削除しました.");
                    let mut shown: Vec<ChatMessage> = Vec::new();
                    shown.push(ChatMessage { id: new_uuid(), content: note_text, is_user: false, timestamp: now_utc() });
                    self.messages = shown;
                },
                Err(e) => {
                    let mut v = chars_of("❌ ログ削除に失敗しました: ");
                    let t = history_error_message(e);
                    push_str_chars(&mut v, t.as_str());
                    let note = ChatMessage { id: new_uuid(), content: string_of(&v), is_user: false, timestamp: now_utc() };
                    let ghost nv = note@;
                    self.messages.push(note);
                    assert(msgs(self.messages@) =~= mv0.push(nv));
                    assert(msgs(self.messages@).drop_last() =~= mv0);
                },
            }
            self.ui.input = String::new();
            self.ui.cursor_position = 0;
            self.ui.input_mode = InputMode::Normal;
            self.ui.input_line_count = 1;
            self.ui.selected_files = Vec::new();
            self.ui.history_index = None;
            self.ui.temp_input = String::new();
            assert(self.ui@.selected_files =~= Seq::<Seq<char>>::empty());
            return SendAction::Cleared;
        }
        if !is_blank(original.as_str()) {
            self.add_to_input_history(original.clone());
        }
        self.ui.input = String::new();
        self.ui.cursor_position = 0;
        self.ui.input_mode = InputMode::Normal;
        self.ui.input_line_count = 1;
        self.ui.history_index = None;
        self.ui.temp_input = String::new();
        let (clean, files) = self.parse_file_references(original.as_str());
        let message = if clean.as_str().unicode_len() == 0 && files.len() > 0 {
            crate::text::to_owned_string("Please analyze these files:")
        } else {
            clean
        };
        let display = if files.len() == 0 {
            message.clone()
        } else {
            let mut v = chars_of(message.as_str());
            push_str_chars(&mut v, "\nFiles: ");
            let joined = crate::text::join_strings(&files, ", ");
            push_str_chars(&mut v, joined.as_str());
            string_of(&v)
        };
        let ghost before = msgs(self.messages@);
        let user = ChatMessage { id: new_uuid(), content: display.clone(), is_user: true, timestamp: now_utc() };
        let ghost uv = user@;
        self.messages.push(user);
        assert(msgs(self.messages@) =~= before.push(uv));
        let _ = self.history_manager.history.add_message(display, true);
        self.ui.selected_files = Vec::new();
        assert(self.ui@.selected_files =~= Seq::<Seq<char>>::empty());
        SendAction::Dispatch { message, files }
    }
}

} // verus!

verus! {

impl ChatApp {
    /// The client on a loaded history: a session is made current (a new one
    /// when there is none), its messages are shown (a welcome note when it
    /// has none), and the interface starts empty in normal mode in
    /// `current_directory`.
    pub fn new(history_manager: HistoryManager, current_directory: String) -> (r: Self)
        requires
            history_manager.wf(),
        ensures
            r.wf(),
            r.history_manager.file_path == history_manager.file_path,
            r.history_manager.history.current_session_id matches Some(id) && r.history_manager.history.map().contains_key(id),
            (history_manager.history.current_session_id matches Some(cur) && history_manager.history.map().contains_key(cur))
                ==> r.history_manager.history == history_manager.history,
            !(history_manager.history.current_session_id matches Some(cur) && history_manager.history.map().contains_key(cur))
                ==> {
                let h = r.history_manager.history;
                let id = h.current_session_id.unwrap();
                &&& h.map() == history_manager.history.map().insert(id, h.map()[id])
                &&& h.map()[id].messages.len() == 0
                &&& h.map()[id].title == crate::history::ChatHistory::default_title(h.map()[id].created_at)
            },
            restored(r.history_manager.history, msgs(r.messages@)),
            !r.is_loading,
            r.send_buffer@.len() == 0,
            r.todo_manager.current_list is None,
            r.ui@ == (UiView {
                input: Seq::empty(),
                cursor_position: 0,
                visual_start: None,
                input_mode: InputMode::Normal,
                list_state: None,
                scroll_offset: 0,
                session_list_state: None,
                file_browser_state: None,
                current_directory: current_directory@,
                directory_contents: Seq::empty(),
                selected_files: Seq::empty(),
                input_line_count: 1,
                input_history: Seq::empty(),
                history_index: None,
                temp_input: Seq::empty(),
                show_help: false,
                notification: None,
            }),
    {
        let mut history_manager = history_manager;
        let _id = history_manager.ensure_active_session();
        let todo_manager = match crate::todo_manager::TodoManager::new() {
            Ok(m) => m,
            Err(_) => crate::todo_manager::TodoManager {
                current_list: None,
                storage_path: crate::text::to_owned_string("todo_state.json"),
            },
        };
        let ui = UiState {
            input: String::new(),
            cursor_position: 0,
            visual_start: None,
            input_mode: InputMode::Normal,
            list_state: None,
            scroll_offset: 0,
            session_list_state: None,
            file_browser_state: None,
            current_directory,
            directory_contents: Vec::new(),
            selected_files: Vec::new(),
            input_line_count: 1,
            input_history: Vec::new(),
            history_index: None,
            temp_input: String::new(),
            show_help: false,
            notification: None,
        };
        let mut app = ChatApp {
            ui,
            messages: Vec::new(),
            is_loading: false,
            history_manager,
            send_buffer: Vec::new(),
            todo_manager,
        };
        assert(app.ui@.directory_contents =~= Seq::<Seq<char>>::empty());
        assert(app.ui@.selected_files =~= Seq::<Seq<char>>::empty());
        assert(app.ui@.input_history =~= Seq::<Seq<char>>::empty());
        app.restore_session_messages();
        app
    }

    /// Starts a new checklist and says so.
    pub fn create_new_todo_list(&mut self)
        ensures
            final(self).todo_manager.current_list matches Some(l) && l.title@ == "New Todo List"@
                && l.description@.len() == 0 && l.items@.len() == 0,
            final(self).ui@ == (UiView { notification: Some("New todo list created"@), ..old(self).ui@ }),
            final(self).messages == old(self).messages,
            final(self).history_manager == old(self).history_manager,
            final(self).is_loading == old(self).is_loading,
            final(self).send_buffer == old(self).send_buffer,
    {
        let r = self.todo_manager.create_new_list(
            crate::text::to_owned_string("New Todo List"),
            String::new(),
        );
        match r {
            Ok(()) => self.show_notification("New todo list created"),
            Err(e) => {
                let mut v = chars_of("Error creating todo list: ");
                push_str_chars(&mut v, e.as_str());
                let t = string_of(&v);
                self.show_notification(t.as_str());
            },
        }
    }

    /// Failed checklist items are not acted on: nothing changes.
    pub fn check_and_handle_failed_todos(&mut self, _ai_response: &str)
        ensures
            *final(self) == *old(self),
    {
    }

    /// A reply with the checklist's progress appended ("📋 TODO進捗: done/all")
    /// and the items not done yet, when the list has items.
    pub fn append_todo_summary_to_response(&self, response: String) -> (r: String)
        ensures
            r@ == response@ + match self.todo_manager.current_list {
                Some(l) => todo_summary(l.items@),
                None => Seq::empty(),
            },
    {
        match &self.todo_manager.current_list {
            Some(list) => {
                let mut v = chars_of(response.as_str());
                let t = list.items.len();
                if t > 0 {
                    let mut done: usize = 0;
                    let mut running: Vec<char> = Vec::new();
                    let mut i: usize = 0;
                    while i < t
                        invariant
                            i <= t,
                            t == list.items@.len(),
                            done == count_done(list.items@.take(i as int)),
                            done <= i,
                            running@ == open_item_lines(list.items@.take(i as int)),
                        decreases t - i,
                    {
                        assert(list.items@.take(i + 1).drop_last() =~= list.items@.take(i as int));
                        if list.items[i].completed {
                            done = done + 1;
                        } else {
                            push_str_chars(&mut running, "\n- ");
                            push_str_chars(&mut running, list.items[i].title.as_str());
                        }
                        i = i + 1;
                    }
                    assert(list.items@.take(i as int) =~= list.items@);
                    push_str_chars(&mut v, "\n\n📋 TODO進捗: ");
                    push_str_chars(&mut v, crate::text::usize_to_string(done).as_str());
                    push_str_chars(&mut v, "/");
                    push_str_chars(&mut v, crate::text::usize_to_string(t).as_str());
                    if running.len() > 0 {
                        push_str_chars(&mut v, "\n🔄 現在実行中のTODO:");
                        push_all(&mut v, &running);
                    }
                }
                string_of(&v)
            },
            None => response,
        }
    }
}

/// How many items are done.
pub open spec fn count_done(items: Seq<crate::todo_manager::TodoItem>) -> nat
    decreases items.len(),
{
    if items.len() == 0 {
        0
    } else {
        count_done(items.drop_last()) + if items.last().completed {
            1nat
        } else {
            0nat
        }
    }
}

/// A line "\n- title" for each item not done.
pub open spec fn open_item_lines(items: Seq<crate::todo_manager::TodoItem>) -> Seq<char>
    decreases items.len(),
{
    if items.len() == 0 {
        Seq::empty()
    } else {
        open_item_lines(items.drop_last()) + if items.last().completed {
            Seq::empty()
        } else {
            "\n- "@ + items.last().title@
        }
    }
}

/// The progress note of a checklist with items.
pub open spec fn todo_summary(items: Seq<crate::todo_manager::TodoItem>) -> Seq<char> {
    if items.len() == 0 {
        Seq::empty()
    } else {
        "\n\n📋 TODO進捗: "@ + crate::text::decimal_of(count_done(items)) + "/"@ + crate::text::decimal_of(items.len())
            + if open_item_lines(items).len() > 0 {
            "\n🔄 現在実行中のTODO:"@ + open_item_lines(items)
        } else {
            Seq::empty()
        }
    }
}

} // verus!

verus! {

/// All matches of a regular expression in a text, as the `regex` crate's
/// `captures_iter` yields them: the whole match and capture groups 1 and 2
/// (when they took part); `None` when the pattern does not compile.
pub uninterp spec fn regex_all_captures(pattern: Seq<char>, text: Seq<char>) -> Option<
    Seq<(Seq<char>, Option<Seq<char>>, Option<Seq<char>>)>,
>;

/// A capture as plain values.
pub open spec fn capture_view(c: (String, Option<String>, Option<String>)) -> (Seq<char>, Option<Seq<char>>, Option<Seq<char>>) {
    (c.0@, crate::todo::opt_view(c.1), crate::todo::opt_view(c.2))
}

/// Compiles `pattern` with `regex::Regex::new` and collects
/// `Regex::captures_iter` on `text`; the result is named
/// `regex_all_captures`.
#[verifier::external_body]
fn capture_all(pattern: &str, text: &str) -> (r: Option<Vec<(String, Option<String>, Option<String>)>>)
    ensures
        match r {
            Some(v) => regex_all_captures(pattern@, text@) == Some(
                v@.map_values(|c: (String, Option<String>, Option<String>)| capture_view(c)),
            ),
            None => regex_all_captures(pattern@, text@) is None,
        },
{
    let re = regex::Regex::new(pattern).ok()?;
    let group = |c: &regex::Captures, i: usize| c.get(i).map(|m| m.as_str().to_string());
    Some(re.captures_iter(text).map(|c| (c[0].to_string(), group(&c, 1), group(&c, 2))).collect())
}

/// The pattern of a file-creation block: "```create_file:" and a name, then
/// optionally a line break and the content, up to the closing fence.
pub open spec fn creation_pattern() -> Seq<char> {
    "(?s)```create_file:([^\\n]+)(?:\\r?\\n(.*?))?```"@
}

/// A file the model asks to create: the block that asks for it, the file
/// name and the content.
#[derive(Debug)]
pub struct CreationRequest {
    pub block: String,
    pub filename: String,
    pub content: String,
}

/// A request as plain values.
pub open spec fn request_view(r: CreationRequest) -> (Seq<char>, Seq<char>, Seq<char>) {
    (r.block@, r.filename@, r.content@)
}

/// The requests of the matches: each match with a name gives the block, the
/// trimmed name and the content (empty when absent).
pub open spec fn requests_of(caps: Seq<(Seq<char>, Option<Seq<char>>, Option<Seq<char>>)>) -> Seq<(Seq<char>, Seq<char>, Seq<char>)>
    decreases caps.len(),
{
    if caps.len() == 0 {
        Seq::empty()
    } else {
        let c = caps.last();
        requests_of(caps.drop_last()) + match c.1 {
            Some(f) => seq![(c.0, trim_seq(f), match c.2 {
                Some(t) => t,
                None => Seq::empty(),
            })],
            None => Seq::empty(),
        }
    }
}

/// The reply text that replaces a creation block.
pub open spec fn creation_message(filename: Seq<char>, result: Result<Seq<char>, Seq<char>>) -> Seq<char> {
    match result {
        Ok(actual) => if actual == filename {
            "✅ File '"@ + filename + "' created successfully!"@
        } else {
            "✅ File '"@ + filename + "' created as '"@ + actual + "' (original name was taken)"@
        },
        Err(e) => "❌ Failed to create file '"@ + filename + "' : "@ + e,
    }
}

/// A creation result as plain values.
pub open spec fn result_view(r: Result<String, String>) -> Result<Seq<char>, Seq<char>> {
    match r {
        Ok(s) => Ok(s@),
        Err(e) => Err(e@),
    }
}

/// The reply with each block replaced by the message about its file, and
/// the names of the files created.
pub open spec fn apply_creations(
    text: Seq<char>,
    reqs: Seq<(Seq<char>, Seq<char>, Seq<char>)>,
    results: Seq<Result<Seq<char>, Seq<char>>>,
) -> (Seq<char>, Seq<Seq<char>>)
    decreases reqs.len(),
{
    if reqs.len() == 0 {
        (text, Seq::empty())
    } else {
        let n = reqs.len() - 1;
        let (t, created) = apply_creations(text, reqs.drop_last(), results);
        let msg = creation_message(reqs[n].1, results[n]);
        let t2 = if reqs[n].0.len() > 0 {
            crate::text::replace_seq(t, reqs[n].0, msg)
        } else {
            t
        };
        (t2, match results[n] {
            Ok(actual) => created.push(actual),
            Err(_) => created,
        })
    }
}

fn creation_message_exec(filename: &String, result: &Result<String, String>) -> (r: Vec<char>)
    ensures
        r@ == creation_message(filename@, result_view(*result)),
{
    match result {
        Ok(actual) => {
            if str_eq(actual.as_str(), filename.as_str()) {
                let mut v = chars_of("✅ File '");
                push_str_chars(&mut v, filename.as_str());
                push_str_chars(&mut v, "' created successfully!");
                v
            } else {
                let mut v = chars_of("✅ File '");
                push_str_chars(&mut v, filename.as_str());
                push_str_chars(&mut v, "' created as '");
                push_str_chars(&mut v, actual.as_str());
                push_str_chars(&mut v, "' (original name was taken)");
                v
            }
        },
        Err(e) => {
            let mut v = chars_of("❌ Failed to create file '");
            push_str_chars(&mut v, filename.as_str());
            push_str_chars(&mut v, "' : ");
            push_str_chars(&mut v, e.as_str());
            v
        },
    }
}

fn apply_all(text: &str, requests: &Vec<CreationRequest>, results: &Vec<Result<String, String>>) -> (r: (Vec<char>, Vec<String>))
    requires
        requests@.len() == results@.len(),
    ensures
        (r.0@, r.1.deep_view()) == apply_creations(
            text@,
            requests@.map_values(|q: CreationRequest| request_view(q)),
            results@.map_values(|x: Result<String, String>| result_view(x)),
        ),
{
    let ghost rq = requests@.map_values(|q: CreationRequest| request_view(q));
    let ghost rs = results@.map_values(|x: Result<String, String>| result_view(x));
    let mut t = chars_of(text);
    let mut created: Vec<String> = Vec::new();
    let mut i: usize = 0;
    while i < requests.len()
        invariant
            i <= requests.len(),
            requests@.len() == results@.len(),
            rq == requests@.map_values(|q: CreationRequest| request_view(q)),
            rs == results@.map_values(|x: Result<String, String>| result_view(x)),
            (t@, created.deep_view()) == apply_creations(text@, rq.take(i as int), rs),
        decreases requests.len() - i,
    {
        assert(rq.take(i + 1).drop_last() =~= rq.take(i as int));
        let q = &requests[i];
        let msg = creation_message_exec(&q.filename, &results[i]);
        let block = chars_of(q.block.as_str());
        if block.len() > 0 {
            t = crate::text::replace_chars(&t, &block, &msg);
        }
        match &results[i] {
            Ok(actual) => {
                let ghost before = created.deep_view();
                created.push(actual.clone());
                assert(created.deep_view() =~= before.push(actual@));
            },
            Err(_) => {},
        }
        i = i + 1;
    }
    assert(rq.take(i as int) =~= rq);
    (t, created)
}

impl ChatApp {
    /// The file creations a reply asks for, found with the creation
    /// pattern; `None` when the pattern cannot be compiled.
    pub fn file_creation_requests(response: &str) -> (r: Option<Vec<CreationRequest>>)
        ensures
            match regex_all_captures(creation_pattern(), response@) {
                Some(caps) => r matches Some(v) && v@.map_values(|q: CreationRequest| request_view(q)) == requests_of(caps),
                None => r is None,
            },
    {
        let caps = match capture_all("(?s)```create_file:([^\\n]+)(?:\\r?\\n(.*?))?```", response) {
            Some(c) => c,
            None => return None,
        };
        let ghost cv = caps@.map_values(|c: (String, Option<String>, Option<String>)| capture_view(c));
        let mut out: Vec<CreationRequest> = Vec::new();
        let mut i: usize = 0;
        while i < caps.len()
            invariant
                i <= caps.len(),
                cv == caps@.map_values(|c: (String, Option<String>, Option<String>)| capture_view(c)),
                out@.map_values(|q: CreationRequest| request_view(q)) == requests_of(cv.take(i as int)),
            decreases caps.len() - i,
        {
            assert(cv.take(i + 1).drop_last() =~= cv.take(i as int));
            let (whole, name, body) = &caps[i];
            match name {
                Some(f) => {
                    let filename = crate::text::trim_str(f.as_str());
                    let content = match body {
                        Some(b) => b.clone(),
                        None => String::new(),
                    };
                    let q = CreationRequest { block: whole.clone(), filename, content };
                    let ghost before = out@.map_values(|q: CreationRequest| request_view(q));
                    let ghost qv = request_view(q);
                    out.push(q);
                    assert(out@.map_values(|q: CreationRequest| request_view(q)) =~= before.push(qv));
                },
                None => {
                    assert(requests_of(cv.take(i + 1)) =~= out@.map_values(|q: CreationRequest| request_view(q)));
                },
            }
            i = i + 1;
        }
        assert(cv.take(i as int) =~= cv);
        Some(out)
    }

    /// The reply after its creation requests were carried out (`results[i]`
    /// is the created path or the error of `requests[i]`): each block is
    /// replaced by a message about its file; when files were created the
    /// caller lists the directory again (returns true) and a notification
    /// names them.
    pub fn process_file_creation_requests(
        &mut self,
        response: &str,
        requests: &Vec<CreationRequest>,
        results: &Vec<Result<String, String>>,
    ) -> (r: (String, bool))
        requires
            requests@.len() == results@.len(),
        ensures
            ({
                let (t, created) = apply_creations(
                    response@,
                    requests@.map_values(|q: CreationRequest| request_view(q)),
                    results@.map_values(|x: Result<String, String>| result_view(x)),
                );
                &&& r.0@ == t
                &&& r.1 == (created.len() > 0)
                &&& final(self).ui@ == if created.len() > 0 {
                    UiView {
                        notification: Some("📁 ファイル作成: "@ + crate::text::join_seq(created, ", "@)),
                        ..old(self).ui@
                    }
                } else {
                    old(self).ui@
                }
            }),
            Self::same_data(&*final(self), &*old(self)),
            final(self).ui.history_index == old(self).ui.history_index,
            final(self).ui.input_history == old(self).ui.input_history,
    {
        let (t, created) = apply_all(response, requests, results);
        let refresh = created.len() > 0;
        if refresh {
            let mut v = chars_of("📁 ファイル作成: ");
            let joined = crate::text::join_strings(&created, ", ");
            push_str_chars(&mut v, joined.as_str());
            self.ui.notification = Some(string_of(&v));
        }
        (string_of(&t), refresh)
    }
}

} // verus!

verus! {

/// The block text that asked for a file, rebuilt from its name and content.
pub open spec fn manual_block(filename: Seq<char>, content: Seq<char>) -> Seq<char> {
    "```create_file:"@ + filename + "\n"@ + content + "\n```"@
}

impl ChatApp {
    /// The file creations a reply asks for, read line by line (used when
    /// the creation pattern is unavailable).
    pub fn manual_creation_requests(response: &str) -> (r: Vec<CreationRequest>)
        ensures
            r@.map_values(|q: CreationRequest| request_view(q)) == crate::gemini::manual_blocks(response@).map_values(
                |b: (Seq<char>, Seq<char>)| (manual_block(b.0, b.1), b.0, b.1),
            ),
    {
        let blocks = crate::gemini::parse_manual_blocks(response);
        let ghost bv = blocks@.map_values(|b: (String, String)| (b.0@, b.1@));
        let mut out: Vec<CreationRequest> = Vec::new();
        let mut i: usize = 0;
        while i < blocks.len()
            invariant
                i <= blocks.len(),
                bv == blocks@.map_values(|b: (String, String)| (b.0@, b.1@)),
                out@.map_values(|q: CreationRequest| request_view(q)) == bv.take(i as int).map_values(
                    |b: (Seq<char>, Seq<char>)| (manual_block(b.0, b.1), b.0, b.1),
                ),
            decreases blocks.len() - i,
        {
            let (f, c) = &blocks[i];
            let mut v = chars_of("```create_file:");
            push_str_chars(&mut v, f.as_str());
            push_str_chars(&mut v, "\n");
            push_str_chars(&mut v, c.as_str());
            push_str_chars(&mut v, "\n```");
            let q = CreationRequest { block: string_of(&v), filename: f.clone(), content: c.clone() };
            let ghost before = out@.map_values(|q: CreationRequest| request_view(q));
            let ghost qv = request_view(q);
            out.push(q);
            assert(out@.map_values(|q: CreationRequest| request_view(q)) =~= before.push(qv));
            assert(bv.take(i + 1) =~= bv.take(i as int).push(bv[i as int]));
            i = i + 1;
        }
        assert(bv.take(i as int) =~= bv);
        out
    }

    /// The reply after the line-read creation requests were carried out:
    /// each block is replaced by a message about its file, and when files
    /// were created a line naming them is appended and the caller lists the
    /// directory again (returns true).
    pub fn manual_parse_file_creation(
        &mut self,
        response: &str,
        requests: &Vec<CreationRequest>,
        results: &Vec<Result<String, String>>,
    ) -> (r: (String, bool))
        requires
            requests@.len() == results@.len(),
        ensures
            ({
                let (t, created) = apply_creations(
                    response@,
                    requests@.map_values(|q: CreationRequest| request_view(q)),
                    results@.map_values(|x: Result<String, String>| result_view(x)),
                );
                &&& r.0@ == if created.len() > 0 {
                    t + "\n\n📁 Created "@ + crate::text::decimal_of(created.len()) + " file(s): "@
                        + crate::text::join_seq(created, ", "@)
                } else {
                    t
                }
                &&& r.1 == (created.len() > 0)
            }),
            *final(self) == *old(self),
    {
        let (mut t, created) = apply_all(response, requests, results);
        let refresh = created.len() > 0;
        if refresh {
            push_str_chars(&mut t, "\n\n📁 Created ");
            push_str_chars(&mut t, crate::text::usize_to_string(created.len()).as_str());
            push_str_chars(&mut t, " file(s): ");
            let joined = crate::text::join_strings(&created, ", ");
            push_str_chars(&mut t, joined.as_str());
        }
        (string_of(&t), refresh)
    }
}

} // verus!

verus! {

/// The cursor one cluster to the left.
pub open spec fn left_ui(u: UiView) -> UiView {
    UiView {
        cursor_position: if u.cursor_position > 0 {
            (u.cursor_position - 1) as usize
        } else {
            u.cursor_position
        },
        ..u
    }
}

/// The cursor one cluster to the right, within the input.
pub open spec fn right_ui(u: UiView) -> UiView {
    UiView {
        cursor_position: if u.cursor_position < clusters(u.input) {
            (u.cursor_position + 1) as usize
        } else {
            u.cursor_position
        },
        ..u
    }
}

/// The cursor a line up.
pub open spec fn up_ui(u: UiView) -> UiView {
    UiView { cursor_position: cursor_up_spec(u.input, u.cursor_position as int) as usize, ..u }
}

/// The cursor a line down.
pub open spec fn down_ui(u: UiView) -> UiView {
    UiView { cursor_position: cursor_down_spec(u.input, u.cursor_position as int) as usize, ..u }
}

/// The cluster at the cursor deleted.
pub open spec fn delete_at_ui(u: UiView) -> UiView {
    match delete_at_spec(u.input, u.cursor_position as int) {
        Some(s) => UiView { input: s, input_line_count: input_line_count_spec(s) as usize, ..u },
        None => u,
    }
}

/// The cluster before the cursor deleted.
pub open spec fn backspace_ui(u: UiView) -> UiView {
    if u.cursor_position == 0 {
        u
    } else {
        delete_at_ui(UiView { cursor_position: (u.cursor_position - 1) as usize, ..u })
    }
}

/// A character typed at the cursor.
pub open spec fn type_ui(u: UiView, c: char) -> UiView {
    let s = insert_char_spec(u.input, u.cursor_position as int, c);
    UiView {
        input: s,
        cursor_position: (u.cursor_position + 1) as usize,
        input_line_count: input_line_count_spec(s) as usize,
        ..u
    }
}

/// The first cluster of the cursor's line.
pub open spec fn line_home_pos(u: UiView) -> int {
    let gs = graphemes_of(u.input);
    line_begin(gs, clamp(u.cursor_position as int, gs.len() as int))
}

/// The end of the cursor's line: its line feed, or past the last cluster.
pub open spec fn line_last_pos(u: UiView) -> int {
    let gs = graphemes_of(u.input);
    line_end(gs, clamp(u.cursor_position as int, gs.len() as int))
}

/// `u` with the cursor at `pos`.
pub open spec fn cursor_at(u: UiView, pos: usize) -> UiView {
    UiView { cursor_position: pos, ..u }
}

/// The input without the cursor's line (the other lines stay, joined by
/// their line feeds).
pub open spec fn without_line(u: UiView) -> Seq<char> {
    let gs = graphemes_of(u.input);
    let cut = line_cut(gs, clamp(u.cursor_position as int, gs.len() as int));
    cut_spec(u.input, cut.0, cut.1)
}

/// Where the cursor goes when its line is deleted: where that line (or the
/// line feed before it) began, within the new input.
pub open spec fn without_line_cursor(u: UiView) -> int {
    let gs = graphemes_of(u.input);
    let cut = line_cut(gs, clamp(u.cursor_position as int, gs.len() as int));
    clamp(cut.0, clusters(without_line(u)))
}

/// The input without the cursor's line, the cursor at `pos` and the lines
/// recounted.
pub open spec fn delete_line_ui(u: UiView, pos: usize) -> UiView {
    UiView {
        input: without_line(u),
        cursor_position: pos,
        input_line_count: input_line_count_spec(without_line(u)) as usize,
        ..u
    }
}

/// History recall one entry back.
pub open spec fn history_up_ui(u: UiView) -> UiView {
    let h = u.input_history;
    if h.len() == 0 {
        u
    } else {
        let idx: usize = match u.history_index {
            Some(i) => if i > 0 {
                (i - 1) as usize
            } else {
                0
            },
            None => (h.len() - 1) as usize,
        };
        let temp = match u.history_index {
            Some(_) => u.temp_input,
            None => u.input,
        };
        with_input(UiView { history_index: Some(idx), temp_input: temp, ..u }, recalled(h, idx as int))
    }
}

/// History recall left: the kept input back.
pub open spec fn reset_nav_ui(u: UiView) -> UiView {
    if u.history_index is None {
        u
    } else {
        with_input(UiView { history_index: None, temp_input: Seq::empty(), ..u }, u.temp_input)
    }
}

/// History recall one entry forward.
pub open spec fn history_down_ui(u: UiView) -> UiView {
    let h = u.input_history;
    if h.len() == 0 {
        u
    } else {
        match u.history_index {
            None => u,
            Some(i) => if i < h.len() - 1 {
                with_input(UiView { history_index: Some((i + 1) as usize), ..u }, recalled(h, i + 1))
            } else {
                reset_nav_ui(u)
            },
        }
    }
}

/// The message selected in the list copied into the input.
pub open spec fn insert_selected_ui(u: UiView, ms: Seq<MessageView>) -> UiView {
    match u.list_state {
        Some(i) => if i < ms.len() {
            let c = ms[i as int].content;
            let text = if u.input.len() == 0 {
                c
            } else {
                u.input.push('\n') + c
            };
            with_input(UiView { input_mode: InputMode::Insert, ..u }, text)
        } else {
            u
        },
        None => u,
    }
}

/// The cursor at the next word.
pub open spec fn next_word_ui(u: UiView) -> UiView {
    UiView { cursor_position: next_word_spec(u.input, u.cursor_position as int) as usize, ..u }
}

/// The cursor at the previous word (where it can be found).
pub open spec fn prev_word_ui(u: UiView) -> UiView {
    if prev_word_allowed(u.input, u.cursor_position as int) {
        UiView { cursor_position: prev_word_spec(u.input, u.cursor_position as int) as usize, ..u }
    } else {
        u
    }
}

/// The visual selection deleted.
pub open spec fn cut_selection_ui(u: UiView) -> UiView {
    match selection_range_spec(u.visual_start, u.cursor_position as int) {
        Some((a, b)) => {
            let s = cut_spec(u.input, a, b);
            UiView {
                input: s,
                cursor_position: (if a < clusters(s) {
                    a
                } else {
                    clusters(s)
                }) as usize,
                ..u
            }
        },
        None => u,
    }
}

/// The messages scrolled up a row.
pub open spec fn scroll_up_ui(u: UiView, has_messages: bool) -> UiView {
    if u.scroll_offset == 0 {
        u
    } else {
        UiView {
            scroll_offset: (u.scroll_offset - 1) as usize,
            list_state: if has_messages {
                Some((u.scroll_offset - 1) as usize)
            } else {
                u.list_state
            },
            ..u
        }
    }
}

/// The messages scrolled down a row.
pub open spec fn scroll_down_ui(u: UiView) -> UiView {
    UiView { scroll_offset: (u.scroll_offset + 1) as usize, ..u }
}

} // verus!

verus! {

/// The keys the interface reads.
#[derive(Debug, Clone, Copy, PartialEq, Eq, Structural)]
pub enum KeyCode {
    Char(char),
    Enter,
    Esc,
    Backspace,
    Delete,
    Left,
    Right,
    Up,
    Down,
    Other,
}

/// A key event: the key, whether Control or Shift is held, whether no
/// modifier at all is held, and whether it is a press.
#[derive(Debug, Clone, Copy)]
pub struct KeyEvent {
    pub code: KeyCode,
    pub control: bool,
    pub shift: bool,
    pub plain: bool,
    pub press: bool,
}

/// What the caller does after a key.
#[derive(Debug, Clone, Copy, PartialEq, Eq, Structural)]
pub enum KeyAction {
    /// Nothing more.
    Nothing,
    /// Leave the application.
    Quit,
    /// Send the input (`send_message`).
    Send,
    /// Save the history.
    Save,
    /// Save the history and report the outcome (`report_save`).
    SaveAndReport,
    /// List the current directory (`refresh_directory_contents`).
    Relist,
}

/// Only the interface changed, to `u`.
pub open spec fn ui_step(a: ChatApp, b: ChatApp, u: UiView) -> bool {
    &&& ChatApp::same_data(&b, &a)
    &&& b.ui@ == u
}

/// A new session was opened and a note shown.
pub open spec fn new_session_step(a: ChatApp, b: ChatApp) -> bool {
    let h = b.history_manager.history;
    &&& b.ui == a.ui
    &&& b.is_loading == a.is_loading
    &&& b.send_buffer == a.send_buffer
    &&& b.todo_manager == a.todo_manager
    &&& b.history_manager.file_path == a.history_manager.file_path
    &&& h.current_session_id matches Some(id) && h.map() == a.history_manager.history.map().insert(id, h.map()[id])
        && h.map()[id].messages.len() == 0
    &&& lone_note(msgs(b.messages@), "Started new conversation session."@)
}

/// The effect of switching to the selected session.
pub open spec fn switch_step(a: ChatApp, b: ChatApp, switched: bool) -> bool {
    &&& switched == (a.ui.session_list_state matches Some(i) && i < a.history_manager.history.sessions@.len())
    &&& !switched ==> b == a
    &&& switched ==> {
        let i = a.ui.session_list_state.unwrap();
        let off = rows_above(total_rows(msgs(b.messages@), 72), 20);
        &&& b.is_loading == a.is_loading
        &&& b.send_buffer == a.send_buffer
        &&& b.todo_manager == a.todo_manager
        &&& b.history_manager.file_path == a.history_manager.file_path
        &&& b.history_manager.history.map() == a.history_manager.history.map()
        &&& exists|l: Seq<&crate::history::ChatSession>|
            recency_order(a.history_manager.history, l) && b.history_manager.history.current_session_id == Some(
                #[trigger] l[i as int].id,
            )
        &&& restored(b.history_manager.history, msgs(b.messages@))
        &&& b.ui@ == (UiView { input_mode: InputMode::Normal, scroll_offset: off, list_state: Some(off), ..a.ui@ })
    }
}

/// The effect of deleting the selected session.
pub open spec fn delete_step(a: ChatApp, b: ChatApp, deleted: bool) -> bool {
    &&& deleted == (a.ui.session_list_state matches Some(i) && i < a.history_manager.history.sessions@.len())
    &&& !deleted ==> b == a
    &&& deleted ==> {
        let i = a.ui.session_list_state.unwrap();
        let h0 = a.history_manager.history;
        let h = b.history_manager.history;
        let off = rows_above(total_rows(msgs(b.messages@), 72), 20);
        &&& b.is_loading == a.is_loading
        &&& b.send_buffer == a.send_buffer
        &&& b.todo_manager == a.todo_manager
        &&& b.history_manager.file_path == a.history_manager.file_path
        &&& exists|l: Seq<&crate::history::ChatSession>|
            #![trigger recency_order(h0, l)]
            recency_order(h0, l) && after_drop(h0, h, msgs(b.messages@), l[i as int].id)
        &&& b.ui@ == (UiView {
            scroll_offset: off,
            list_state: Some(off),
            session_list_state: adjusted(i, h.sessions@.len()),
            ..a.ui@
        })
    }
}

/// The key toggles the help window (Control-H).
pub open spec fn is_help_key(k: KeyEvent) -> bool {
    k.control && k.code == KeyCode::Char('h')
}

/// The input is empty or white space.
pub open spec fn blank(s: Seq<char>) -> bool {
    trim_seq(s).len() == 0
}

/// The input has more than one line.
pub open spec fn multiline(s: Seq<char>) -> bool {
    lines_of(s).len() > 1
}

/// The effect of a key in normal mode.
pub open spec fn normal_step(a: ChatApp, k: KeyEvent, b: ChatApp, r: KeyAction) -> bool {
    let u = a.ui@;
    if is_help_key(k) {
        r == KeyAction::Nothing && ui_step(a, b, UiView { show_help: !u.show_help, ..u })
    } else {
        match k.code {
            KeyCode::Char('q') => r == KeyAction::Quit && b == a,
            KeyCode::Char('S') => r == KeyAction::Nothing && ui_step(
                a,
                b,
                UiView { input_mode: InputMode::SessionList, session_list_state: Some(0), ..u },
            ),
            KeyCode::Char('n') => r == KeyAction::Save && new_session_step(a, b),
            KeyCode::Char('s') => r == KeyAction::SaveAndReport && b == a,
            KeyCode::Char('i') => r == KeyAction::Nothing && ui_step(a, b, UiView { input_mode: InputMode::Insert, ..u }),
            KeyCode::Char('a') => r == KeyAction::Nothing && ui_step(
                a,
                b,
                right_ui(UiView { input_mode: InputMode::Insert, ..u }),
            ),
            KeyCode::Char('A') => r == KeyAction::Nothing && ui_step(
                a,
                b,
                UiView { input_mode: InputMode::Insert, cursor_position: b.ui.cursor_position, ..u },
            ) && b.ui.cursor_position == clusters(u.input),
            KeyCode::Char('I') => r == KeyAction::Nothing && ui_step(
                a,
                b,
                UiView { input_mode: InputMode::Insert, cursor_position: 0, ..u },
            ),
            KeyCode::Char('o') => r == KeyAction::Nothing && ui_step(
                a,
                b,
                UiView {
                    input_mode: InputMode::Insert,
                    input: u.input.push('\n'),
                    cursor_position: b.ui.cursor_position,
                    ..u
                },
            ) && b.ui.cursor_position == clusters(u.input.push('\n')),
            KeyCode::Char('O') => r == KeyAction::Nothing && ui_step(
                a,
                b,
                UiView { input_mode: InputMode::Insert, input: seq!['\n'] + u.input, cursor_position: 0, ..u },
            ),
            KeyCode::Char('h') | KeyCode::Left => r == KeyAction::Nothing && ui_step(a, b, left_ui(u)),
            KeyCode::Char('l') | KeyCode::Right => r == KeyAction::Nothing && ui_step(a, b, right_ui(u)),
            KeyCode::Char('j') | KeyCode::Down => r == KeyAction::Nothing && ui_step(
                a,
                b,
                if blank(u.input) {
                    scroll_down_ui(u)
                } else if multiline(u.input) {
                    down_ui(u)
                } else {
                    history_down_ui(u)
                },
            ),
            KeyCode::Char('k') | KeyCode::Up => r == KeyAction::Nothing && ui_step(
                a,
                b,
                if blank(u.input) {
                    scroll_up_ui(u, a.messages@.len() > 0)
                } else if multiline(u.input) {
                    up_ui(u)
                } else {
                    history_up_ui(u)
                },
            ),
            KeyCode::Char('0') => r == KeyAction::Nothing && ui_step(a, b, cursor_at(u, b.ui.cursor_position))
                && b.ui.cursor_position == line_home_pos(u),
            KeyCode::Char('$') => r == KeyAction::Nothing && ui_step(a, b, cursor_at(u, b.ui.cursor_position))
                && b.ui.cursor_position == line_last_pos(u),
            KeyCode::Char('v') => r == KeyAction::Nothing && ui_step(
                a,
                b,
                UiView { input_mode: InputMode::Visual, visual_start: Some(u.cursor_position), ..u },
            ),
            KeyCode::Char('x') => r == KeyAction::Nothing && ui_step(a, b, delete_at_ui(u)),
            KeyCode::Char('X') => r == KeyAction::Nothing && ui_step(a, b, delete_at_ui(left_ui(u))),
            KeyCode::Char('d') => r == KeyAction::Nothing && ui_step(a, b, delete_line_ui(u, b.ui.cursor_position))
                && b.ui.cursor_position == without_line_cursor(u),
            KeyCode::Enter => if !blank(u.input) {
                r == KeyAction::Send && b == a
            } else {
                r == KeyAction::Nothing && ui_step(a, b, insert_selected_ui(u, msgs(a.messages@)))
            },
            KeyCode::Char('f') => r == KeyAction::Relist && ui_step(
                a,
                b,
                UiView { input_mode: InputMode::FileBrowser, file_browser_state: Some(0), ..u },
            ),
            KeyCode::Char('y') => r == KeyAction::Nothing && ui_step(a, b, insert_selected_ui(u, msgs(a.messages@))),
            _ => r == KeyAction::Nothing && b == a,
        }
    }
}

impl ChatApp {
    /// The state a key can be handled in: the history is well formed and
    /// the cursor, the scroll position and the selection anchor can still
    /// move one step.
    pub open spec fn ready(&self) -> bool {
        &&& self.wf()
        &&& self.ui.cursor_position < usize::MAX
        &&& self.ui.scroll_offset < usize::MAX
        &&& self.ui.visual_start matches Some(s) ==> s < usize::MAX
    }

    /// Handles a key in normal mode.
    pub fn handle_normal_mode_key(&mut self, key: KeyEvent) -> (r: KeyAction)
        requires
            old(self).ready(),
        ensures
            final(self).wf(),
            normal_step(*old(self), key, *final(self), r),
    {
        if key.control && key.code == KeyCode::Char('h') {
            self.ui.show_help = !self.ui.show_help;
            return KeyAction::Nothing;
        }
        match key.code {
            KeyCode::Char('q') => {
                return KeyAction::Quit;
            },
            KeyCode::Char('S') => {
                self.ui.input_mode = InputMode::SessionList;
                self.ui.session_list_state = Some(0);
            },
            KeyCode::Char('n') => {
                self.create_new_session();
                return KeyAction::Save;
            },
            KeyCode::Char('s') => {
                return KeyAction::SaveAndReport;
            },
            KeyCode::Char('i') => {
                self.ui.input_mode = InputMode::Insert;
            },
            KeyCode::Char('a') => {
                self.ui.input_mode = InputMode::Insert;
                self.move_cursor_right();
            },
            KeyCode::Char('A') => {
                self.ui.input_mode = InputMode::Insert;
                self.ui.cursor_position = grapheme_count(self.ui.input.as_str());
            },
            KeyCode::Char('I') => {
                self.ui.input_mode = InputMode::Insert;
                self.ui.cursor_position = 0;
            },
            KeyCode::Char('o') => {
                self.ui.input_mode = InputMode::Insert;
                let mut v = chars_of(self.ui.input.as_str());
                v.push('\n');
                self.ui.input = string_of(&v);
                self.ui.cursor_position = grapheme_count(self.ui.input.as_str());
            },
            KeyCode::Char('O') => {
                self.ui.input_mode = InputMode::Insert;
                let mut v: Vec<char> = Vec::new();
                v.push('\n');
                push_str_chars(&mut v, self.ui.input.as_str());
                self.ui.input = string_of(&v);
                self.ui.cursor_position = 0;
            },
            KeyCode::Char('h') | KeyCode::Left => {
                self.move_cursor_left();
            },
            KeyCode::Char('l') | KeyCode::Right => {
                self.move_cursor_right();
            },
            KeyCode::Char('j') | KeyCode::Down => {
                if is_blank(self.ui.input.as_str()) {
                    self.scroll_messages_down();
                } else if line_count(self.ui.input.as_str()) > 1 {
                    self.move_cursor_down();
                } else {
                    self.navigate_history_down();
                }
            },
            KeyCode::Char('k') | KeyCode::Up => {
                if is_blank(self.ui.input.as_str()) {
                    self.scroll_messages_up();
                } else if line_count(self.ui.input.as_str()) > 1 {
                    self.move_cursor_up();
                } else {
                    self.navigate_history_up();
                }
            },
            KeyCode::Char('0') => {
                self.ui.cursor_position = current_line_start(self.ui.input.as_str(), self.ui.cursor_position);
            },
            KeyCode::Char('$') => {
                self.ui.cursor_position = current_line_end(self.ui.input.as_str(), self.ui.cursor_position);
            },
            KeyCode::Char('v') => {
                self.ui.input_mode = InputMode::Visual;
                self.ui.visual_start = Some(self.ui.cursor_position);
            },
            KeyCode::Char('x') => {
                self.delete_char_at_cursor();
            },
            KeyCode::Char('X') => {
                self.move_cursor_left();
                self.delete_char_at_cursor();
            },
            KeyCode::Char('d') => {
                let (from, to) = current_line_cut(self.ui.input.as_str(), self.ui.cursor_position);
                let rest = cut_range(self.ui.input.as_str(), from, to);
                let n = grapheme_count(rest.as_str());
                self.ui.input = rest;
                self.ui.cursor_position = if from < n {
                    from
                } else {
                    n
                };
                self.update_input_line_count();
            },
            KeyCode::Enter => {
                if !is_blank(self.ui.input.as_str()) {
                    return KeyAction::Send;
                } else {
                    self.insert_selected_message();
                }
            },
            KeyCode::Char('f') => {
                self.ui.input_mode = InputMode::FileBrowser;
                self.ui.file_browser_state = Some(0);
                return KeyAction::Relist;
            },
            KeyCode::Char('y') => {
                self.insert_selected_message();
            },
            _ => {},
        }
        KeyAction::Nothing
    }
}

} // verus!

verus! {

/// The effect of a key in insert mode.
pub open spec fn insert_step(a: ChatApp, k: KeyEvent, b: ChatApp, r: KeyAction) -> bool {
    let u = a.ui@;
    if is_help_key(k) {
        r == KeyAction::Nothing && ui_step(a, b, UiView { show_help: !u.show_help, ..u })
    } else {
        match k.code {
            KeyCode::Esc => r == KeyAction::Nothing && ui_step(a, b, left_ui(UiView { input_mode: InputMode::Normal, ..u })),
            KeyCode::Enter => if k.shift {
                r == KeyAction::Nothing && ui_step(a, b, type_ui(u, '\n'))
            } else if k.plain && !blank(u.input) {
                r == KeyAction::Send && b == a
            } else if k.plain {
                r == KeyAction::Nothing && ui_step(a, b, type_ui(u, '\n'))
            } else {
                r == KeyAction::Nothing && b == a
            },
            KeyCode::Char(c) => r == KeyAction::Nothing && ui_step(
                a,
                b,
                if reset_nav_ui(u).cursor_position < usize::MAX {
                    type_ui(reset_nav_ui(u), c)
                } else {
                    reset_nav_ui(u)
                },
            ),
            KeyCode::Backspace => r == KeyAction::Nothing && ui_step(a, b, backspace_ui(reset_nav_ui(u))),
            KeyCode::Delete => r == KeyAction::Nothing && ui_step(a, b, delete_at_ui(reset_nav_ui(u))),
            KeyCode::Left => r == KeyAction::Nothing && ui_step(a, b, left_ui(u)),
            KeyCode::Right => r == KeyAction::Nothing && ui_step(a, b, right_ui(u)),
            KeyCode::Up => r == KeyAction::Nothing && ui_step(
                a,
                b,
                if multiline(u.input) {
                    up_ui(u)
                } else {
                    history_up_ui(u)
                },
            ),
            KeyCode::Down => r == KeyAction::Nothing && ui_step(
                a,
                b,
                if multiline(u.input) {
                    down_ui(u)
                } else {
                    history_down_ui(u)
                },
            ),
            _ => r == KeyAction::Nothing && b == a,
        }
    }
}

/// The effect of a key in visual mode.
pub open spec fn visual_step(a: ChatApp, k: KeyEvent, b: ChatApp, r: KeyAction) -> bool {
    let u = a.ui@;
    &&& r == KeyAction::Nothing
    &&& if is_help_key(k) {
        ui_step(a, b, UiView { show_help: !u.show_help, ..u })
    } else {
        match k.code {
            KeyCode::Esc | KeyCode::Char('v') | KeyCode::Char('y') => ui_step(
                a,
                b,
                UiView { input_mode: InputMode::Normal, visual_start: None, ..u },
            ),
            KeyCode::Char('h') | KeyCode::Left => ui_step(a, b, left_ui(u)),
            KeyCode::Char('l') | KeyCode::Right => ui_step(a, b, right_ui(u)),
            KeyCode::Char('0') => ui_step(a, b, UiView { cursor_position: 0, ..u }),
            KeyCode::Char('$') => ui_step(a, b, cursor_at(u, b.ui.cursor_position)) && b.ui.cursor_position == clusters(
                u.input,
            ),
            KeyCode::Char('w') => ui_step(a, b, next_word_ui(u)),
            KeyCode::Char('b') => ui_step(a, b, prev_word_ui(u)),
            KeyCode::Char('d') | KeyCode::Char('x') => ui_step(
                a,
                b,
                UiView { input_mode: InputMode::Normal, visual_start: None, ..cut_selection_ui(u) },
            ),
            KeyCode::Char('j') | KeyCode::Down => ui_step(
                a,
                b,
                if multiline(u.input) {
                    down_ui(u)
                } else {
                    scroll_down_ui(u)
                },
            ),
            KeyCode::Char('k') | KeyCode::Up => ui_step(
                a,
                b,
                if multiline(u.input) {
                    up_ui(u)
                } else {
                    scroll_up_ui(u, a.messages@.len() > 0)
                },
            ),
            _ => b == a,
        }
    }
}

impl ChatApp {
    /// Handles a key in insert mode.
    pub fn handle_insert_mode_key(&mut self, key: KeyEvent) -> (r: KeyAction)
        requires
            old(self).ready(),
        ensures
            final(self).wf(),
            insert_step(*old(self), key, *final(self), r),
    {
        if key.control && key.code == KeyCode::Char('h') {
            self.ui.show_help = !self.ui.show_help;
            return KeyAction::Nothing;
        }
        match key.code {
            KeyCode::Esc => {
                self.ui.input_mode = InputMode::Normal;
                if self.ui.cursor_position > 0 {
                    self.ui.cursor_position = self.ui.cursor_position - 1;
                }
            },
            KeyCode::Enter => {
                if key.shift {
                    self.insert_char('\n');
                    self.update_input_line_count();
                    return KeyAction::Nothing;
                }
                if key.plain && !is_blank(self.ui.input.as_str()) {
                    return KeyAction::Send;
                }
                if key.plain {
                    self.insert_char('\n');
                }
            },
            KeyCode::Char(c) => {
                self.reset_history_navigation();
                if self.ui.cursor_position < usize::MAX {
                    self.insert_char(c);
                }
            },
            KeyCode::Backspace => {
                self.reset_history_navigation();
                self.delete_char_before_cursor();
            },
            KeyCode::Delete => {
                self.reset_history_navigation();
                self.delete_char_at_cursor();
            },
            KeyCode::Left => {
                self.move_cursor_left();
            },
            KeyCode::Right => {
                self.move_cursor_right();
            },
            KeyCode::Up => {
                if line_count(self.ui.input.as_str()) > 1 {
                    self.move_cursor_up();
                } else {
                    self.navigate_history_up();
                }
            },
            KeyCode::Down => {
                if line_count(self.ui.input.as_str()) > 1 {
                    self.move_cursor_down();
                } else {
                    self.navigate_history_down();
                }
            },
            _ => {},
        }
        KeyAction::Nothing
    }

    /// Handles a key in visual mode.
    pub fn handle_visual_mode_key(&mut self, key: KeyEvent) -> (r: KeyAction)
        requires
            old(self).ready(),
        ensures
            final(self).wf(),
            visual_step(*old(self), key, *final(self), r),
    {
        if key.control && key.code == KeyCode::Char('h') {
            self.ui.show_help = !self.ui.show_help;
            return KeyAction::Nothing;
        }
        match key.code {
            KeyCode::Esc | KeyCode::Char('v') | KeyCode::Char('y') => {
                self.ui.input_mode = InputMode::Normal;
                self.ui.visual_start = None;
            },
            KeyCode::Char('h') | KeyCode::Left => {
                self.move_cursor_left();
            },
            KeyCode::Char('l') | KeyCode::Right => {
                self.move_cursor_right();
            },
            KeyCode::Char('0') => {
                self.ui.cursor_position = 0;
            },
            KeyCode::Char('$') => {
                self.ui.cursor_position = grapheme_count(self.ui.input.as_str());
            },
            KeyCode::Char('w') => {
                self.move_to_next_word();
            },
            KeyCode::Char('b') => {
                self.move_to_prev_word();
            },
            KeyCode::Char('d') | KeyCode::Char('x') => {
                self.delete_visual_selection();
                self.ui.input_mode = InputMode::Normal;
                self.ui.visual_start = None;
            },
            KeyCode::Char('j') | KeyCode::Down => {
                if line_count(self.ui.input.as_str()) > 1 {
                    self.move_cursor_down();
                } else {
                    self.scroll_messages_down();
                }
            },
            KeyCode::Char('k') | KeyCode::Up => {
                if line_count(self.ui.input.as_str()) > 1 {
                    self.move_cursor_up();
                } else {
                    self.scroll_messages_up();
                }
            },
            _ => {},
        }
        KeyAction::Nothing
    }
}

} // verus!

verus! {

/// The file list selection one entry up.
pub open spec fn browser_prev_ui(u: UiView) -> UiView {
    let s = match u.file_browser_state {
        Some(k) => k,
        None => 0,
    };
    if s > 0 {
        UiView { file_browser_state: Some((s - 1) as usize), ..u }
    } else {
        u
    }
}

/// The file list selection one entry down.
pub open spec fn browser_next_ui(u: UiView) -> UiView {
    let s = match u.file_browser_state {
        Some(k) => k,
        None => 0,
    };
    let n = u.directory_contents.len();
    if n > 0 && s < n - 1 {
        UiView { file_browser_state: Some((s + 1) as usize), ..u }
    } else {
        u
    }
}

/// The selected entry opened, and whether the directory must be listed.
pub open spec fn open_ui(u: UiView) -> (UiView, bool) {
    match selected_entry(u) {
        Some(item) => if is_dir_entry(item) {
            (
                UiView {
                    current_directory: crate::file_access::path_joined(u.current_directory, trim_end_char(item, '/')),
                    file_browser_state: Some(0),
                    ..u
                },
                true,
            )
        } else {
            let text = with_reference(u.input, crate::file_access::path_joined(u.current_directory, item));
            (UiView { input: text, cursor_position: clusters(text) as usize, input_mode: InputMode::Insert, ..u }, false)
        },
        None => (u, false),
    }
}

/// The selected file attached or detached.
pub open spec fn toggle_ui(u: UiView) -> UiView {
    match selected_entry(u) {
        Some(item) => if is_dir_entry(item) {
            u
        } else {
            let p = crate::file_access::path_joined(u.current_directory, item);
            match first_index(u.selected_files, p) {
                Some(pos) => {
                    let text = trim_seq(crate::text::replace_seq(u.input, "@file:"@ + p, Seq::empty()));
                    UiView {
                        selected_files: u.selected_files.remove(pos),
                        input: text,
                        cursor_position: clusters(text) as usize,
                        ..u
                    }
                },
                None => {
                    let text = with_reference(u.input, p);
                    UiView {
                        selected_files: u.selected_files.push(p),
                        input: text,
                        cursor_position: clusters(text) as usize,
                        ..u
                    }
                },
            }
        },
        None => u,
    }
}

/// The selected file detached.
pub open spec fn unselect_ui(u: UiView) -> UiView {
    match selected_entry(u) {
        Some(item) => if is_dir_entry(item) {
            u
        } else {
            let p = crate::file_access::path_joined(u.current_directory, item);
            match first_index(u.selected_files, p) {
                Some(pos) => UiView { selected_files: u.selected_files.remove(pos), ..u },
                None => u,
            }
        },
        None => u,
    }
}

/// The parent directory entered, and whether it must be listed.
pub open spec fn parent_ui(u: UiView) -> (UiView, bool) {
    match crate::file_access::path_parent(u.current_directory) {
        Some(p) => (UiView { current_directory: p, file_browser_state: Some(0), ..u }, true),
        None => (u, false),
    }
}

/// The effect of a key in the session list.
pub open spec fn session_list_step(a: ChatApp, k: KeyEvent, b: ChatApp, r: KeyAction) -> bool {
    let u = a.ui@;
    let n = a.history_manager.history.sessions@.len();
    match k.code {
        KeyCode::Esc | KeyCode::Char('q') => r == KeyAction::Nothing && ui_step(
            a,
            b,
            UiView { input_mode: InputMode::Normal, ..u },
        ),
        KeyCode::Up | KeyCode::Char('k') => r == KeyAction::Nothing && ui_step(
            a,
            b,
            if n == 0 {
                u
            } else {
                UiView { session_list_state: Some(stepped(u.session_list_state, n, false)), ..u }
            },
        ),
        KeyCode::Down | KeyCode::Char('j') => r == KeyAction::Nothing && ui_step(
            a,
            b,
            if n == 0 {
                u
            } else {
                UiView { session_list_state: Some(stepped(u.session_list_state, n, true)), ..u }
            },
        ),
        KeyCode::Enter => exists|s: bool| #[trigger] switch_step(a, b, s) && r == (if s {
            KeyAction::Save
        } else {
            KeyAction::Nothing
        }),
        KeyCode::Char('d') => exists|d: bool| #[trigger] delete_step(a, b, d) && r == (if d {
            KeyAction::Save
        } else {
            KeyAction::Nothing
        }),
        KeyCode::Char('n') => r == KeyAction::Save && exists|m: ChatApp|
            #[trigger] new_session_step(m, b) && ui_step(a, m, UiView { input_mode: InputMode::Normal, ..u }),
        _ => r == KeyAction::Nothing && b == a,
    }
}

/// The effect of a key in the file browser.
pub open spec fn file_browser_step(a: ChatApp, k: KeyEvent, b: ChatApp, r: KeyAction) -> bool {
    let u = a.ui@;
    match k.code {
        KeyCode::Esc | KeyCode::Char('q') => r == KeyAction::Nothing && ui_step(
            a,
            b,
            UiView { input_mode: InputMode::Normal, ..u },
        ),
        KeyCode::Up | KeyCode::Char('k') => r == KeyAction::Nothing && ui_step(a, b, browser_prev_ui(u)),
        KeyCode::Down | KeyCode::Char('j') => r == KeyAction::Nothing && ui_step(a, b, browser_next_ui(u)),
        KeyCode::Enter => ui_step(a, b, open_ui(u).0) && r == (if open_ui(u).1 {
            KeyAction::Relist
        } else {
            KeyAction::Nothing
        }),
        KeyCode::Char(' ') => r == KeyAction::Nothing && ui_step(a, b, toggle_ui(u)),
        KeyCode::Delete | KeyCode::Char('d') => r == KeyAction::Nothing && ui_step(a, b, unselect_ui(u)),
        KeyCode::Char('r') => r == KeyAction::Relist && b == a,
        KeyCode::Char('u') => ui_step(a, b, parent_ui(u).0) && r == (if parent_ui(u).1 {
            KeyAction::Relist
        } else {
            KeyAction::Nothing
        }),
        KeyCode::Char('i') => r == KeyAction::Nothing && ui_step(a, b, UiView { input_mode: InputMode::Insert, ..u }),
        _ => r == KeyAction::Nothing && b == a,
    }
}

impl ChatApp {
    /// Handles a key in the session list.
    pub fn handle_session_list_key(&mut self, key: KeyEvent) -> (r: KeyAction)
        requires
            old(self).wf(),
        ensures
            final(self).wf(),
            session_list_step(*old(self), key, *final(self), r),
    {
        match key.code {
            KeyCode::Esc | KeyCode::Char('q') => {
                self.ui.input_mode = InputMode::Normal;
            },
            KeyCode::Up | KeyCode::Char('k') => {
                self.session_list_previous();
            },
            KeyCode::Down | KeyCode::Char('j') => {
                self.session_list_next();
            },
            KeyCode::Enter => {
                let ghost a = *self;
                let s = self.switch_to_selected_session();
                assert(switch_step(a, *self, s));
                return if s {
                    KeyAction::Save
                } else {
                    KeyAction::Nothing
                };
            },
            KeyCode::Char('d') => {
                let ghost a = *self;
                let d = self.delete_selected_session();
                assert(delete_step(a, *self, d));
                return if d {
                    KeyAction::Save
                } else {
                    KeyAction::Nothing
                };
            },
            KeyCode::Char('n') => {
                self.ui.input_mode = InputMode::Normal;
                let ghost m = *self;
                self.create_new_session();
                assert(new_session_step(m, *self));
                return KeyAction::Save;
            },
            _ => {},
        }
        KeyAction::Nothing
    }

    /// Handles a key in the file browser.
    pub fn handle_file_browser_key(&mut self, key: KeyEvent) -> (r: KeyAction)
        requires
            old(self).wf(),
        ensures
            final(self).wf(),
            file_browser_step(*old(self), key, *final(self), r),
    {
        match key.code {
            KeyCode::Esc | KeyCode::Char('q') => {
                self.ui.input_mode = InputMode::Normal;
            },
            KeyCode::Up | KeyCode::Char('k') => {
                self.file_browser_previous();
            },
            KeyCode::Down | KeyCode::Char('j') => {
                self.file_browser_next();
            },
            KeyCode::Enter => {
                if self.open_selected_file() {
                    return KeyAction::Relist;
                }
            },
            KeyCode::Char(' ') => {
                self.toggle_file_selection();
            },
            KeyCode::Delete | KeyCode::Char('d') => {
                self.delete_selected_file();
            },
            KeyCode::Char('r') => {
                return KeyAction::Relist;
            },
            KeyCode::Char('u') => {
                if self.go_to_parent_directory() {
                    return KeyAction::Relist;
                }
            },
            KeyCode::Char('i') => {
                self.ui.input_mode = InputMode::Insert;
            },
            _ => {},
        }
        KeyAction::Nothing
    }
}

} // verus!

verus! {

/// `b` is `a` with the notification dismissed.
pub open spec fn dismissed(a: ChatApp, b: ChatApp) -> bool {
    ui_step(a, b, UiView { notification: None, ..a.ui@ })
}

impl ChatApp {
    /// Handles a key: the notification is dismissed, anything but a press
    /// is ignored, and the key goes to the handler of the current mode.
    pub fn handle_key_event(&mut self, key: KeyEvent) -> (r: KeyAction)
        requires
            old(self).ready(),
        ensures
            final(self).wf(),
            !key.press ==> r == KeyAction::Nothing && ui_step(
                *old(self),
                *final(self),
                UiView { notification: None, ..old(self).ui@ },
            ),
            key.press ==> exists|m: ChatApp|
                #[trigger] dismissed(*old(self), m) && match old(self).ui.input_mode {
                    InputMode::Normal => normal_step(m, key, *final(self), r),
                    InputMode::Insert => insert_step(m, key, *final(self), r),
                    InputMode::Visual => visual_step(m, key, *final(self), r),
                    InputMode::SessionList => session_list_step(m, key, *final(self), r),
                    InputMode::FileBrowser => file_browser_step(m, key, *final(self), r),
                },
    {
        self.ui.notification = None;
        if !key.press {
            return KeyAction::Nothing;
        }
        let ghost m = *self;
        assert(dismissed(*old(self), m));
        match self.ui.input_mode {
            InputMode::Normal => self.handle_normal_mode_key(key),
            InputMode::Insert => self.handle_insert_mode_key(key),
            InputMode::Visual => self.handle_visual_mode_key(key),
            InputMode::SessionList => self.handle_session_list_key(key),
            InputMode::FileBrowser => self.handle_file_browser_key(key),
        }
    }

    /// Shows whether saving the history worked.
    pub fn report_save(&mut self, result: Result<(), String>)
        ensures
            final(self).ui == old(self).ui,
            final(self).history_manager == old(self).history_manager,
            final(self).is_loading == old(self).is_loading,
            final(self).send_buffer == old(self).send_buffer,
            final(self).todo_manager == old(self).todo_manager,
            msgs(final(self).messages@).drop_last() == msgs(old(self).messages@),
            final(self).messages@.len() == old(self).messages@.len() + 1,
            !final(self).messages@.last().is_user,
            final(self).messages@.last().content@ == match result {
                Ok(()) => "History saved successfully!"@,
                Err(e) => "Error saving history: "@ + e@,
            },
    {
        let text = match result {
            Ok(()) => crate::text::to_owned_string("History saved successfully!"),
            Err(e) => {
                let mut v = chars_of("Error saving history: ");
                push_str_chars(&mut v, e.as_str());
                string_of(&v)
            },
        };
        let ghost before = msgs(self.messages@);
        let m = ChatMessage { id: new_uuid(), content: text, is_user: false, timestamp: now_utc() };
        let ghost mv = m@;
        self.messages.push(m);
        assert(msgs(self.messages@) =~= before.push(mv));
    }
}

/// Where the model loop is: the message to send next and the step number.
#[derive(Debug)]
pub struct LoopState {
    pub message: String,
    pub step: u64,
}

/// How a request of the model loop ended.
#[derive(Debug)]
pub enum LoopReply {
    /// No reply within the time limit.
    TimedOut,
    /// The request failed.
    Failed(String),
    /// The model replied.
    Replied(String),
}

/// The prompt of a step of the progress loop.
pub open spec fn progress_prompt_text(message: Seq<char>) -> Seq<char> {
    message + "\n\n---\n次に何をすべきか、追加タスクがあるかを必ず明示してください。\n「完了」「終了」「何もする必要がない」などの場合は、その旨を明確に書いてください。"@
}

/// The note shown while step `step` waits for the model.
pub open spec fn progress_note_text(step: nat) -> Seq<char> {
    "🤖 Step "@ + crate::text::decimal_of(step) + ": LLMに問い合わせ中..."@
}

/// The reply event of step `step`.
pub open spec fn step_reply_text(step: nat, response: Seq<char>) -> Seq<char> {
    "🤖 Step "@ + crate::text::decimal_of(step) + ": LLM応答\n"@ + response
}

/// The events shown when the loop runs out of steps after `message`.
pub open spec fn exhausted_events(message: Seq<char>) -> Seq<(bool, Seq<char>)> {
    (if message.len() > 0 {
        seq![(true, message)]
    } else {
        Seq::empty()
    }) + seq![(true, "⚠️ LLM応答に「完了」等が含まれなかったため自動終了しました。"@)]
}

/// An event as plain values: whether it is a reply, and its text.
pub open spec fn event_view(e: ChatEvent) -> (bool, Seq<char>) {
    match e {
        ChatEvent::AIResponse(t) => (true, t@),
        ChatEvent::Error(t) => (false, t@),
    }
}

/// The effect of a model reply on the progress loop: the events to show
/// and the next state, if the loop goes on.
pub open spec fn loop_step(step: nat, reply: LoopReply) -> (Seq<(bool, Seq<char>)>, Option<Seq<char>>) {
    match reply {
        LoopReply::TimedOut => (seq![(false, "❌ LLMリクエストがタイムアウトしました"@)], None),
        LoopReply::Failed(e) => (seq![(false, "❌ LLMとの通信に失敗しました: "@ + e@)], None),
        LoopReply::Replied(t) => if t@.len() == 0 {
            (seq![(false, "❌ LLMからの応答が空です。再試行してください。"@)], None)
        } else if crate::gemini::flag_of(
            crate::gemini::regex_group1(crate::gemini::finished_pattern(), crate::text::lowercase_of(t@)),
        ) == Some(true) {
            (
                seq![(true, step_reply_text(step, t@)), (true, t@), (true, "✅ LLMが終了を指示したためループを終了します。"@)],
                None,
            )
        } else if step >= 10 {
            (seq![(true, step_reply_text(step, t@))] + exhausted_events(t@), None)
        } else {
            (seq![(true, step_reply_text(step, t@))], Some(t@))
        },
    }
}

fn reply_event(text: Vec<char>) -> (r: ChatEvent)
    ensures
        event_view(r) == (true, text@),
{
    ChatEvent::AIResponse(string_of(&text))
}

fn error_event(text: Vec<char>) -> (r: ChatEvent)
    ensures
        event_view(r) == (false, text@),
{
    ChatEvent::Error(string_of(&text))
}

impl ChatApp {
    /// The prompt sent at a step of the progress loop.
    pub fn progress_prompt(message: &str) -> (r: String)
        ensures
            r@ == progress_prompt_text(message@),
    {
        let mut v = chars_of(message);
        push_str_chars(&mut v, "\n\n---\n次に何をすべきか、追加タスクがあるかを必ず明示してください。\n「完了」「終了」「何もする必要がない」などの場合は、その旨を明確に書いてください。");
        string_of(&v)
    }

    /// The note shown while a step waits for the model.
    pub fn progress_note(step: u64) -> (r: ChatEvent)
        ensures
            event_view(r) == (true, progress_note_text(step as nat)),
    {
        let mut v = chars_of("🤖 Step ");
        push_all(&mut v, &crate::text::decimal_chars(step));
        push_str_chars(&mut v, ": LLMに問い合わせ中...");
        reply_event(v)
    }

    /// One step of the model loop (at most ten steps): a reply is shown and
    /// ends the loop when it says it is finished, becomes the next message
    /// otherwise, and the tenth reply ends the loop with a note; timeouts,
    /// failures and empty replies end it with an error.
    pub fn chat_loop_with_progress_static(state: LoopState, reply: LoopReply) -> (r: (Vec<ChatEvent>, Option<LoopState>))
        requires
            1 <= state.step <= 10,
        ensures
            ({
                let (events, next) = loop_step(state.step as nat, reply);
                &&& r.0@.map_values(|e: ChatEvent| event_view(e)) == events
                &&& match next {
                    Some(m) => r.1 matches Some(s) && s.message@ == m && s.step == state.step + 1,
                    None => r.1 is None,
                }
            }),
    {
        let mut events: Vec<ChatEvent> = Vec::new();
        match reply {
            LoopReply::TimedOut => {
                events.push(error_event(chars_of("❌ LLMリクエストがタイムアウトしました")));
                assert(events@.map_values(|e: ChatEvent| event_view(e)) =~= loop_step(state.step as nat, reply).0);
                (events, None)
            },
            LoopReply::Failed(e) => {
                let mut v = chars_of("❌ LLMとの通信に失敗しました: ");
                push_str_chars(&mut v, e.as_str());
                events.push(error_event(v));
                assert(events@.map_values(|e: ChatEvent| event_view(e)) =~= loop_step(state.step as nat, reply).0);
                (events, None)
            },
            LoopReply::Replied(t) => {
                if t.as_str().unicode_len() == 0 {
                    events.push(error_event(chars_of("❌ LLMからの応答が空です。再試行してください。")));
                    assert(events@.map_values(|e: ChatEvent| event_view(e)) =~= loop_step(state.step as nat, reply).0);
                    return (events, None);
                }
                let mut v = chars_of("🤖 Step ");
                push_all(&mut v, &crate::text::decimal_chars(state.step));
                push_str_chars(&mut v, ": LLM応答\n");
                push_str_chars(&mut v, t.as_str());
                events.push(reply_event(v));
                let lower = crate::text::to_lowercase(t.as_str());
                let done = match crate::gemini::extract_is_finished_flag(lower.as_str()) {
                    Some(b) => b,
                    None => false,
                };
                if done {
                    events.push(reply_event(chars_of(t.as_str())));
                    events.push(reply_event(chars_of("✅ LLMが終了を指示したためループを終了します。")));
                    assert(events@.map_values(|e: ChatEvent| event_view(e)) =~= loop_step(state.step as nat, reply).0);
                    return (events, None);
                }
                if state.step >= 10 {
                    events.push(reply_event(chars_of(t.as_str())));
                    events.push(reply_event(chars_of("⚠️ LLM応答に「完了」等が含まれなかったため自動終了しました。")));
                    assert(events@.map_values(|e: ChatEvent| event_view(e)) =~= loop_step(state.step as nat, reply).0);
                    return (events, None);
                }
                assert(events@.map_values(|e: ChatEvent| event_view(e)) =~= loop_step(state.step as nat, reply).0);
                (events, Some(LoopState { message: t, step: state.step + 1 }))
            },
        }
    }
}

} // verus!

verus! {
/// The help lines of Normal mode.
pub open spec fn help_normal() -> Seq<Seq<char>> {
    seq![
        "=== Normal Mode ==="@,
        ""@,
        "Movement:"@,
        "  h/j/k/l or ←/↓/↑/→  - Move cursor"@,
        "  0                   - Move to beginning of line"@,
        "  $                   - Move to end of line"@,
        ""@,
        "Editing:"@,
        "  i                   - Insert mode"@,
        "  a                   - Append (insert after cursor)"@,
        "  A                   - Append at end of line"@,
        "  I                   - Insert at beginning of line"@,
        "  o                   - Open new line below"@,
        "  O                   - Open new line above"@,
        "  v                   - Visual mode"@,
        ""@,
        "Actions:"@,
        "  Enter               - Send message"@,
        "  y                   - Yank (copy) current message"@,
        ""@,
        "Session:"@,
        "  n                   - New session"@,
        "  s                   - Save history"@,
        "  S                   - Session list"@,
        "  f                   - File browser"@,
        "  t                   - Toggle TODO panel"@,
        "  T                   - TODO list management"@,
        "  q                   - Quit"@,
        ""@,
        "Help:"@,
        "  Ctrl+H              - Toggle this help window"@,
    ]
}

/// The help lines of Insert mode.
pub open spec fn help_insert() -> Seq<Seq<char>> {
    seq![
        "=== Insert Mode ==="@,
        ""@,
        "Text Input:"@,
        "  Type normally to enter text"@,
        "  Shift+Enter         - New line (multi-line input)"@,
        "  Enter               - Send message"@,
        "  Esc                 - Return to Normal mode"@,
        ""@,
        "File References:"@,
        "  @file:path          - Reference a file in your message"@,
        "  Example: @file:./config.json"@,
        ""@,
        "AI Features:"@,
        "  Ask AI to create files:"@,
        "    'Create a file called test.txt with hello world'"@,
        "  Ask AI to run commands:"@,
        "    'List files in current directory'"@,
        "    'Show git status'"@,
        ""@,
        "History:"@,
        "  ↑/↓                 - Navigate input history"@,
        ""@,
        "Help:"@,
        "  Ctrl+H              - Toggle this help window"@,
    ]
}

/// The help lines of Visual mode.
pub open spec fn help_visual() -> Seq<Seq<char>> {
    seq![
        "=== Visual Mode ==="@,
        ""@,
        "Selection:"@,
        "  h/j/k/l or ←/↓/↑/→  - Extend selection"@,
        "  w                   - Move forward by word"@,
        "  b                   - Move backward by word"@,
        ""@,
        "Actions:"@,
        "  d                   - Delete selected text"@,
        "  y                   - Yank (copy) selected text"@,
        ""@,
        "Exit:"@,
        "  v                   - Exit Visual mode"@,
        "  Esc                 - Exit Visual mode"@,
        ""@,
        "Help:"@,
        "  Ctrl+H              - Toggle this help window"@,
    ]
}

/// The help lines of SessionList mode.
pub open spec fn help_session_list() -> Seq<Seq<char>> {
    seq![
        "=== Session List ==="@,
        ""@,
        "Navigation:"@,
        "  j/k or ↓/↑          - Navigate sessions"@,
        ""@,
        "Actions:"@,
        "  Enter               - Select session"@,
        "  d                   - Delete session"@,
        "  n                   - Create new session"@,
        ""@,
        "Exit:"@,
        "  q or Esc            - Return to chat"@,
        ""@,
        "Help:"@,
        "  Ctrl+H              - Toggle this help window"@,
    ]
}

/// The help lines of FileBrowser mode.
pub open spec fn help_file_browser() -> Seq<Seq<char>> {
    seq![
        "=== File Browser ==="@,
        ""@,
        "Navigation:"@,
        "  j/k or ↓/↑          - Navigate files"@,
        "  u                   - Go to parent directory"@,
        "  r                   - Refresh directory"@,
        ""@,
        "Actions:"@,
        "  Enter               - Add file path to input"@,
        "  Space               - Toggle file selection"@,
        "  i                   - Edit selected file"@,
        ""@,
        "Exit:"@,
        "  q                   - Return to chat"@,
        ""@,
        "Help:"@,
        "  Ctrl+H              - Toggle this help window"@,
    ]
}

/// The help lines of a mode.
pub open spec fn help_lines(mode: InputMode) -> Seq<Seq<char>> {
    match mode {
        InputMode::Normal => help_normal(),
        InputMode::Insert => help_insert(),
        InputMode::Visual => help_visual(),
        InputMode::SessionList => help_session_list(),
        InputMode::FileBrowser => help_file_browser(),
    }
}

fn strings_of(list: &[&str]) -> (r: Vec<String>)
    ensures
        r.deep_view() == list@.map_values(|s: &str| s@),
{
    let mut r: Vec<String> = Vec::new();
    let mut i: usize = 0;
    while i < list.len()
        invariant
            i <= list@.len(),
            r.deep_view() == list@.take(i as int).map_values(|s: &str| s@),
        decreases list@.len() - i,
    {
        let ghost before = r.deep_view();
        r.push(crate::text::to_owned_string(list[i]));
        assert(r.deep_view() =~= before.push(list@[i as int]@));
        assert(list@.take(i + 1).map_values(|s: &str| s@) =~= list@.take(i as int).map_values(
            |s: &str| s@,
        ).push(list@[i as int]@));
        i = i + 1;
    }
    assert(list@.take(i as int) =~= list@);
    r
}

impl ChatApp {
    /// The lines of the help window for the current mode.
    pub fn help_text(&self) -> (r: Vec<String>)
        ensures
            r.deep_view() == help_lines(self.ui.input_mode),
    {
        match self.ui.input_mode {
            InputMode::Normal => {
                let lines = ["=== Normal Mode ===", "", "Movement:", "  h/j/k/l or ←/↓/↑/→  - Move cursor", "  0                   - Move to beginning of line", "  $                   - Move to end of line", "", "Editing:", "  i                   - Insert mode", "  a                   - Append (insert after cursor)", "  A                   - Append at end of line", "  I                   - Insert at beginning of line", "  o                   - Open new line below", "  O                   - Open new line above", "  v                   - Visual mode", "", "Actions:", "  Enter               - Send message", "  y                   - Yank (copy) current message", "", "Session:", "  n                   - New session", "  s                   - Save history", "  S                   - Session list", "  f                   - File browser", "  t                   - Toggle TODO panel", "  T                   - TODO list management", "  q                   - Quit", "", "Help:", "  Ctrl+H              - Toggle this help window"];
                assert(lines@.map_values(|s: &str| s@) =~= help_normal());
                strings_of(&lines)
            },
            InputMode::Insert => {
                let lines = ["=== Insert Mode ===", "", "Text Input:", "  Type normally to enter text", "  Shift+Enter         - New line (multi-line input)", "  Enter               - Send message", "  Esc                 - Return to Normal mode", "", "File References:", "  @file:path          - Reference a file in your message", "  Example: @file:./config.json", "", "AI Features:", "  Ask AI to create files:", "    'Create a file called test.txt with hello world'", "  Ask AI to run commands:", "    'List files in current directory'", "    'Show git status'", "", "History:", "  ↑/↓                 - Navigate input history", "", "Help:", "  Ctrl+H              - Toggle this help window"];
                assert(lines@.map_values(|s: &str| s@) =~= help_insert());
                strings_of(&lines)
            },
            InputMode::Visual => {
                let lines = ["=== Visual Mode ===", "", "Selection:", "  h/j/k/l or ←/↓/↑/→  - Extend selection", "  w                   - Move forward by word", "  b                   - Move backward by word", "", "Actions:", "  d                   - Delete selected text", "  y                   - Yank (copy) selected text", "", "Exit:", "  v                   - Exit Visual mode", "  Esc                 - Exit Visual mode", "", "Help:", "  Ctrl+H              - Toggle this help window"];
                assert(lines@.map_values(|s: &str| s@) =~= help_visual());
                strings_of(&lines)
            },
            InputMode::SessionList => {
                let lines = ["=== Session List ===", "", "Navigation:", "  j/k or ↓/↑          - Navigate sessions", "", "Actions:", "  Enter               - Select session", "  d                   - Delete session", "  n                   - Create new session", "", "Exit:", "  q or Esc            - Return to chat", "", "Help:", "  Ctrl+H              - Toggle this help window"];
                assert(lines@.map_values(|s: &str| s@) =~= help_session_list());
                strings_of(&lines)
            },
            InputMode::FileBrowser => {
                let lines = ["=== File Browser ===", "", "Navigation:", "  j/k or ↓/↑          - Navigate files", "  u                   - Go to parent directory", "  r                   - Refresh directory", "", "Actions:", "  Enter               - Add file path to input", "  Space               - Toggle file selection", "  i                   - Edit selected file", "", "Exit:", "  q                   - Return to chat", "", "Help:", "  Ctrl+H              - Toggle this help window"];
                assert(lines@.map_values(|s: &str| s@) =~= help_file_browser());
                strings_of(&lines)
            },
        }
    }
}

} // verus!

verus! {

/// The title of the input box in each mode.
pub open spec fn input_title_text(mode: InputMode) -> Seq<char> {
    match mode {
        InputMode::Normal => "Input (Press 'i' to insert, 'v' for visual, 'q' to quit)"@,
        InputMode::Insert => "Insert Mode (Shift+Enter: new line, Enter: send, Esc: normal mode)"@,
        InputMode::Visual => "Visual Mode (Select text, press 'd' to delete, 'y' to yank, Esc to exit)"@,
        InputMode::SessionList => "Session List (Press Enter to select, 'd' to delete, 'n' for new)"@,
        InputMode::FileBrowser => "File Browser (Press Enter to open, 'd' to delete, 'n' for new)"@,
    }
}

/// The line that shows a session in the list: its title, its number of
/// messages and a preview of the last one (47 characters at most).
pub open spec fn session_label(s: crate::history::SessionView) -> Seq<char> {
    s.title + " ("@ + crate::text::decimal_of(s.messages.len()) + " messages)"@ + if s.messages.len() > 0 {
        " - "@ + truncate_spec(s.messages.last().content, 47)
    } else {
        " - No messages"@
    }
}

/// The line that shows a directory entry.
pub open spec fn entry_label(item: Seq<char>) -> Seq<char> {
    (if is_dir_entry(item) {
        "📁"@
    } else {
        "📄"@
    }) + " "@ + item
}

impl ChatApp {
    /// The title of the input box.
    pub fn input_title(&self) -> (r: String)
        ensures
            r@ == input_title_text(self.ui.input_mode),
    {
        match self.ui.input_mode {
            InputMode::Normal => crate::text::to_owned_string("Input (Press 'i' to insert, 'v' for visual, 'q' to quit)"),
            InputMode::Insert => crate::text::to_owned_string("Insert Mode (Shift+Enter: new line, Enter: send, Esc: normal mode)"),
            InputMode::Visual => crate::text::to_owned_string("Visual Mode (Select text, press 'd' to delete, 'y' to yank, Esc to exit)"),
            InputMode::SessionList => crate::text::to_owned_string("Session List (Press Enter to select, 'd' to delete, 'n' for new)"),
            InputMode::FileBrowser => crate::text::to_owned_string("File Browser (Press Enter to open, 'd' to delete, 'n' for new)"),
        }
    }

    /// The line that shows a session in the list.
    pub fn session_item_label(session: &crate::history::ChatSession) -> (r: String)
        ensures
            r@ == session_label(session@),
    {
        let n = session.messages.len();
        let mut v = chars_of(session.title.as_str());
        push_str_chars(&mut v, " (");
        push_str_chars(&mut v, crate::text::usize_to_string(n).as_str());
        push_str_chars(&mut v, " messages)");
        if n > 0 {
            push_str_chars(&mut v, " - ");
            assert(session@.messages.last() == session.messages@[n - 1]@);
            let preview = Self::truncate_string_safe(session.messages[n - 1].content.as_str(), 47);
            push_str_chars(&mut v, preview.as_str());
        } else {
            push_str_chars(&mut v, " - No messages");
        }
        string_of(&v)
    }

    /// The line that shows a directory entry.
    pub fn file_entry_label(item: &str) -> (r: String)
        ensures
            r@ == entry_label(item@),
    {
        let mut v = if crate::text::ends_with_char(item, '/') {
            chars_of("📁")
        } else {
            chars_of("📄")
        };
        push_str_chars(&mut v, " ");
        push_str_chars(&mut v, item);
        string_of(&v)
    }

    /// Whether a file entry is shown as attached: it is selected or
    /// referenced in the input.
    pub fn file_entry_marked(&self, item: &str) -> (r: bool)
        ensures
            r == (!is_dir_entry(item@) && {
                let p = crate::file_access::path_joined(self.ui@.current_directory, item@);
                self.ui@.selected_files.contains(p) || crate::text::seq_contains(self.ui@.input, "@file:"@ + p)
            }),
    {
        if crate::text::ends_with_char(item, '/') {
            return false;
        }
        let p = crate::file_access::join_path(self.ui.current_directory.as_str(), item);
        let selected = match position_of(&self.ui.selected_files, &p) {
            Some(_) => true,
            None => false,
        };
        proof {
            lemma_first_index_contains(self.ui@.selected_files, p@);
        }
        if selected {
            return true;
        }
        let mut pat = chars_of("@file:");
        push_str_chars(&mut pat, p.as_str());
        let input = chars_of(self.ui.input.as_str());
        crate::text::contains_chars(&input, &pat)
    }

    /// Keeps the message view at the bottom once it reached it, and selects
    /// the row at the scroll position.
    pub fn settle_scroll(&mut self)
        ensures
            Self::same_data(&*final(self), &*old(self)),
            final(self).ui.history_index == old(self).ui.history_index,
            final(self).ui.input_history == old(self).ui.input_history,
            old(self).messages@.len() == 0 ==> final(self).ui@ == old(self).ui@,
            old(self).messages@.len() > 0 ==> {
                let last = (old(self).messages@.len() - 1) as usize;
                let off = if old(self).ui.scroll_offset >= last {
                    last
                } else {
                    old(self).ui.scroll_offset
                };
                final(self).ui@ == (UiView { scroll_offset: off, list_state: Some(off), ..old(self).ui@ })
            },
    {
        let n = self.messages.len();
        if n > 0 {
            if self.ui.scroll_offset >= n - 1 {
                self.ui.scroll_offset = n - 1;
            }
            self.ui.list_state = Some(self.ui.scroll_offset);
        }
    }

    /// The text width of a message row in a view `area_width` columns wide.
    pub fn message_width(area_width: u16) -> (r: usize)
        ensures
            r == if area_width > 8 {
                area_width - 8
            } else {
                1
            },
    {
        if area_width > 8 {
            (area_width - 8) as usize
        } else {
            1
        }
    }
}

proof fn lemma_first_index_contains(s: Seq<Seq<char>>, x: Seq<char>)
    ensures
        first_index(s, x) is Some <==> s.contains(x),
    decreases s.len(),
{
    if s.len() > 0 {
        lemma_first_index_contains(s.drop_first(), x);
        if s.contains(x) && s[0] != x {
            let i = choose|i: int| 0 <= i < s.len() && s[i] == x;
            assert(s.drop_first()[i - 1] == x);
        }
        if s.drop_first().contains(x) {
            let i = choose|i: int| 0 <= i < s.drop_first().len() && s.drop_first()[i] == x;
            assert(s[i + 1] == x);
        }
    }
}

} // verus!

verus! {

/// Recalling the newest history entry and then leaving recall gives back
/// the input that was being typed, with recall off.
pub proof fn law_history_recall_roundtrip(u: UiView)
    requires
        u.history_index is None,
        u.input_history.len() > 0,
    ensures
        reset_nav_ui(history_up_ui(u)).input == u.input,
        reset_nav_ui(history_up_ui(u)).history_index is None,
        reset_nav_ui(history_up_ui(u)).input_history == u.input_history,
{
}

/// The input history never grows beyond fifty entries, and its newest entry
/// is the message just sent.
pub proof fn law_history_bounded(h: Seq<Seq<char>>, m: Seq<char>)
    requires
        h.len() <= 50,
    ensures
        history_after(h, m).len() <= 50,
        history_after(h, m).len() > 0,
        history_after(h, m).last() == m,
{
}

/// In normal mode, `a` starts inserting after the cursor: insert mode
/// begins with the input unchanged and the cursor one cluster further right,
/// or where it was when it already stands at the end of the input.
pub proof fn law_append_moves_right(a: ChatApp, k: KeyEvent, b: ChatApp, r: KeyAction)
    requires
        k.code == KeyCode::Char('a'),
        normal_step(a, k, b, r),
        a.ui.cursor_position < usize::MAX,
    ensures
        r == KeyAction::Nothing,
        b.ui@.input_mode == InputMode::Insert,
        b.ui@.input == a.ui@.input,
        a.ui@.cursor_position < clusters(a.ui@.input) ==> b.ui@.cursor_position == a.ui@.cursor_position + 1,
        a.ui@.cursor_position >= clusters(a.ui@.input) ==> b.ui@.cursor_position == a.ui@.cursor_position,
{
}

/// What the editing keys of normal mode do to the input, the cursor and the
/// mode: `i` inserts at the cursor, `I` at the start and `A` at the end;
/// `o` and `O` open a new line after or before the input; `h` and `l` move
/// one cluster within the input; `v` starts a selection at the cursor; `q`
/// quits and Enter on a typed message sends it, both changing nothing; none
/// of these keys touches the messages, the sessions or the buffer.
pub proof fn law_normal_keys(a: ChatApp, k: KeyEvent, b: ChatApp, r: KeyAction)
    requires
        normal_step(a, k, b, r),
        !k.control,
        a.ui.cursor_position < usize::MAX,
    ensures
        k.code == KeyCode::Char('i') ==> r == KeyAction::Nothing && b.ui@.input_mode == InputMode::Insert
            && b.ui@.input == a.ui@.input && b.ui@.cursor_position == a.ui@.cursor_position,
        k.code == KeyCode::Char('I') ==> b.ui@.input_mode == InputMode::Insert && b.ui@.input == a.ui@.input
            && b.ui@.cursor_position == 0,
        k.code == KeyCode::Char('A') ==> b.ui@.input_mode == InputMode::Insert && b.ui@.input == a.ui@.input
            && b.ui@.cursor_position == clusters(a.ui@.input),
        k.code == KeyCode::Char('o') ==> b.ui@.input_mode == InputMode::Insert && b.ui@.input == a.ui@.input.push(
            '\n',
        ) && b.ui@.cursor_position == clusters(b.ui@.input),
        k.code == KeyCode::Char('O') ==> b.ui@.input_mode == InputMode::Insert && b.ui@.input == seq!['\n']
            + a.ui@.input && b.ui@.cursor_position == 0,
        (k.code == KeyCode::Char('h') || k.code == KeyCode::Left) ==> b.ui@.input == a.ui@.input
            && b.ui@.input_mode == a.ui@.input_mode && b.ui@.cursor_position == (if a.ui@.cursor_position > 0 {
            a.ui@.cursor_position - 1
        } else {
            0
        }),
        (k.code == KeyCode::Char('l') || k.code == KeyCode::Right) ==> b.ui@.input == a.ui@.input
            && b.ui@.input_mode == a.ui@.input_mode && b.ui@.cursor_position == (if a.ui@.cursor_position < clusters(
            a.ui@.input,
        ) {
            a.ui@.cursor_position + 1
        } else {
            a.ui@.cursor_position as int
        }),
        k.code == KeyCode::Char('v') ==> b.ui@.input_mode == InputMode::Visual && b.ui@.visual_start == Some(
            a.ui@.cursor_position,
        ) && b.ui@.input == a.ui@.input,
        k.code == KeyCode::Char('q') ==> r == KeyAction::Quit && b == a,
        k.code == KeyCode::Enter && !blank(a.ui@.input) ==> r == KeyAction::Send && b == a,
        k.code != KeyCode::Char('n') ==> ChatApp::same_data(&b, &a),
{
}

/// What insert mode does with keys: Escape returns to normal mode with the
/// cursor one cluster left (as vi does); a plain Enter on a typed message
/// sends it and changes nothing; Shift+Enter, and a typed character while no
/// history entry is recalled, never sends, keeps the mode, inserts at the
/// cursor and moves the cursor one cluster right.
pub proof fn law_insert_keys(a: ChatApp, k: KeyEvent, b: ChatApp, r: KeyAction)
    requires
        insert_step(a, k, b, r),
        !k.control,
        a.ui.cursor_position < usize::MAX,
    ensures
        k.code == KeyCode::Esc ==> b.ui@.input_mode == InputMode::Normal && b.ui@.input == a.ui@.input
            && b.ui@.cursor_position == (if a.ui@.cursor_position > 0 {
            a.ui@.cursor_position - 1
        } else {
            0
        }),
        k.code == KeyCode::Enter && k.plain && !k.shift && !blank(a.ui@.input) ==> r == KeyAction::Send && b == a,
        k.code == KeyCode::Enter && k.shift ==> r == KeyAction::Nothing && b.ui@.input_mode == a.ui@.input_mode
            && b.ui@.cursor_position == a.ui@.cursor_position + 1 && b.ui@.input == insert_char_spec(
            a.ui@.input,
            a.ui@.cursor_position as int,
            '\n',
        ),
        a.ui@.history_index is None && k.code is Char ==> r == KeyAction::Nothing && b.ui@.input_mode
            == a.ui@.input_mode && b.ui@.cursor_position == a.ui@.cursor_position + 1,
        a.ui@.history_index is None ==> ((k.code matches KeyCode::Char(c) && b.ui@.input == insert_char_spec(
            a.ui@.input,
            a.ui@.cursor_position as int,
            c,
        )) || !(k.code is Char)),
        ChatApp::same_data(&b, &a),
{
}

/// What visual mode does with keys: Escape, `v` and `y` leave the
/// selection for normal mode with the input and cursor unchanged; `h` and
/// `l` move the cursor one cluster within the input, keeping the selection
/// anchor; `0` and `$` go to the start and the end of the input; `d` and `x`
/// leave the selection for normal mode. No key sends or quits, and none
/// touches the messages, the sessions or the buffer.
pub proof fn law_visual_keys(a: ChatApp, k: KeyEvent, b: ChatApp, r: KeyAction)
    requires
        visual_step(a, k, b, r),
        !k.control,
        a.ui.cursor_position < usize::MAX,
    ensures
        r == KeyAction::Nothing,
        ChatApp::same_data(&b, &a),
        (k.code == KeyCode::Esc || k.code == KeyCode::Char('v') || k.code == KeyCode::Char('y'))
            ==> b.ui@.input_mode == InputMode::Normal && b.ui@.visual_start is None && b.ui@.input == a.ui@.input
            && b.ui@.cursor_position == a.ui@.cursor_position,
        (k.code == KeyCode::Char('h') || k.code == KeyCode::Left) ==> b.ui@.visual_start == a.ui@.visual_start
            && b.ui@.input == a.ui@.input && b.ui@.cursor_position == (if a.ui@.cursor_position > 0 {
            a.ui@.cursor_position - 1
        } else {
            0
        }),
        (k.code == KeyCode::Char('l') || k.code == KeyCode::Right) ==> b.ui@.visual_start == a.ui@.visual_start
            && b.ui@.input == a.ui@.input && b.ui@.cursor_position == (if a.ui@.cursor_position < clusters(
            a.ui@.input,
        ) {
            a.ui@.cursor_position + 1
        } else {
            a.ui@.cursor_position as int
        }),
        k.code == KeyCode::Char('0') ==> b.ui@.cursor_position == 0 && b.ui@.input == a.ui@.input,
        k.code == KeyCode::Char('$') ==> b.ui@.cursor_position == clusters(a.ui@.input) && b.ui@.input == a.ui@.input,
        (k.code == KeyCode::Char('d') || k.code == KeyCode::Char('x')) ==> b.ui@.input_mode == InputMode::Normal
            && b.ui@.visual_start is None,
{
}

/// Moving left and then right returns the cursor to where it was.
pub proof fn law_left_right(u: UiView)
    requires
        0 < u.cursor_position <= clusters(u.input),
    ensures
        right_ui(left_ui(u)).cursor_position == u.cursor_position,
{
}

/// Messages buffered while a reply is awaited leave in the order they were
/// sent: buffering `m` behind `b` and releasing one gives the oldest.
pub proof fn law_buffer_fifo(b: Seq<String>, m: String)
    ensures
        b.push(m)[0] == (if b.len() > 0 {
            b[0]
        } else {
            m
        }),
        b.len() > 0 ==> b.push(m).drop_first() == b.drop_first().push(m),
{
    if b.len() > 0 {
        assert(b.push(m).drop_first() =~= b.drop_first().push(m));
    }
}

/// A session list selection stepped forward and back returns to where it
/// was (within the list).
pub proof fn law_session_step_roundtrip(s: usize, n: nat)
    requires
        0 < n <= usize::MAX,
        s < n,
    ensures
        stepped(Some(stepped(Some(s), n, true)), n, false) == s,
        stepped(Some(stepped(Some(s), n, false)), n, true) == s,
{
    assert((s as int) % (n as int) == s as int) by (nonlinear_arith)
        requires
            0 <= s < n,
    ;
    let f = stepped(Some(s), n, true);
    let b = stepped(Some(s), n, false);
    assert(0 <= f < n);
    assert(0 <= b < n);
    assert((f as int) % (n as int) == f as int) by (nonlinear_arith)
        requires
            0 <= f < n,
    ;
    assert((b as int) % (n as int) == b as int) by (nonlinear_arith)
        requires
            0 <= b < n,
    ;
}

} // verus!
