# contui

A terminal chat client for the Gemini API with a vi-like line editor,
multiple chat sessions, task lists, guarded file access and file creation
from model replies.

## Layout

- `src/` — the library, verified with Verus:
  - `text.rs`, `unicode.rs` — character and grapheme helpers;
  - `editor.rs` — cursor, word and selection arithmetic on the input;
  - `stamp.rs` — timestamps and UUID text;
  - `history.rs` — chat sessions, messages and the conversation context;
  - `gemini.rs` — request turns, function declarations, function-call
    planning, reply parsing (fenced blocks, the completion flag);
  - `todo.rs`, `todo_manager.rs` — task lists and a simple checklist;
  - `file_access.rs` — the allowed-directory guard and unique file names;
  - `markdown.rs` — text wrapping and Markdown styling;
  - `chat_app.rs` — the application state and its key, send, session,
    file-browser and model-loop transitions.
- `app/` — the executable around the library: terminal drawing, key
  reading, HTTP requests, the history file, file-system calls and commands.
- `tests/` — tests of the library on concrete values.

The library decides; the executable performs the I/O each decision asks for
(sending a request, saving the history, listing a directory) and hands the
outcome back.
