//! Core logic of a terminal chat client: the line editor, chat sessions,
//! task lists, file-access rules and the parsing of model responses.

pub mod text;
pub mod unicode;
pub mod stamp;
pub mod editor;
pub mod gemini;
pub mod history;
pub mod todo;
pub mod file_access;
pub mod todo_manager;
pub mod markdown;
pub mod chat_app;
