//! A plain checklist: a titled list of items that are done or not.

use vstd::prelude::*;
use crate::text::{chars_of, string_of, push_str_chars};

verus! {

/// One checklist item.
#[derive(Debug, Clone)]
pub struct TodoItem {
    pub title: String,
    pub completed: bool,
}

/// A titled checklist.
#[derive(Debug, Clone)]
pub struct TodoList {
    pub title: String,
    pub description: String,
    pub items: Vec<TodoItem>,
}

/// The current checklist and where it would be saved.
#[derive(Debug, Clone)]
pub struct TodoManager {
    pub current_list: Option<TodoList>,
    pub storage_path: String,
}

/// The line that shows one item: "- [x] title" or "- [ ] title".
pub open spec fn check_line(item: TodoItem) -> Seq<char> {
    "- ["@ + (if item.completed {
        "x"@
    } else {
        " "@
    }) + "] "@ + item.title@ + "\n"@
}

/// The lines of the items.
pub open spec fn check_lines(items: Seq<TodoItem>) -> Seq<char>
    decreases items.len(),
{
    if items.len() == 0 {
        Seq::empty()
    } else {
        check_lines(items.drop_last()) + check_line(items.last())
    }
}

impl TodoManager {
    /// A manager without a list, saving to "todo_state.json".
    pub fn new() -> (r: Result<Self, String>)
        ensures
            r matches Ok(m) && m.current_list is None && m.storage_path@ == "todo_state.json"@,
    {
        Ok(TodoManager { current_list: None, storage_path: crate::text::to_owned_string("todo_state.json") })
    }

    /// Starts a new, empty list.
    pub fn create_new_list(&mut self, title: String, description: String) -> (r: Result<(), String>)
        ensures
            r is Ok,
            final(self).current_list matches Some(l) && l.title@ == title@ && l.description@ == description@
                && l.items@.len() == 0,
            final(self).storage_path == old(self).storage_path,
    {
        self.current_list = Some(TodoList { title, description, items: Vec::new() });
        Ok(())
    }

    /// A new list is wanted when there is none.
    pub fn should_create_new_list(&self, _message: &str) -> (r: bool)
        ensures
            r == self.current_list is None,
    {
        self.current_list.is_none()
    }

    /// Replies change nothing in a checklist.
    pub fn update_from_ai_response(&mut self, _msg: &str) -> (r: Result<Vec<TodoItem>, String>)
        ensures
            r matches Ok(v) && v@.len() == 0,
            final(self).current_list == old(self).current_list,
            final(self).storage_path == old(self).storage_path,
    {
        Ok(Vec::new())
    }

    /// "title: description" and one line per item; empty without a list.
    pub fn get_context_for_llm(&self) -> (r: String)
        ensures
            r@ == match self.current_list {
                Some(l) => l.title@ + ": "@ + l.description@ + "\n"@ + check_lines(l.items@),
                None => Seq::empty(),
            },
    {
        match &self.current_list {
            Some(list) => {
                let mut ctx = chars_of(list.title.as_str());
                push_str_chars(&mut ctx, ": ");
                push_str_chars(&mut ctx, list.description.as_str());
                push_str_chars(&mut ctx, "\n");
                let ghost head = ctx@;
                let mut i: usize = 0;
                while i < list.items.len()
                    invariant
                        i <= list.items.len(),
                        ctx@ == head + check_lines(list.items@.take(i as int)),
                    decreases list.items.len() - i,
                {
                    assert(list.items@.take(i + 1).drop_last() =~= list.items@.take(i as int));
                    let item = &list.items[i];
                    let ghost before = ctx@;
                    push_str_chars(&mut ctx, "- [");
                    if item.completed {
                        push_str_chars(&mut ctx, "x");
                    } else {
                        push_str_chars(&mut ctx, " ");
                    }
                    push_str_chars(&mut ctx, "] ");
                    push_str_chars(&mut ctx, item.title.as_str());
                    push_str_chars(&mut ctx, "\n");
                    assert(ctx@ =~= before + check_line(list.items@[i as int]));
                    i = i + 1;
                }
                assert(list.items@.take(i as int) =~= list.items@);
                string_of(&ctx)
            },
            None => String::new(),
        }
    }

    /// Drops the list.
    pub fn clear_current_list(&mut self) -> (r: Result<(), String>)
        ensures
            r is Ok,
            final(self).current_list is None,
            final(self).storage_path == old(self).storage_path,
    {
        self.current_list = None;
        Ok(())
    }

    /// A checklist keeps nothing on disk: loading changes nothing.
    pub fn load(&mut self) -> (r: Result<(), String>)
        ensures
            r is Ok,
            final(self).current_list == old(self).current_list,
            final(self).storage_path == old(self).storage_path,
    {
        Ok(())
    }
}

} // verus!
