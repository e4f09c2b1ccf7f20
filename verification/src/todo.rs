//! Task lists: items with a status and dependencies, kept in an execution
//! order, and the rules that move them along as the model replies.

use vstd::prelude::*;
use crate::stamp::{Timestamp, now_utc, new_uuid, uuid_string, uuid_text};
use crate::text::{string_of, chars_of, push_str_chars, push_all, decimal_of, usize_to_string, contains_any, contains_any_seq, char_index_from, slice_chars, contains_chars, seq_contains, lowercase_of, to_lowercase, lines_chars, lines_of};

verus! {

/// Where a task stands.
#[derive(Debug, Clone, Copy, PartialEq, Eq, Structural)]
pub enum TodoStatus {
    Pending,
    InProgress,
    Completed,
    Failed,
}

/// The plain-value model of an optional string.
pub open spec fn opt_view(o: Option<String>) -> Option<Seq<char>> {
    match o {
        Some(s) => Some(s@),
        None => None,
    }
}

/// One task.
pub struct TodoItem {
    pub id: String,
    pub title: String,
    pub description: String,
    pub status: TodoStatus,
    pub created_at: Timestamp,
    pub updated_at: Timestamp,
    pub dependencies: Vec<String>,
    pub tool_execution_result: Option<String>,
    pub error_message: Option<String>,
}

/// The plain-value model of a task.
#[verifier::ext_equal]
pub struct ItemView {
    pub id: Seq<char>,
    pub title: Seq<char>,
    pub description: Seq<char>,
    pub status: TodoStatus,
    pub created_at: Timestamp,
    pub updated_at: Timestamp,
    pub dependencies: Seq<Seq<char>>,
    pub tool_execution_result: Option<Seq<char>>,
    pub error_message: Option<Seq<char>>,
}

impl View for TodoItem {
    type V = ItemView;

    open spec fn view(&self) -> ItemView {
        ItemView {
            id: self.id@,
            title: self.title@,
            description: self.description@,
            status: self.status,
            created_at: self.created_at,
            updated_at: self.updated_at,
            dependencies: self.dependencies.deep_view(),
            tool_execution_result: opt_view(self.tool_execution_result),
            error_message: opt_view(self.error_message),
        }
    }
}

/// A task is ready when it is pending and each task it depends on is among
/// the completed ones.
pub open spec fn item_ready(item: ItemView, completed: Seq<Seq<char>>) -> bool {
    item.status == TodoStatus::Pending && forall|d: int|
        0 <= d < item.dependencies.len() ==> completed.contains(#[trigger] item.dependencies[d])
}

/// Whether `s` is among `v`.
pub fn contains_string(v: &Vec<String>, s: &String) -> (r: bool)
    ensures
        r == v.deep_view().contains(s@),
{
    let mut i: usize = 0;
    while i < v.len()
        invariant
            i <= v.len(),
            forall|j: int| 0 <= j < i ==> v.deep_view()[j] != s@,
        decreases v.len() - i,
    {
        if v[i] == *s {
            assert(v.deep_view()[i as int] == s@);
            return true;
        }
        i = i + 1;
    }
    false
}

impl TodoItem {
    /// A new pending task, identified by a random UUID, with no dependencies.
    pub fn new(title: String, description: String) -> (r: Self)
        ensures
            r@.title == title@,
            r@.description == description@,
            r@.status == TodoStatus::Pending,
            r@.created_at == r@.updated_at,
            r@.dependencies.len() == 0,
            r@.tool_execution_result is None,
            r@.error_message is None,
            (exists|u: u128| r@.id == uuid_text(u)),
    {
        let u = new_uuid();
        let now = now_utc();
        let r = TodoItem {
            id: uuid_string(u),
            title,
            description,
            status: TodoStatus::Pending,
            created_at: now,
            updated_at: now,
            dependencies: Vec::new(),
            tool_execution_result: None,
            error_message: None,
        };
        assert(r@.dependencies =~= Seq::<Seq<char>>::empty());
        r
    }

    /// Sets the status and stamps the update time.
    pub fn update_status(&mut self, status: TodoStatus)
        ensures
            final(self)@ == (ItemView { status, updated_at: final(self)@.updated_at, ..old(self)@ }),
    {
        self.status = status;
        self.updated_at = now_utc();
    }

    /// Sets the execution result of the item.
    pub fn set_tool_result(&mut self, result: String)
        ensures
            final(self)@ == (ItemView {
                tool_execution_result: Some(result@),
                updated_at: final(self)@.updated_at,
                ..old(self)@
            }),
    {
        self.tool_execution_result = Some(result);
        self.updated_at = now_utc();
    }

    /// Records an error; the task has failed.
    pub fn set_error(&mut self, error: String)
        ensures
            final(self)@ == (ItemView {
                error_message: Some(error@),
                status: TodoStatus::Failed,
                updated_at: final(self)@.updated_at,
                ..old(self)@
            }),
    {
        self.error_message = Some(error);
        self.status = TodoStatus::Failed;
        self.updated_at = now_utc();
    }

    /// Whether the task is pending and all its dependencies are completed.
    pub fn is_ready_to_execute(&self, completed_ids: &Vec<String>) -> (r: bool)
        ensures
            r == item_ready(self@, completed_ids.deep_view()),
    {
        if self.status != TodoStatus::Pending {
            return false;
        }
        let mut i: usize = 0;
        while i < self.dependencies.len()
            invariant
                i <= self.dependencies.len(),
                forall|d: int|
                    0 <= d < i ==> completed_ids.deep_view().contains(
                        #[trigger] self.dependencies.deep_view()[d],
                    ),
            decreases self.dependencies.len() - i,
        {
            if !contains_string(completed_ids, &self.dependencies[i]) {
                assert(self@.dependencies[i as int] == self.dependencies[i as int]@);
                assert(!completed_ids.deep_view().contains(self@.dependencies[i as int]));
                return false;
            }
            i = i + 1;
        }
        true
    }
}

/// No two tasks share an identifier.
pub open spec fn item_ids_distinct(items: Seq<TodoItem>) -> bool {
    forall|i: int, j: int|
        0 <= i < items.len() && 0 <= j < items.len() && i != j ==> items[i].id@ != items[j].id@
}

/// Some task has identifier `id`.
pub open spec fn has_item(items: Seq<TodoItem>, id: Seq<char>) -> bool {
    exists|i: int| 0 <= i < items.len() && items[i].id@ == id
}

/// The position of the task with identifier `id`.
pub open spec fn item_pos(items: Seq<TodoItem>, id: Seq<char>) -> int {
    choose|i: int| 0 <= i < items.len() && items[i].id@ == id
}

/// The tasks as a map from identifier to task.
pub open spec fn item_map(items: Seq<TodoItem>) -> Map<Seq<char>, ItemView> {
    Map::new(|id: Seq<char>| has_item(items, id), |id: Seq<char>| items[item_pos(items, id)]@)
}

proof fn lemma_item_pos(items: Seq<TodoItem>, i: int)
    requires
        item_ids_distinct(items),
        0 <= i < items.len(),
    ensures
        has_item(items, items[i].id@),
        item_pos(items, items[i].id@) == i,
{
    let id = items[i].id@;
    assert(has_item(items, id));
    let j = item_pos(items, id);
    assert(0 <= j < items.len() && items[j].id@ == id);
}

proof fn lemma_item_map_push(items: Seq<TodoItem>, s: TodoItem)
    requires
        item_ids_distinct(items),
        !has_item(items, s.id@),
    ensures
        item_ids_distinct(items.push(s)),
        item_map(items.push(s)) == item_map(items).insert(s.id@, s@),
{
    let t = items.push(s);
    assert forall|i: int, j: int| 0 <= i < t.len() && 0 <= j < t.len() && i != j implies t[i].id@
        != t[j].id@ by {
        if i < items.len() && j < items.len() {
            assert(t[i] == items[i] && t[j] == items[j]);
        } else if i < items.len() {
            assert(t[i] == items[i]);
        } else {
            assert(t[j] == items[j]);
        }
    }
    assert forall|id: Seq<char>| #[trigger] has_item(t, id) == (has_item(items, id) || id == s.id@) by {
        if has_item(items, id) {
            let k = choose|k: int| 0 <= k < items.len() && items[k].id@ == id;
            assert(t[k] == items[k]);
        }
        if id == s.id@ {
            assert(t[items.len() as int] == s);
        }
        if has_item(t, id) && id != s.id@ {
            let k = choose|k: int| 0 <= k < t.len() && t[k].id@ == id;
            assert(k < items.len());
            assert(items[k] == t[k]);
        }
    }
    assert forall|id: Seq<char>| has_item(t, id) implies t[item_pos(t, id)]@ == (if id == s.id@ {
        s@
    } else {
        items[item_pos(items, id)]@
    }) by {
        if id == s.id@ {
            lemma_item_pos(t, items.len() as int);
        } else {
            let k = item_pos(items, id);
            assert(has_item(items, id));
            lemma_item_pos(items, k);
            assert(t[k] == items[k]);
            lemma_item_pos(t, k);
        }
    }
    assert(item_map(t) =~= item_map(items).insert(s.id@, s@));
}

proof fn lemma_item_map_update(items: Seq<TodoItem>, i: int, s: TodoItem)
    requires
        item_ids_distinct(items),
        0 <= i < items.len(),
        items[i].id@ == s.id@,
    ensures
        item_ids_distinct(items.update(i, s)),
        item_map(items.update(i, s)) == item_map(items).insert(s.id@, s@),
{
    let t = items.update(i, s);
    assert forall|a: int, b: int| 0 <= a < t.len() && 0 <= b < t.len() && a != b implies t[a].id@
        != t[b].id@ by {
        assert(t[a].id@ == items[a].id@ && t[b].id@ == items[b].id@);
    }
    assert forall|id: Seq<char>| #[trigger] has_item(t, id) == has_item(items, id) by {
        if has_item(items, id) {
            let k = choose|k: int| 0 <= k < items.len() && items[k].id@ == id;
            assert(t[k].id@ == items[k].id@);
        }
        if has_item(t, id) {
            let k = choose|k: int| 0 <= k < t.len() && t[k].id@ == id;
            assert(t[k].id@ == items[k].id@);
        }
    }
    lemma_item_pos(items, i);
    assert forall|id: Seq<char>| has_item(t, id) implies t[item_pos(t, id)]@ == (if id == s.id@ {
        s@
    } else {
        items[item_pos(items, id)]@
    }) by {
        let k = item_pos(items, id);
        lemma_item_pos(items, k);
        assert(t[k].id@ == items[k].id@);
        lemma_item_pos(t, k);
    }
    assert(item_map(t) =~= item_map(items).insert(s.id@, s@));
}

/// An ordered task list.
pub struct TodoList {
    pub id: String,
    pub title: String,
    pub description: String,
    pub items: Vec<TodoItem>,
    pub order: Vec<String>,
    pub created_at: Timestamp,
    pub updated_at: Timestamp,
    pub is_active: bool,
}

/// The tasks of a list in storage order.
pub open spec fn item_values(items: Seq<TodoItem>) -> Seq<ItemView> {
    items.map_values(|i: TodoItem| i@)
}

/// How many of `vals` have status `st`.
pub open spec fn count_status(vals: Seq<ItemView>, st: TodoStatus) -> nat
    decreases vals.len(),
{
    if vals.len() == 0 {
        0
    } else {
        count_status(vals.drop_last(), st) + (if vals.last().status == st {
            1nat
        } else {
            0nat
        })
    }
}

/// The identifiers of the completed tasks among `vals`, in order.
pub open spec fn completed_ids(vals: Seq<ItemView>) -> Seq<Seq<char>>
    decreases vals.len(),
{
    if vals.len() == 0 {
        Seq::empty()
    } else if vals.last().status == TodoStatus::Completed {
        completed_ids(vals.drop_last()).push(vals.last().id)
    } else {
        completed_ids(vals.drop_last())
    }
}

/// The first position from `k` on in `order` whose task exists and is ready.
pub open spec fn first_ready_from(
    order: Seq<Seq<char>>,
    m: Map<Seq<char>, ItemView>,
    completed: Seq<Seq<char>>,
    k: int,
) -> Option<int>
    decreases order.len() - k,
{
    if k < 0 || k >= order.len() {
        None
    } else if m.contains_key(order[k]) && item_ready(m[order[k]], completed) {
        Some(k)
    } else {
        first_ready_from(order, m, completed, k + 1)
    }
}

/// The progress line of a list.
pub open spec fn progress_text(total: nat, completed: nat, in_progress: nat, failed: nat) -> Seq<char> {
    "進捗: "@ + decimal_of(completed) + "/"@ + decimal_of(total) + " 完了, "@ + decimal_of(in_progress)
        + " 進行中, "@ + decimal_of(failed) + " 失敗"@
}

/// The status mark shown before a task.
pub open spec fn status_icon(st: TodoStatus) -> Seq<char> {
    match st {
        TodoStatus::Pending => "⭕"@,
        TodoStatus::InProgress => "🔄"@,
        TodoStatus::Completed => "✅"@,
        TodoStatus::Failed => "❌"@,
    }
}

fn push_status_icon(out: &mut Vec<char>, st: TodoStatus)
    ensures
        final(out)@ == old(out)@ + status_icon(st),
{
    match st {
        TodoStatus::Pending => push_str_chars(out, "⭕"),
        TodoStatus::InProgress => push_str_chars(out, "🔄"),
        TodoStatus::Completed => push_str_chars(out, "✅"),
        TodoStatus::Failed => push_str_chars(out, "❌"),
    }
}

/// The lines that show one task.
pub open spec fn item_display(item: ItemView) -> Seq<char> {
    status_icon(item.status) + " "@ + item.title + "\n"@ + (if item.description.len() > 0 {
        "   "@ + item.description + "\n"@
    } else {
        Seq::empty()
    }) + match item.error_message {
        Some(e) => "   ❌ エラー: "@ + e + "\n"@,
        None => Seq::empty(),
    }
}

/// The lines that show the tasks named by `order` that exist.
pub open spec fn items_display(order: Seq<Seq<char>>, m: Map<Seq<char>, ItemView>) -> Seq<char>
    decreases order.len(),
{
    if order.len() == 0 {
        Seq::empty()
    } else {
        items_display(order.drop_last(), m) + if m.contains_key(order.last()) {
            item_display(m[order.last()])
        } else {
            Seq::empty()
        }
    }
}

/// Errors of task-list operations.
#[derive(Debug, Clone, Copy, PartialEq, Eq, Structural)]
pub enum TodoError {
    /// No task has the identifier.
    ItemNotFound,
    /// There is no current task list.
    NoActiveList,
    /// The failed task is not in the execution order.
    NotInOrder,
}

impl TodoList {
    /// Task identifiers are unique.
    pub open spec fn wf(&self) -> bool {
        item_ids_distinct(self.items@)
    }

    /// The tasks by identifier.
    pub open spec fn map(&self) -> Map<Seq<char>, ItemView> {
        item_map(self.items@)
    }

    /// The execution order, as identifiers.
    pub open spec fn order_view(&self) -> Seq<Seq<char>> {
        self.order.deep_view()
    }

    /// A new active list without tasks.
    pub fn new(title: String, description: String) -> (r: Self)
        ensures
            r.wf(),
            r.map() == Map::<Seq<char>, ItemView>::empty(),
            r.order_view().len() == 0,
            r.title@ == title@,
            r.description@ == description@,
            r.is_active,
            r.created_at == r.updated_at,
            (exists|u: u128| r.id@ == uuid_text(u)),
    {
        let u = new_uuid();
        let now = now_utc();
        let r = TodoList {
            id: uuid_string(u),
            title,
            description,
            items: Vec::new(),
            order: Vec::new(),
            created_at: now,
            updated_at: now,
            is_active: true,
        };
        assert(r.map() =~= Map::<Seq<char>, ItemView>::empty());
        assert(r.order_view() =~= Seq::<Seq<char>>::empty());
        r
    }

    /// The position of the task with identifier `id`.
    pub fn find_item(&self, id: &str) -> (r: Option<usize>)
        ensures
            match r {
                Some(i) => i < self.items@.len() && self.items@[i as int].id@ == id@,
                None => !has_item(self.items@, id@),
            },
    {
        let mut i: usize = 0;
        while i < self.items.len()
            invariant
                i <= self.items.len(),
                forall|k: int| 0 <= k < i ==> self.items@[k].id@ != id@,
            decreases self.items.len() - i,
        {
            if crate::text::str_eq(self.items[i].id.as_str(), id) {
                return Some(i);
            }
            i = i + 1;
        }
        None
    }

    fn put_item(&mut self, item: TodoItem)
        requires
            old(self).wf(),
        ensures
            final(self).wf(),
            final(self).map() == old(self).map().insert(item.id@, item@),
            final(self).order == old(self).order,
            final(self).id == old(self).id,
            final(self).title == old(self).title,
            final(self).description == old(self).description,
            final(self).created_at == old(self).created_at,
            final(self).updated_at == old(self).updated_at,
            final(self).is_active == old(self).is_active,
    {
        let ghost before = self.items@;
        let ghost iv = item;
        match self.find_item(item.id.as_str()) {
            Some(i) => {
                self.items.remove(i);
                self.items.insert(i, item);
                proof {
                    assert(self.items@ =~= before.update(i as int, iv));
                    lemma_item_map_update(before, i as int, iv);
                }
            },
            None => {
                self.items.push(item);
                proof {
                    lemma_item_map_push(before, iv);
                }
            },
        }
    }

    /// Adds a task at the end of the execution order.
    pub fn add_item(&mut self, item: TodoItem)
        requires
            old(self).wf(),
        ensures
            final(self).wf(),
            final(self).map() == old(self).map().insert(item@.id, item@),
            final(self).order_view() == old(self).order_view().push(item@.id),
            final(self).title == old(self).title,
            final(self).description == old(self).description,
            final(self).id == old(self).id,
            final(self).is_active == old(self).is_active,
    {
        let item_id = item.id.clone();
        self.put_item(item);
        let ghost before = self.order.deep_view();
        self.order.push(item_id);
        assert(self.order.deep_view() =~= before.push(item_id@));
        self.updated_at = now_utc();
    }

    /// Takes the task at position `i` out of the list; `restore_item` puts
    /// the updated task back.
    fn take_item(&mut self, i: usize) -> (r: TodoItem)
        requires
            old(self).wf(),
            i < old(self).items@.len(),
        ensures
            r == old(self).items@[i as int],
            final(self).items@ == old(self).items@.remove(i as int),
            final(self).order == old(self).order,
            final(self).id == old(self).id,
            final(self).title == old(self).title,
            final(self).description == old(self).description,
            final(self).created_at == old(self).created_at,
            final(self).updated_at == old(self).updated_at,
            final(self).is_active == old(self).is_active,
    {
        self.items.remove(i)
    }

    /// Puts an updated task back where `take_item` took it from.
    fn restore_item(&mut self, i: usize, item: TodoItem, Ghost(before): Ghost<Seq<TodoItem>>)
        requires
            item_ids_distinct(before),
            i < before.len(),
            before[i as int].id@ == item.id@,
            old(self).items@ == before.remove(i as int),
        ensures
            final(self).wf(),
            final(self).map() == item_map(before).insert(item@.id, item@),
            final(self).order == old(self).order,
            final(self).id == old(self).id,
            final(self).title == old(self).title,
            final(self).description == old(self).description,
            final(self).created_at == old(self).created_at,
            final(self).updated_at == old(self).updated_at,
            final(self).is_active == old(self).is_active,
    {
        let ghost iv = item;
        self.items.insert(i, item);
        proof {
            assert(self.items@ =~= before.update(i as int, iv));
            lemma_item_map_update(before, i as int, iv);
        }
    }

    /// The tasks in storage order.
    pub open spec fn values(&self) -> Seq<ItemView> {
        item_values(self.items@)
    }

    /// The task that should run next: the first in the execution order that
    /// exists, is pending and whose dependencies are all completed.
    pub open spec fn next_ready(&self) -> Option<ItemView> {
        match first_ready_from(self.order_view(), self.map(), completed_ids(self.values()), 0) {
            Some(k) => Some(self.map()[self.order_view()[k]]),
            None => None,
        }
    }

    /// The progress line of this list.
    pub open spec fn progress(&self) -> Seq<char> {
        progress_text(
            self.values().len(),
            count_status(self.values(), TodoStatus::Completed),
            count_status(self.values(), TodoStatus::InProgress),
            count_status(self.values(), TodoStatus::Failed),
        )
    }

    fn count(&self, st: TodoStatus) -> (r: usize)
        ensures
            r == count_status(self.values(), st),
    {
        let mut c: usize = 0;
        let mut i: usize = 0;
        while i < self.items.len()
            invariant
                i <= self.items.len(),
                c == count_status(self.values().take(i as int), st),
                c <= i,
            decreases self.items.len() - i,
        {
            assert(self.values().take(i + 1).drop_last() =~= self.values().take(i as int));
            if self.items[i].status == st {
                c = c + 1;
            }
            i = i + 1;
        }
        assert(self.values().take(i as int) =~= self.values());
        c
    }

    fn completed_id_list(&self) -> (r: Vec<String>)
        ensures
            r.deep_view() == completed_ids(self.values()),
    {
        let mut r: Vec<String> = Vec::new();
        let mut i: usize = 0;
        while i < self.items.len()
            invariant
                i <= self.items.len(),
                r.deep_view() == completed_ids(self.values().take(i as int)),
            decreases self.items.len() - i,
        {
            assert(self.values().take(i + 1).drop_last() =~= self.values().take(i as int));
            if self.items[i].status == TodoStatus::Completed {
                let ghost before = r.deep_view();
                r.push(self.items[i].id.clone());
                assert(r.deep_view() =~= before.push(self.items[i as int].id@));
            }
            i = i + 1;
        }
        assert(self.values().take(i as int) =~= self.values());
        r
    }

    /// Whether every task has completed or failed.
    pub fn is_completed(&self) -> (r: bool)
        ensures
            r == forall|i: int|
                0 <= i < self.values().len() ==> (#[trigger] self.values()[i]).status
                    == TodoStatus::Completed || self.values()[i].status == TodoStatus::Failed,
    {
        let mut i: usize = 0;
        while i < self.items.len()
            invariant
                i <= self.items.len(),
                forall|j: int|
                    0 <= j < i ==> (#[trigger] self.values()[j]).status == TodoStatus::Completed
                        || self.values()[j].status == TodoStatus::Failed,
            decreases self.items.len() - i,
        {
            let st = self.items[i].status;
            if !(st == TodoStatus::Completed || st == TodoStatus::Failed) {
                assert(self.values()[i as int].status == st);
                return false;
            }
            i = i + 1;
        }
        true
    }

    /// "進捗: c/t 完了, p 進行中, f 失敗".
    pub fn get_progress_summary(&self) -> (r: String)
        ensures
            r@ == self.progress(),
    {
        let total = self.items.len();
        let completed = self.count(TodoStatus::Completed);
        let in_progress = self.count(TodoStatus::InProgress);
        let failed = self.count(TodoStatus::Failed);
        let mut out = chars_of("進捗: ");
        push_str_chars(&mut out, usize_to_string(completed).as_str());
        push_str_chars(&mut out, "/");
        push_str_chars(&mut out, usize_to_string(total).as_str());
        push_str_chars(&mut out, " 完了, ");
        push_str_chars(&mut out, usize_to_string(in_progress).as_str());
        push_str_chars(&mut out, " 進行中, ");
        push_str_chars(&mut out, usize_to_string(failed).as_str());
        push_str_chars(&mut out, " 失敗");
        string_of(&out)
    }

    /// The task that should run next.
    pub fn get_next_pending_item(&self) -> (r: Option<&TodoItem>)
        requires
            self.wf(),
        ensures
            match r {
                Some(item) => self.next_ready() == Some(item@),
                None => self.next_ready() is None,
            },
    {
        let completed = self.completed_id_list();
        let mut k: usize = 0;
        while k < self.order.len()
            invariant
                k <= self.order.len(),
                self.wf(),
                completed.deep_view() == completed_ids(self.values()),
                first_ready_from(self.order_view(), self.map(), completed_ids(self.values()), 0)
                    == first_ready_from(
                    self.order_view(),
                    self.map(),
                    completed_ids(self.values()),
                    k as int,
                ),
            decreases self.order.len() - k,
        {
            match self.find_item(self.order[k].as_str()) {
                Some(i) => {
                    proof {
                        lemma_item_pos(self.items@, i as int);
                    }
                    if self.items[i].is_ready_to_execute(&completed) {
                        return Some(&self.items[i]);
                    }
                },
                None => {},
            }
            k = k + 1;
        }
        None
    }

    /// "現在のステップ: title\n詳細: description" for the next task.
    pub fn get_current_step_description(&self) -> (r: Option<String>)
        requires
            self.wf(),
        ensures
            match self.next_ready() {
                Some(item) => r matches Some(s) && s@ == "現在のステップ: "@ + item.title
                    + "\n詳細: "@ + item.description,
                None => r is None,
            },
    {
        match self.get_next_pending_item() {
            Some(item) => {
                let mut out = chars_of("現在のステップ: ");
                push_str_chars(&mut out, item.title.as_str());
                push_str_chars(&mut out, "\n詳細: ");
                push_str_chars(&mut out, item.description.as_str());
                Some(string_of(&out))
            },
            None => None,
        }
    }

    fn push_items_display(&self, out: &mut Vec<char>)
        requires
            self.wf(),
        ensures
            final(out)@ == old(out)@ + items_display(self.order_view(), self.map()),
    {
        let mut k: usize = 0;
        let ghost start = out@;
        while k < self.order.len()
            invariant
                k <= self.order.len(),
                self.wf(),
                out@ == start + items_display(self.order_view().take(k as int), self.map()),
            decreases self.order.len() - k,
        {
            assert(self.order_view().take(k + 1).drop_last() =~= self.order_view().take(k as int));
            assert(self.order_view().take(k + 1).last() == self.order[k as int]@);
            match self.find_item(self.order[k].as_str()) {
                Some(i) => {
                    proof {
                        lemma_item_pos(self.items@, i as int);
                    }
                    let item = &self.items[i];
                    let ghost o = out@;
                    push_status_icon(out, item.status);
                    push_str_chars(out, " ");
                    push_str_chars(out, item.title.as_str());
                    push_str_chars(out, "\n");
                    if item.description.as_str().unicode_len() > 0 {
                        push_str_chars(out, "   ");
                        push_str_chars(out, item.description.as_str());
                        push_str_chars(out, "\n");
                    }
                    match &item.error_message {
                        Some(e) => {
                            push_str_chars(out, "   ❌ エラー: ");
                            push_str_chars(out, e.as_str());
                            push_str_chars(out, "\n");
                        },
                        None => {},
                    }
                    assert(out@ =~= o + item_display(item@));
                },
                None => {},
            }
            k = k + 1;
        }
        assert(self.order_view().take(k as int) =~= self.order_view());
    }

    /// The list shown to the user: title, description, progress, then one
    /// entry per task in execution order.
    pub fn get_display_text(&self) -> (r: String)
        requires
            self.wf(),
        ensures
            r@ == "📋 "@ + self.title@ + "\n"@ + self.description@ + "\n\n"@ + self.progress() + "\n\n"@
                + items_display(self.order_view(), self.map()),
    {
        let mut out = chars_of("📋 ");
        push_str_chars(&mut out, self.title.as_str());
        push_str_chars(&mut out, "\n");
        push_str_chars(&mut out, self.description.as_str());
        push_str_chars(&mut out, "\n\n");
        let summary = self.get_progress_summary();
        push_str_chars(&mut out, summary.as_str());
        push_str_chars(&mut out, "\n\n");
        self.push_items_display(&mut out);
        string_of(&out)
    }

    /// Sets the status of task `item_id`.
    pub fn update_item_status(&mut self, item_id: &str, status: TodoStatus) -> (r: Result<(), TodoError>)
        requires
            old(self).wf(),
        ensures
            final(self).wf(),
            final(self).order == old(self).order,
            final(self).title == old(self).title,
            final(self).description == old(self).description,
            final(self).id == old(self).id,
            final(self).is_active == old(self).is_active,
            if old(self).map().contains_key(item_id@) {
                &&& r is Ok
                &&& final(self).map() == old(self).map().insert(
                    item_id@,
                    ItemView {
                        status,
                        updated_at: final(self).map()[item_id@].updated_at,
                        ..old(self).map()[item_id@]
                    },
                )
            } else {
                r == Err::<(), TodoError>(TodoError::ItemNotFound) && final(self).map() == old(self).map()
            },
    {
        match self.find_item(item_id) {
            Some(i) => {
                let ghost before = self.items@;
                proof {
                    lemma_item_pos(before, i as int);
                }
                let mut item = self.take_item(i);
                item.update_status(status);
                self.restore_item(i, item, Ghost(before));
                self.updated_at = now_utc();
                Ok(())
            },
            None => Err(TodoError::ItemNotFound),
        }
    }

    /// Records the execution result of task `item_id`.
    pub fn set_item_tool_result(&mut self, item_id: &str, result: String) -> (r: Result<(), TodoError>)
        requires
            old(self).wf(),
        ensures
            final(self).wf(),
            final(self).order == old(self).order,
            final(self).title == old(self).title,
            final(self).description == old(self).description,
            final(self).id == old(self).id,
            final(self).is_active == old(self).is_active,
            if old(self).map().contains_key(item_id@) {
                &&& r is Ok
                &&& final(self).map() == old(self).map().insert(
                    item_id@,
                    ItemView {
                        tool_execution_result: Some(result@),
                        updated_at: final(self).map()[item_id@].updated_at,
                        ..old(self).map()[item_id@]
                    },
                )
            } else {
                r == Err::<(), TodoError>(TodoError::ItemNotFound) && final(self).map() == old(self).map()
            },
    {
        match self.find_item(item_id) {
            Some(i) => {
                let ghost before = self.items@;
                proof {
                    lemma_item_pos(before, i as int);
                }
                let mut item = self.take_item(i);
                item.set_tool_result(result);
                self.restore_item(i, item, Ghost(before));
                self.updated_at = now_utc();
                Ok(())
            },
            None => Err(TodoError::ItemNotFound),
        }
    }

    /// Records an error for task `item_id`, which thereby fails.
    pub fn set_item_error(&mut self, item_id: &str, error: String) -> (r: Result<(), TodoError>)
        requires
            old(self).wf(),
        ensures
            final(self).wf(),
            final(self).order == old(self).order,
            final(self).title == old(self).title,
            final(self).description == old(self).description,
            final(self).id == old(self).id,
            final(self).is_active == old(self).is_active,
            if old(self).map().contains_key(item_id@) {
                &&& r is Ok
                &&& final(self).map() == old(self).map().insert(
                    item_id@,
                    ItemView {
                        error_message: Some(error@),
                        status: TodoStatus::Failed,
                        updated_at: final(self).map()[item_id@].updated_at,
                        ..old(self).map()[item_id@]
                    },
                )
            } else {
                r == Err::<(), TodoError>(TodoError::ItemNotFound) && final(self).map() == old(self).map()
            },
    {
        match self.find_item(item_id) {
            Some(i) => {
                let ghost before = self.items@;
                proof {
                    lemma_item_pos(before, i as int);
                }
                let mut item = self.take_item(i);
                item.set_error(error);
                self.restore_item(i, item, Ghost(before));
                self.updated_at = now_utc();
                Ok(())
            },
            None => Err(TodoError::ItemNotFound),
        }
    }
}


/// The kind of project a request describes.
#[derive(Debug, Clone, Copy, PartialEq, Eq, Structural)]
pub enum ProjectType {
    WebDevelopment,
    RustDevelopment,
    PythonDevelopment,
    DataAnalysis,
    MobileDevelopment,
    DevOps,
    FileOperation,
    Generic,
}

/// Words that mark a web request.
pub open spec fn web_keywords() -> Seq<Seq<char>> {
    seq!["web"@, "website"@, "html"@, "css"@, "javascript"@, "react"@, "vue"@, "angular"@, "サイト"@, "ウェブ"@, "フロントエンド"@, "バックエンド"@]
}

/// Words that mark a rust request.
pub open spec fn rust_keywords() -> Seq<Seq<char>> {
    seq!["rust"@, "cargo"@, "crate"@, ".rs"@, "rustc"@]
}

/// Words that mark a python request.
pub open spec fn python_keywords() -> Seq<Seq<char>> {
    seq!["python"@, ".py"@, "pip"@, "conda"@, "venv"@, "django"@, "flask"@, "fastapi"@]
}

/// Words that mark a data request.
pub open spec fn data_keywords() -> Seq<Seq<char>> {
    seq!["data"@, "analysis"@, "machine learning"@, "ai"@, "pandas"@, "numpy"@, "データ"@, "分析"@, "機械学習"@, "統計"@, "可視化"@]
}

/// Words that mark a mobile request.
pub open spec fn mobile_keywords() -> Seq<Seq<char>> {
    seq!["mobile"@, "android"@, "ios"@, "app"@, "flutter"@, "react native"@, "モバイル"@, "アプリ"@, "スマホ"@]
}

/// Words that mark a devops request.
pub open spec fn devops_keywords() -> Seq<Seq<char>> {
    seq!["deploy"@, "docker"@, "kubernetes"@, "ci/cd"@, "infrastructure"@, "server"@, "デプロイ"@, "インフラ"@, "サーバー"@, "監視"@, "運用"@]
}

/// Words that mark a file request.
pub open spec fn file_keywords() -> Seq<Seq<char>> {
    seq!["file"@, "ファイル"@, "csv"@, "json"@, "xml"@, "処理"@, "変換"@, "整理"@]
}

/// Words that suggest a new task list.
pub open spec fn new_list_keywords() -> Seq<Seq<char>> {
    seq!["新しい"@, "別の"@, "今度は"@, "次に"@, "create"@, "make"@, "build"@, "implement"@, "develop"@, "design"@, "プロジェクト"@, "アプリ"@, "システム"@, "ツール"@, "ライブラリ"@, "サービス"@, "website"@, "app"@, "system"@, "tool"@]
}

/// Error texts that the assistant can usually correct by itself.
pub open spec fn auto_correctable_patterns() -> Seq<Seq<char>> {
    seq!["file not found"@, "ファイルが見つかりません"@, "syntax error"@, "構文エラー"@, "import error"@, "module not found"@, "permission denied"@]
}

/// The project type that a (lower-cased) description names: the first kind
/// in a fixed order whose words occur in it.
pub open spec fn project_type_of(d: Seq<char>) -> ProjectType {
    if contains_any_seq(d, web_keywords()) {
        ProjectType::WebDevelopment
    } else if contains_any_seq(d, rust_keywords()) {
        ProjectType::RustDevelopment
    } else if contains_any_seq(d, python_keywords()) {
        ProjectType::PythonDevelopment
    } else if contains_any_seq(d, data_keywords()) {
        ProjectType::DataAnalysis
    } else if contains_any_seq(d, mobile_keywords()) {
        ProjectType::MobileDevelopment
    } else if contains_any_seq(d, devops_keywords()) {
        ProjectType::DevOps
    } else if contains_any_seq(d, file_keywords()) {
        ProjectType::FileOperation
    } else {
        ProjectType::Generic
    }
}

/// The (title, description) of the five tasks planned for a project type.
pub open spec fn project_todos(pt: ProjectType) -> Seq<(Seq<char>, Seq<char>)> {
    match pt {
        ProjectType::WebDevelopment => seq![("プロジェクト設定"@, "開発環境とプロジェクト構造を設定"@), ("フロントエンド実装"@, "HTML/CSS/JavaScriptでUIを実装"@), ("バックエンド実装"@, "サーバーサイドロジックとAPI実装"@), ("データベース設計"@, "データモデルとスキーマを設計・実装"@), ("テスト・デプロイ"@, "動作確認とデプロイメント"@)],
        ProjectType::RustDevelopment => seq![("Cargoプロジェクト作成"@, "cargo newでプロジェクト初期化"@), ("依存関係設定"@, "Cargo.tomlに必要なcrateを追加"@), ("コア機能実装"@, "メインロジックとモジュール実装"@), ("エラーハンドリング"@, "Result型を使った適切なエラー処理"@), ("テスト作成"@, "単体テストと統合テストを作成"@)],
        ProjectType::PythonDevelopment => seq![("仮想環境作成"@, "venvまたはcondaで環境を分離"@), ("依存関係管理"@, "requirements.txtまたはpyproject.toml作成"@), ("メイン機能実装"@, "コア機能とモジュール実装"@), ("パッケージ化"@, "setup.pyまたはpyproject.tomlでパッケージ化"@), ("テスト・ドキュメント"@, "pytestでテスト、docstringでドキュメント"@)],
        ProjectType::DataAnalysis => seq![("データ収集"@, "必要なデータソースを特定・収集"@), ("データクリーニング"@, "欠損値処理と前処理"@), ("探索的データ分析"@, "データの傾向と特徴を分析"@), ("モデル構築"@, "機械学習モデルまたは統計モデル作成"@), ("結果可視化"@, "グラフとレポートで結果を可視化"@)],
        ProjectType::MobileDevelopment => seq![("開発環境設定"@, "IDE、SDK、エミュレータの設定"@), ("UI/UX設計"@, "画面設計とユーザーフロー作成"@), ("コア機能実装"@, "アプリのメイン機能を実装"@), ("API連携"@, "外部APIとの連携機能実装"@), ("テスト・リリース"@, "デバイステストとストア申請"@)],
        ProjectType::DevOps => seq![("インフラ設計"@, "サーバー構成とネットワーク設計"@), ("CI/CD構築"@, "自動ビルド・テスト・デプロイパイプライン"@), ("監視設定"@, "ログ収集とメトリクス監視"@), ("セキュリティ設定"@, "アクセス制御とセキュリティ対策"@), ("ドキュメント作成"@, "運用手順書と構成図作成"@)],
        ProjectType::FileOperation => seq![("ファイル分析"@, "対象ファイルの構造と内容を分析"@), ("処理ロジック実装"@, "ファイル操作の核となる処理を実装"@), ("エラーハンドリング"@, "ファイルアクセスエラーの適切な処理"@), ("バックアップ機能"@, "元ファイルの安全な保護機能"@), ("動作確認"@, "様々なファイルでの動作テスト"@)],
        ProjectType::Generic => seq![("要件分析"@, "ユーザーのリクエストを分析し、必要な作業を特定"@), ("設計・計画"@, "実装手順と必要なリソースを計画"@), ("実装"@, "計画に基づいて実際の実装を行う"@), ("テスト・検証"@, "実装結果をテストし、要件を満たしているか検証"@), ("最終調整"@, "細かい調整と最終確認"@)],
    }
}

/// The project type of a (lower-cased) description.
pub fn project_type(description: &str) -> (r: ProjectType)
    ensures
        r == project_type_of(description@),
{
    let d = chars_of(description);
    let web_words = ["web", "website", "html", "css", "javascript", "react", "vue", "angular", "サイト", "ウェブ", "フロントエンド", "バックエンド"];
    assert(web_words@.map_values(|p: &str| p@) =~= web_keywords());
    if contains_any(&d, &web_words) {
        return ProjectType::WebDevelopment;
    }
    let rust_words = ["rust", "cargo", "crate", ".rs", "rustc"];
    assert(rust_words@.map_values(|p: &str| p@) =~= rust_keywords());
    if contains_any(&d, &rust_words) {
        return ProjectType::RustDevelopment;
    }
    let python_words = ["python", ".py", "pip", "conda", "venv", "django", "flask", "fastapi"];
    assert(python_words@.map_values(|p: &str| p@) =~= python_keywords());
    if contains_any(&d, &python_words) {
        return ProjectType::PythonDevelopment;
    }
    let data_words = ["data", "analysis", "machine learning", "ai", "pandas", "numpy", "データ", "分析", "機械学習", "統計", "可視化"];
    assert(data_words@.map_values(|p: &str| p@) =~= data_keywords());
    if contains_any(&d, &data_words) {
        return ProjectType::DataAnalysis;
    }
    let mobile_words = ["mobile", "android", "ios", "app", "flutter", "react native", "モバイル", "アプリ", "スマホ"];
    assert(mobile_words@.map_values(|p: &str| p@) =~= mobile_keywords());
    if contains_any(&d, &mobile_words) {
        return ProjectType::MobileDevelopment;
    }
    let devops_words = ["deploy", "docker", "kubernetes", "ci/cd", "infrastructure", "server", "デプロイ", "インフラ", "サーバー", "監視", "運用"];
    assert(devops_words@.map_values(|p: &str| p@) =~= devops_keywords());
    if contains_any(&d, &devops_words) {
        return ProjectType::DevOps;
    }
    let file_words = ["file", "ファイル", "csv", "json", "xml", "処理", "変換", "整理"];
    assert(file_words@.map_values(|p: &str| p@) =~= file_keywords());
    if contains_any(&d, &file_words) {
        return ProjectType::FileOperation;
    }
    ProjectType::Generic
}

/// A task not yet started: pending, without dependencies, result or error.
pub open spec fn unstarted_item(v: ItemView) -> bool {
    &&& v.status == TodoStatus::Pending
    &&& v.dependencies.len() == 0
    &&& v.tool_execution_result is None
    &&& v.error_message is None
    &&& v.created_at == v.updated_at
}

/// The (title, description) of each task.
pub open spec fn item_texts(items: Seq<TodoItem>) -> Seq<(Seq<char>, Seq<char>)> {
    items.map_values(|t: TodoItem| (t.title@, t.description@))
}

fn push_new_item(v: &mut Vec<TodoItem>, title: &str, description: &str)
    ensures
        final(v)@ == old(v)@.push(final(v)@.last()),
        final(v)@.last().title@ == title@,
        final(v)@.last().description@ == description@,
        unstarted_item(final(v)@.last()@),
{
    let item = TodoItem::new(crate::text::to_owned_string(title), crate::text::to_owned_string(description));
    v.push(item);
}

/// The five planned tasks for the project that `pt` names.
pub fn project_todo_items(pt: ProjectType) -> (r: Vec<TodoItem>)
    ensures
        item_texts(r@) == project_todos(pt),
        forall|i: int| 0 <= i < r@.len() ==> unstarted_item(#[trigger] r@[i]@),
{
    let mut todos: Vec<TodoItem> = Vec::new();
    match pt {
        ProjectType::WebDevelopment => {
            push_new_item(&mut todos, "プロジェクト設定", "開発環境とプロジェクト構造を設定");
            push_new_item(&mut todos, "フロントエンド実装", "HTML/CSS/JavaScriptでUIを実装");
            push_new_item(&mut todos, "バックエンド実装", "サーバーサイドロジックとAPI実装");
            push_new_item(&mut todos, "データベース設計", "データモデルとスキーマを設計・実装");
            push_new_item(&mut todos, "テスト・デプロイ", "動作確認とデプロイメント");
        },
        ProjectType::RustDevelopment => {
            push_new_item(&mut todos, "Cargoプロジェクト作成", "cargo newでプロジェクト初期化");
            push_new_item(&mut todos, "依存関係設定", "Cargo.tomlに必要なcrateを追加");
            push_new_item(&mut todos, "コア機能実装", "メインロジックとモジュール実装");
            push_new_item(&mut todos, "エラーハンドリング", "Result型を使った適切なエラー処理");
            push_new_item(&mut todos, "テスト作成", "単体テストと統合テストを作成");
        },
        ProjectType::PythonDevelopment => {
            push_new_item(&mut todos, "仮想環境作成", "venvまたはcondaで環境を分離");
            push_new_item(&mut todos, "依存関係管理", "requirements.txtまたはpyproject.toml作成");
            push_new_item(&mut todos, "メイン機能実装", "コア機能とモジュール実装");
            push_new_item(&mut todos, "パッケージ化", "setup.pyまたはpyproject.tomlでパッケージ化");
            push_new_item(&mut todos, "テスト・ドキュメント", "pytestでテスト、docstringでドキュメント");
        },
        ProjectType::DataAnalysis => {
            push_new_item(&mut todos, "データ収集", "必要なデータソースを特定・収集");
            push_new_item(&mut todos, "データクリーニング", "欠損値処理と前処理");
            push_new_item(&mut todos, "探索的データ分析", "データの傾向と特徴を分析");
            push_new_item(&mut todos, "モデル構築", "機械学習モデルまたは統計モデル作成");
            push_new_item(&mut todos, "結果可視化", "グラフとレポートで結果を可視化");
        },
        ProjectType::MobileDevelopment => {
            push_new_item(&mut todos, "開発環境設定", "IDE、SDK、エミュレータの設定");
            push_new_item(&mut todos, "UI/UX設計", "画面設計とユーザーフロー作成");
            push_new_item(&mut todos, "コア機能実装", "アプリのメイン機能を実装");
            push_new_item(&mut todos, "API連携", "外部APIとの連携機能実装");
            push_new_item(&mut todos, "テスト・リリース", "デバイステストとストア申請");
        },
        ProjectType::DevOps => {
            push_new_item(&mut todos, "インフラ設計", "サーバー構成とネットワーク設計");
            push_new_item(&mut todos, "CI/CD構築", "自動ビルド・テスト・デプロイパイプライン");
            push_new_item(&mut todos, "監視設定", "ログ収集とメトリクス監視");
            push_new_item(&mut todos, "セキュリティ設定", "アクセス制御とセキュリティ対策");
            push_new_item(&mut todos, "ドキュメント作成", "運用手順書と構成図作成");
        },
        ProjectType::FileOperation => {
            push_new_item(&mut todos, "ファイル分析", "対象ファイルの構造と内容を分析");
            push_new_item(&mut todos, "処理ロジック実装", "ファイル操作の核となる処理を実装");
            push_new_item(&mut todos, "エラーハンドリング", "ファイルアクセスエラーの適切な処理");
            push_new_item(&mut todos, "バックアップ機能", "元ファイルの安全な保護機能");
            push_new_item(&mut todos, "動作確認", "様々なファイルでの動作テスト");
        },
        ProjectType::Generic => {
            push_new_item(&mut todos, "要件分析", "ユーザーのリクエストを分析し、必要な作業を特定");
            push_new_item(&mut todos, "設計・計画", "実装手順と必要なリソースを計画");
            push_new_item(&mut todos, "実装", "計画に基づいて実際の実装を行う");
            push_new_item(&mut todos, "テスト・検証", "実装結果をテストし、要件を満たしているか検証");
            push_new_item(&mut todos, "最終調整", "細かい調整と最終確認");
        },
    }
    assert(item_texts(todos@) =~= project_todos(pt));
    todos
}

} // verus!

verus! {

/// A task view with its time stamps cleared, for comparing states that
/// differ only in when they were touched.
pub open spec fn untimed(v: ItemView) -> ItemView {
    ItemView {
        created_at: Timestamp { secs: 0, nanos: 0 },
        updated_at: Timestamp { secs: 0, nanos: 0 },
        ..v
    }
}

/// A task map with all time stamps cleared.
pub open spec fn untimed_map(m: Map<Seq<char>, ItemView>) -> Map<Seq<char>, ItemView> {
    m.map_values(|v: ItemView| untimed(v))
}

/// `m` with task `id` given status `st`.
pub open spec fn with_status(m: Map<Seq<char>, ItemView>, id: Seq<char>, st: TodoStatus) -> Map<
    Seq<char>,
    ItemView,
> {
    if m.contains_key(id) {
        m.insert(id, ItemView { status: st, ..m[id] })
    } else {
        m
    }
}

/// `m` with the execution result of task `id` recorded.
pub open spec fn with_result(m: Map<Seq<char>, ItemView>, id: Seq<char>, r: Seq<char>) -> Map<
    Seq<char>,
    ItemView,
> {
    if m.contains_key(id) {
        m.insert(id, ItemView { tool_execution_result: Some(r), ..m[id] })
    } else {
        m
    }
}

/// `m` with task `id` failed with error `e`.
pub open spec fn with_error(m: Map<Seq<char>, ItemView>, id: Seq<char>, e: Seq<char>) -> Map<
    Seq<char>,
    ItemView,
> {
    if m.contains_key(id) {
        m.insert(id, ItemView { error_message: Some(e), status: TodoStatus::Failed, ..m[id] })
    } else {
        m
    }
}

/// `m` with each of `vs` inserted under its identifier, in order.
pub open spec fn insert_all(m: Map<Seq<char>, ItemView>, vs: Seq<ItemView>) -> Map<Seq<char>, ItemView>
    decreases vs.len(),
{
    if vs.len() == 0 {
        m
    } else {
        insert_all(m, vs.drop_last()).insert(vs.last().id, vs.last())
    }
}

/// The unstarted tasks with identifiers `ids` and the given texts (time stamps
/// cleared).
pub open spec fn planned(ids: Seq<Seq<char>>, texts: Seq<(Seq<char>, Seq<char>)>) -> Seq<ItemView> {
    Seq::new(
        ids.len(),
        |k: int|
            ItemView {
                id: ids[k],
                title: texts[k].0,
                description: texts[k].1,
                status: TodoStatus::Pending,
                created_at: Timestamp { secs: 0, nanos: 0 },
                updated_at: Timestamp { secs: 0, nanos: 0 },
                dependencies: Seq::empty(),
                tool_execution_result: None,
                error_message: None,
            },
    )
}

proof fn lemma_untimed_status(m: Map<Seq<char>, ItemView>, id: Seq<char>, st: TodoStatus, t: Timestamp)
    requires
        m.contains_key(id),
    ensures
        untimed_map(m.insert(id, ItemView { status: st, updated_at: t, ..m[id] })) == untimed_map(
            with_status(m, id, st),
        ),
{
    assert(untimed_map(m.insert(id, ItemView { status: st, updated_at: t, ..m[id] })) =~= untimed_map(
        with_status(m, id, st),
    ));
}

proof fn lemma_untimed_result(m: Map<Seq<char>, ItemView>, id: Seq<char>, r: Seq<char>, t: Timestamp)
    requires
        m.contains_key(id),
    ensures
        untimed_map(
            m.insert(id, ItemView { tool_execution_result: Some(r), updated_at: t, ..m[id] }),
        ) == untimed_map(with_result(m, id, r)),
{
    assert(untimed_map(
        m.insert(id, ItemView { tool_execution_result: Some(r), updated_at: t, ..m[id] }),
    ) =~= untimed_map(with_result(m, id, r)));
}

proof fn lemma_untimed_error(m: Map<Seq<char>, ItemView>, id: Seq<char>, e: Seq<char>, t: Timestamp)
    requires
        m.contains_key(id),
    ensures
        untimed_map(
            m.insert(
                id,
                ItemView { error_message: Some(e), status: TodoStatus::Failed, updated_at: t, ..m[id] },
            ),
        ) == untimed_map(with_error(m, id, e)),
{
    assert(untimed_map(
        m.insert(
            id,
            ItemView { error_message: Some(e), status: TodoStatus::Failed, updated_at: t, ..m[id] },
        ),
    ) =~= untimed_map(with_error(m, id, e)));
}

/// Clearing time stamps commutes with the updates.
proof fn lemma_untimed_congruence(m1: Map<Seq<char>, ItemView>, m2: Map<Seq<char>, ItemView>, id: Seq<char>)
    requires
        untimed_map(m1) == untimed_map(m2),
    ensures
        m1.contains_key(id) == m2.contains_key(id),
        forall|st: TodoStatus| untimed_map(#[trigger] with_status(m1, id, st)) == untimed_map(with_status(m2, id, st)),
        forall|r: Seq<char>| untimed_map(#[trigger] with_result(m1, id, r)) == untimed_map(with_result(m2, id, r)),
        forall|e: Seq<char>| untimed_map(#[trigger] with_error(m1, id, e)) == untimed_map(with_error(m2, id, e)),
{
    assert(m1.dom() =~= untimed_map(m1).dom());
    assert(m2.dom() =~= untimed_map(m2).dom());
    if m1.contains_key(id) {
        assert(untimed_map(m1)[id] == untimed(m1[id]));
        assert(untimed_map(m2)[id] == untimed(m2[id]));
    }
    assert forall|st: TodoStatus| untimed_map(#[trigger] with_status(m1, id, st)) == untimed_map(with_status(m2, id, st)) by {
        assert forall|k: Seq<char>| #[trigger] m1.contains_key(k) implies untimed(m1[k]) == untimed(m2[k]) by {
            assert(untimed_map(m1)[k] == untimed_map(m2)[k]);
        }
        assert(untimed_map(with_status(m1, id, st)) =~= untimed_map(with_status(m2, id, st)));
    }
    assert forall|r: Seq<char>| untimed_map(#[trigger] with_result(m1, id, r)) == untimed_map(with_result(m2, id, r)) by {
        assert forall|k: Seq<char>| #[trigger] m1.contains_key(k) implies untimed(m1[k]) == untimed(m2[k]) by {
            assert(untimed_map(m1)[k] == untimed_map(m2)[k]);
        }
        assert(untimed_map(with_result(m1, id, r)) =~= untimed_map(with_result(m2, id, r)));
    }
    assert forall|e: Seq<char>| untimed_map(#[trigger] with_error(m1, id, e)) == untimed_map(with_error(m2, id, e)) by {
        assert forall|k: Seq<char>| #[trigger] m1.contains_key(k) implies untimed(m1[k]) == untimed(m2[k]) by {
            assert(untimed_map(m1)[k] == untimed_map(m2)[k]);
        }
        assert(untimed_map(with_error(m1, id, e)) =~= untimed_map(with_error(m2, id, e)));
    }
}

/// The current task list and the file it is saved to.
pub struct TodoManager {
    pub current_list: Option<TodoList>,
    pub storage_path: String,
}

impl TodoManager {
    /// The current list, if any, has unique task identifiers.
    pub open spec fn wf(&self) -> bool {
        self.current_list matches Some(l) ==> l.wf()
    }

    /// A manager without a current list, saving to "todo_state.json" (the
    /// saved state is read by the caller).
    pub fn new() -> (r: Self)
        ensures
            r.wf(),
            r.current_list is None,
            r.storage_path@ == "todo_state.json"@,
    {
        TodoManager { current_list: None, storage_path: crate::text::to_owned_string("todo_state.json") }
    }

    /// The five tasks planned for a description, by the project type that its
    /// lower-cased form names.
    pub fn generate_project_specific_todos(&self, description: &str) -> (r: Vec<TodoItem>)
        ensures
            item_texts(r@) == project_todos(project_type_of(crate::text::lowercase_of(description@))),
            forall|i: int| 0 <= i < r@.len() ==> unstarted_item(#[trigger] r@[i]@),
    {
        let desc_lower = crate::text::to_lowercase(description);
        let pt = self.detect_project_type(desc_lower.as_str());
        project_todo_items(pt)
    }

    /// The project type a lower-cased description names.
    pub fn detect_project_type(&self, description: &str) -> (r: ProjectType)
        ensures
            r == project_type_of(description@),
    {
        project_type(description)
    }

    /// The same list apart from its tasks and time stamps.
    pub open spec fn same_frame(a: TodoList, b: TodoList) -> bool {
        &&& a.order_view() == b.order_view()
        &&& a.title@ == b.title@
        &&& a.description@ == b.description@
        &&& a.id@ == b.id@
        &&& a.is_active == b.is_active
    }

    /// Adds a new unstarted task to the current list and returns its identifier.
    pub fn add_todo_item(&mut self, title: String, description: String) -> (r: Result<String, TodoError>)
        requires
            old(self).wf(),
        ensures
            final(self).wf(),
            final(self).storage_path == old(self).storage_path,
            match old(self).current_list {
                None => r == Err::<String, TodoError>(TodoError::NoActiveList) && final(self).current_list is None,
                Some(l) => final(self).current_list matches Some(f) && r matches Ok(id) && {
                    &&& f.order_view() == l.order_view().push(id@)
                    &&& f.title@ == l.title@ && f.description@ == l.description@ && f.id@ == l.id@
                    &&& f.map() == l.map().insert(id@, f.map()[id@])
                    &&& f.map()[id@].title == title@
                    &&& f.map()[id@].description == description@
                    &&& unstarted_item(f.map()[id@])
                    &&& f.map()[id@].id == id@
                },
            },
    {
        if self.current_list.is_none() {
            return Err(TodoError::NoActiveList);
        }
        let mut list = self.current_list.take().unwrap();
        let item = TodoItem::new(title, description);
        let item_id = item.id.clone();
        list.add_item(item);
        self.current_list = Some(list);
        Ok(item_id)
    }

    /// The task that should run next in the current list.
    pub fn get_next_todo(&self) -> (r: Option<&TodoItem>)
        requires
            self.wf(),
        ensures
            match self.current_list {
                Some(l) => match r {
                    Some(item) => l.next_ready() == Some(item@),
                    None => l.next_ready() is None,
                },
                None => r is None,
            },
    {
        match &self.current_list {
            Some(list) => list.get_next_pending_item(),
            None => None,
        }
    }

    /// The description of the next step of the current list.
    pub fn get_current_step_context(&self) -> (r: Option<String>)
        requires
            self.wf(),
        ensures
            match self.current_list {
                Some(l) => match l.next_ready() {
                    Some(item) => r matches Some(s) && s@ == "現在のステップ: "@ + item.title
                        + "\n詳細: "@ + item.description,
                    None => r is None,
                },
                None => r is None,
            },
    {
        match &self.current_list {
            Some(list) => list.get_current_step_description(),
            None => None,
        }
    }

    /// Sets the status of a task of the current list (the caller saves).
    pub fn update_todo_status(&mut self, item_id: &str, status: TodoStatus) -> (r: Result<(), TodoError>)
        requires
            old(self).wf(),
        ensures
            final(self).wf(),
            final(self).storage_path == old(self).storage_path,
            match old(self).current_list {
                None => r == Err::<(), TodoError>(TodoError::NoActiveList) && final(self).current_list is None,
                Some(l) => final(self).current_list matches Some(f) && Self::same_frame(f, l) && if l.map().contains_key(item_id@) {
                    r is Ok && untimed_map(f.map()) == untimed_map(with_status(l.map(), item_id@, status))
                } else {
                    r == Err::<(), TodoError>(TodoError::ItemNotFound) && f.map() == l.map()
                },
            },
    {
        if self.current_list.is_none() {
            return Err(TodoError::NoActiveList);
        }
        let mut list = self.current_list.take().unwrap();
        let ghost before = list.map();
        let r = list.update_item_status(item_id, status);
        proof {
            if before.contains_key(item_id@) {
                lemma_untimed_status(before, item_id@, status, list.map()[item_id@].updated_at);
            }
        }
        self.current_list = Some(list);
        r
    }

    /// Records the execution result of a task of the current list.
    pub fn set_todo_tool_result(&mut self, item_id: &str, result: String) -> (r: Result<(), TodoError>)
        requires
            old(self).wf(),
        ensures
            final(self).wf(),
            final(self).storage_path == old(self).storage_path,
            match old(self).current_list {
                None => r == Err::<(), TodoError>(TodoError::NoActiveList) && final(self).current_list is None,
                Some(l) => final(self).current_list matches Some(f) && Self::same_frame(f, l) && if l.map().contains_key(item_id@) {
                    r is Ok && untimed_map(f.map()) == untimed_map(with_result(l.map(), item_id@, result@))
                } else {
                    r == Err::<(), TodoError>(TodoError::ItemNotFound) && f.map() == l.map()
                },
            },
    {
        if self.current_list.is_none() {
            return Err(TodoError::NoActiveList);
        }
        let mut list = self.current_list.take().unwrap();
        let ghost before = list.map();
        let ghost rv = result@;
        let r = list.set_item_tool_result(item_id, result);
        proof {
            if before.contains_key(item_id@) {
                lemma_untimed_result(before, item_id@, rv, list.map()[item_id@].updated_at);
            }
        }
        self.current_list = Some(list);
        r
    }

    /// Records an error for a task of the current list, which fails.
    pub fn set_todo_error(&mut self, item_id: &str, error: String) -> (r: Result<(), TodoError>)
        requires
            old(self).wf(),
        ensures
            final(self).wf(),
            final(self).storage_path == old(self).storage_path,
            match old(self).current_list {
                None => r == Err::<(), TodoError>(TodoError::NoActiveList) && final(self).current_list is None,
                Some(l) => final(self).current_list matches Some(f) && Self::same_frame(f, l) && if l.map().contains_key(item_id@) {
                    r is Ok && untimed_map(f.map()) == untimed_map(with_error(l.map(), item_id@, error@))
                } else {
                    r == Err::<(), TodoError>(TodoError::ItemNotFound) && f.map() == l.map()
                },
            },
    {
        if self.current_list.is_none() {
            return Err(TodoError::NoActiveList);
        }
        let mut list = self.current_list.take().unwrap();
        let ghost before = list.map();
        let ghost ev = error@;
        let r = list.set_item_error(item_id, error);
        proof {
            if before.contains_key(item_id@) {
                lemma_untimed_error(before, item_id@, ev, list.map()[item_id@].updated_at);
            }
        }
        self.current_list = Some(list);
        r
    }

    /// Whether there is a current list and all its tasks completed or failed.
    pub fn is_list_completed(&self) -> (r: bool)
        ensures
            r == match self.current_list {
                Some(l) => forall|i: int|
                    0 <= i < l.values().len() ==> (#[trigger] l.values()[i]).status
                        == TodoStatus::Completed || l.values()[i].status == TodoStatus::Failed,
                None => false,
            },
    {
        match &self.current_list {
            Some(list) => list.is_completed(),
            None => false,
        }
    }

    /// Drops the current list (the caller saves).
    pub fn clear_current_list(&mut self)
        ensures
            final(self).current_list is None,
            final(self).storage_path == old(self).storage_path,
    {
        self.current_list = None;
    }

    /// The display text of the current list.
    pub fn get_display_text(&self) -> (r: Option<String>)
        requires
            self.wf(),
        ensures
            match self.current_list {
                Some(l) => r matches Some(s) && s@ == "📋 "@ + l.title@ + "\n"@ + l.description@ + "\n\n"@
                    + l.progress() + "\n\n"@ + items_display(l.order_view(), l.map()),
                None => r is None,
            },
    {
        match &self.current_list {
            Some(list) => Some(list.get_display_text()),
            None => None,
        }
    }

    /// Whether a message should start a new list: the current one is done, or
    /// the lower-cased message contains a word that announces new work.
    pub fn should_create_new_list(&self, user_message: &str) -> (r: bool)
        ensures
            r == (self.is_list_completed_spec() || contains_any_seq(
                crate::text::lowercase_of(user_message@),
                new_list_keywords(),
            )),
    {
        if self.is_list_completed() {
            return true;
        }
        let lower = crate::text::to_lowercase(user_message);
        let d = chars_of(lower.as_str());
        let words = ["新しい", "別の", "今度は", "次に", "create", "make", "build", "implement", "develop", "design", "プロジェクト", "アプリ", "システム", "ツール", "ライブラリ", "サービス", "website", "app", "system", "tool"];
        assert(words@.map_values(|p: &str| p@) =~= new_list_keywords());
        contains_any(&d, &words)
    }

    /// There is a current list and all its tasks completed or failed.
    pub open spec fn is_list_completed_spec(&self) -> bool {
        match self.current_list {
            Some(l) => forall|i: int|
                0 <= i < l.values().len() ==> (#[trigger] l.values()[i]).status == TodoStatus::Completed
                    || l.values()[i].status == TodoStatus::Failed,
            None => false,
        }
    }

    /// Whether an error text (lower-cased) names an error the assistant can
    /// usually correct by itself.
    pub fn is_auto_correctable(&self, error_context: &str) -> (r: bool)
        ensures
            r == contains_any_seq(crate::text::lowercase_of(error_context@), auto_correctable_patterns()),
    {
        let lower = crate::text::to_lowercase(error_context);
        let d = chars_of(lower.as_str());
        let patterns = ["file not found", "ファイルが見つかりません", "syntax error", "構文エラー", "import error", "module not found", "permission denied"];
        assert(patterns@.map_values(|p: &str| p@) =~= auto_correctable_patterns());
        contains_any(&d, &patterns)
    }

    /// Starts a new list with the tasks planned for `description`; the first
    /// of them is in progress. Returns the list's identifier (the caller
    /// saves).
    pub fn create_new_list(&mut self, title: String, description: String) -> (id: String)
        requires
            old(self).wf(),
        ensures
            final(self).wf(),
            final(self).storage_path == old(self).storage_path,
            final(self).current_list matches Some(l) && {
                let todos = project_todos(project_type_of(crate::text::lowercase_of(description@)));
                &&& l.id@ == id@
                &&& l.title@ == title@
                &&& l.description@ == description@
                &&& l.is_active
                &&& l.order_view().len() == todos.len()
                &&& untimed_map(l.map()) == untimed_map(
                    with_status(
                        insert_all(Map::empty(), planned(l.order_view(), todos)),
                        l.order_view()[0],
                        TodoStatus::InProgress,
                    ),
                )
            },
    {
        let ghost todos = project_todos(project_type_of(crate::text::lowercase_of(description@)));
        let mut list = TodoList::new(title, description.clone());
        let mut items = self.generate_project_specific_todos(description.as_str());
        let ghost all = items@;
        let n0 = items.len();
        let mut k: usize = 0;
        let ghost m0 = list.map();
        assert(untimed_map(list.map()) =~= untimed_map(insert_all(Map::empty(), planned(Seq::empty(), todos.take(0)))));
        while items.len() > 0
            invariant
                list.wf(),
                k + items@.len() == all.len(),
                all.len() <= usize::MAX,
                all.len() == todos.len(),
                item_texts(all) == todos,
                forall|i: int| 0 <= i < all.len() ==> unstarted_item(#[trigger] all[i]@),
                items@ == all.skip(k as int),
                list.order_view().len() == k,
                forall|i: int| 0 <= i < k ==> list.order_view()[i] == #[trigger] all[i].id@,
                untimed_map(list.map()) == untimed_map(insert_all(Map::empty(), planned(list.order_view(), todos.take(k as int)))),
                list.title@ == title@,
                list.description@ == description@,
                list.is_active,
                exists|u: u128| list.id@ == uuid_text(u),
            decreases items@.len(),
        {
            let item = items.remove(0);
            let ghost iv = item@;
            let ghost before_order = list.order_view();
            let ghost before_map = list.map();
            list.add_item(item);
            proof {
                assert(all[k as int] == item);
                assert(items@ =~= all.skip(k + 1));
                let ids = list.order_view();
                assert(ids.drop_last() =~= before_order);
                let p_new = planned(ids, todos.take(k + 1));
                let p_old = planned(before_order, todos.take(k as int));
                assert(p_new.drop_last() =~= p_old);
                assert(item_texts(all)[k as int] == todos[k as int]);
                assert(untimed(p_new.last()) == untimed(iv));
                assert(untimed_map(list.map()) =~= untimed_map(insert_all(Map::empty(), p_new))) by {
                    assert forall|key: Seq<char>| #[trigger] list.map().contains_key(key) implies untimed(list.map()[key]) == untimed(insert_all(Map::empty(), p_new)[key]) by {
                        if key != iv.id {
                            assert(untimed_map(before_map)[key] == untimed_map(insert_all(Map::empty(), p_old))[key]);
                        }
                    }
                    assert(list.map().dom() =~= insert_all(Map::empty(), p_new).dom()) by {
                        assert(before_map.dom() =~= untimed_map(before_map).dom());
                        assert(insert_all(Map::empty(), p_old).dom() =~= untimed_map(insert_all(Map::empty(), p_old)).dom());
                    }
                }
            }
            k = k + 1;
        }
        assert(todos.take(k as int) =~= todos);
        let ghost before = list.map();
        if list.order.len() > 0 {
            match list.find_item(list.order[0].as_str()) {
                Some(i) => {
                    let ghost items_before = list.items@;
                    proof {
                        lemma_item_pos(items_before, i as int);
                    }
                    let mut item = list.take_item(i);
                    item.update_status(TodoStatus::InProgress);
                    list.restore_item(i, item, Ghost(items_before));
                    proof {
                        lemma_untimed_status(before, list.order_view()[0], TodoStatus::InProgress, list.map()[list.order_view()[0]].updated_at);
                        lemma_untimed_congruence(before, insert_all(Map::empty(), planned(list.order_view(), todos)), list.order_view()[0]);
                    }
                },
                None => {
                    proof {
                        lemma_untimed_congruence(before, insert_all(Map::empty(), planned(list.order_view(), todos)), list.order_view()[0]);
                    }
                },
            }
        }
        let id = list.id.clone();
        self.current_list = Some(list);
        id
    }
}

} // verus!

verus! {

/// The text between the first two single quotes of a line.
pub open spec fn quoted_name(line: Seq<char>) -> Option<Seq<char>> {
    let a = crate::text::char_index(line, '\'');
    if 0 <= a < line.len() {
        let rest = line.subrange(a + 1, line.len() as int);
        let b = crate::text::char_index(rest, '\'');
        if 0 <= b < rest.len() {
            Some(rest.subrange(0, b))
        } else {
            None
        }
    } else {
        None
    }
}

/// A reply line that reports a created file.
pub open spec fn reports_file(line: Seq<char>) -> bool {
    crate::text::seq_contains(line, "✅ File"@) && (crate::text::seq_contains(
        line,
        "created successfully"@,
    ) || crate::text::seq_contains(line, "created as"@))
}

/// The names of the files that the lines report as created.
pub open spec fn created_files(lines: Seq<Seq<char>>) -> Seq<Seq<char>>
    decreases lines.len(),
{
    if lines.len() == 0 {
        Seq::empty()
    } else {
        created_files(lines.drop_last()) + if reports_file(lines.last()) && quoted_name(
            lines.last(),
        ) is Some {
            seq![quoted_name(lines.last()).unwrap()]
        } else {
            Seq::empty()
        }
    }
}

/// Words that report a successful command.
pub open spec fn success_patterns() -> Seq<Seq<char>> {
    seq!["successfully executed"@, "command completed"@, "✅"@]
}

/// Words that report a failed command.
pub open spec fn failure_patterns() -> Seq<Seq<char>> {
    seq!["failed to execute"@, "command failed"@, "❌"@, "Error:"@, "error:"@]
}

/// Some pattern, lower-cased, occurs in `lower`.
pub open spec fn matches_lowered(lower: Seq<char>, pats: Seq<Seq<char>>) -> bool {
    exists|i: int|
        0 <= i < pats.len() && crate::text::seq_contains(lower, crate::text::lowercase_of(#[trigger] pats[i]))
}

/// What a line says of a command: `Some(true)` for success, `Some(false)`
/// for failure, `None` for nothing.
pub open spec fn command_outcome(line: Seq<char>) -> Option<bool> {
    let lower = crate::text::lowercase_of(line);
    if matches_lowered(lower, success_patterns()) {
        Some(true)
    } else if matches_lowered(lower, failure_patterns()) {
        Some(false)
    } else {
        None
    }
}

/// The first line from `k` on that reports on a command, with its outcome.
pub open spec fn detect_command_from(lines: Seq<Seq<char>>, k: int) -> Option<(bool, Seq<char>)>
    decreases lines.len() - k,
{
    if k < 0 || k >= lines.len() {
        None
    } else if command_outcome(lines[k]) is Some {
        Some((command_outcome(lines[k]).unwrap(), lines[k]))
    } else {
        detect_command_from(lines, k + 1)
    }
}

/// Words that mark an error in a reply.
pub open spec fn error_patterns() -> Seq<Seq<char>> {
    seq!["Error:"@, "❌"@, "Failed"@, "Exception:"@, "panic!"@]
}

/// The first line from `k` on that reports an error.
pub open spec fn detect_error_from(lines: Seq<Seq<char>>, k: int) -> Option<Seq<char>>
    decreases lines.len() - k,
{
    if k < 0 || k >= lines.len() {
        None
    } else if crate::text::contains_any_seq(lines[k], error_patterns()) {
        Some(lines[k])
    } else {
        detect_error_from(lines, k + 1)
    }
}

/// The first task from `k` on in `order` that exists and has status `st`.
pub open spec fn first_with_status(order: Seq<Seq<char>>, m: Map<Seq<char>, ItemView>, st: TodoStatus, k: int) -> Option<Seq<char>>
    decreases order.len() - k,
{
    if k < 0 || k >= order.len() {
        None
    } else if m.contains_key(order[k]) && m[order[k]].status == st {
        Some(order[k])
    } else {
        first_with_status(order, m, st, k + 1)
    }
}

/// The task being worked on: the first in progress, else the first pending.
pub open spec fn current_pending(order: Seq<Seq<char>>, m: Map<Seq<char>, ItemView>) -> Option<Seq<char>> {
    match first_with_status(order, m, TodoStatus::InProgress, 0) {
        Some(id) => Some(id),
        None => first_with_status(order, m, TodoStatus::Pending, 0),
    }
}

/// The task is pending and every task it depends on exists and completed.
pub open spec fn ready_in(v: ItemView, m: Map<Seq<char>, ItemView>) -> bool {
    v.status == TodoStatus::Pending && forall|d: int|
        0 <= d < v.dependencies.len() ==> m.contains_key(#[trigger] v.dependencies[d])
            && m[v.dependencies[d]].status == TodoStatus::Completed
}

/// The first task from `k` on in `order` that exists and is ready.
pub open spec fn first_ready_in(order: Seq<Seq<char>>, m: Map<Seq<char>, ItemView>, k: int) -> Option<Seq<char>>
    decreases order.len() - k,
{
    if k < 0 || k >= order.len() {
        None
    } else if m.contains_key(order[k]) && ready_in(m[order[k]], m) {
        Some(order[k])
    } else {
        first_ready_in(order, m, k + 1)
    }
}

proof fn lemma_item_map_keys(items: Seq<TodoItem>)
    requires
        item_ids_distinct(items),
    ensures
        forall|d: Seq<char>| #[trigger] item_map(items).contains_key(d) ==> item_map(items)[d].id == d,
        forall|i: int| 0 <= i < items.len() ==> item_map(items).contains_key(#[trigger] items[i].id@)
            && item_map(items)[items[i].id@] == items[i]@,
{
    assert forall|i: int| 0 <= i < items.len() implies item_map(items).contains_key(#[trigger] items[i].id@)
        && item_map(items)[items[i].id@] == items[i]@ by {
        lemma_item_pos(items, i);
    }
    assert forall|d: Seq<char>| #[trigger] item_map(items).contains_key(d) implies item_map(items)[d].id == d by {
        let k = item_pos(items, d);
        assert(has_item(items, d));
    }
}

proof fn lemma_completed_ids(items: Seq<TodoItem>)
    requires
        item_ids_distinct(items),
    ensures
        forall|d: Seq<char>| #[trigger] completed_ids(item_values(items)).contains(d) == (
            item_map(items).contains_key(d) && item_map(items)[d].status == TodoStatus::Completed),
{
    lemma_item_map_keys(items);
    assert forall|d: Seq<char>| #[trigger] completed_ids(item_values(items)).contains(d) == (
        item_map(items).contains_key(d) && item_map(items)[d].status == TodoStatus::Completed) by {
        lemma_completed_ids_prefix(items, items.len() as int, d);
        assert(item_values(items).take(items.len() as int) =~= item_values(items));
        if item_map(items).contains_key(d) {
            let k = item_pos(items, d);
            assert(has_item(items, d));
            lemma_item_pos(items, k);
        }
    }
}

proof fn lemma_completed_ids_prefix(items: Seq<TodoItem>, n: int, d: Seq<char>)
    requires
        0 <= n <= items.len(),
    ensures
        completed_ids(item_values(items).take(n)).contains(d) == exists|i: int|
            0 <= i < n && items[i].id@ == d && items[i].status == TodoStatus::Completed,
    decreases n,
{
    let vs = item_values(items).take(n);
    if n > 0 {
        lemma_completed_ids_prefix(items, n - 1, d);
        assert(vs.drop_last() =~= item_values(items).take(n - 1));
        assert(vs.last() == items[n - 1]@);
        let prev = completed_ids(item_values(items).take(n - 1));
        if vs.last().status == TodoStatus::Completed {
            assert(completed_ids(vs) == prev.push(items[n - 1].id@));
            if prev.contains(d) {
                let i = choose|i: int| 0 <= i < n - 1 && items[i].id@ == d && items[i].status == TodoStatus::Completed;
                assert(0 <= i < n && items[i].id@ == d);
            }
            if exists|i: int| 0 <= i < n && items[i].id@ == d && items[i].status == TodoStatus::Completed {
                let i = choose|i: int| 0 <= i < n && items[i].id@ == d && items[i].status == TodoStatus::Completed;
                if i < n - 1 {
                    assert(prev.contains(d));
                    let j = choose|j: int| 0 <= j < prev.len() && prev[j] == d;
                    assert(completed_ids(vs)[j] == d);
                } else {
                    assert(completed_ids(vs)[prev.len() as int] == d);
                }
            }
            if completed_ids(vs).contains(d) {
                let j = choose|j: int| 0 <= j < completed_ids(vs).len() && completed_ids(vs)[j] == d;
                if j < prev.len() {
                    assert(prev[j] == d);
                    assert(prev.contains(d));
                }
            }
        } else {
            if exists|i: int| 0 <= i < n && items[i].id@ == d && items[i].status == TodoStatus::Completed {
                let i = choose|i: int| 0 <= i < n && items[i].id@ == d && items[i].status == TodoStatus::Completed;
                assert(i < n - 1);
            }
        }
    } else {
        assert(vs =~= Seq::<ItemView>::empty());
    }
}

} // verus!

verus! {

/// What a reply says of a command that was run.
pub struct CommandResult {
    pub success: bool,
    pub description: String,
}

fn quoted_name_of(line: &Vec<char>) -> (r: Option<Vec<char>>)
    ensures
        match quoted_name(line@) {
            Some(n) => r matches Some(v) && v@ == n,
            None => r is None,
        },
{
    assert(line@.subrange(0, line@.len() as int) =~= line@);
    let a = char_index_from(line, '\'', 0);
    if a < line.len() {
        let b = char_index_from(line, '\'', a + 1);
        if b < line.len() {
            let v = slice_chars(line, a + 1, b);
            proof {
                let rest = line@.subrange(a + 1, line@.len() as int);
                assert(rest.subrange(0, b - (a + 1)) =~= line@.subrange(a + 1, b as int));
            }
            Some(v)
        } else {
            None
        }
    } else {
        None
    }
}

fn reports_file_exec(line: &Vec<char>) -> (r: bool)
    ensures
        r == reports_file(line@),
{
    let mark = chars_of("✅ File");
    let done = chars_of("created successfully");
    let named = chars_of("created as");
    contains_chars(line, &mark) && (contains_chars(line, &done) || contains_chars(line, &named))
}

fn matches_lowered_exec(lower: &Vec<char>, pats: &[&str]) -> (r: bool)
    ensures
        r == matches_lowered(lower@, pats@.map_values(|p: &str| p@)),
{
    let ghost ps = pats@.map_values(|p: &str| p@);
    let mut i: usize = 0;
    while i < pats.len()
        invariant
            i <= pats@.len(),
            ps == pats@.map_values(|p: &str| p@),
            forall|j: int| 0 <= j < i ==> !seq_contains(lower@, lowercase_of(#[trigger] ps[j])),
        decreases pats@.len() - i,
    {
        let lp = to_lowercase(pats[i]);
        let lpc = chars_of(lp.as_str());
        if contains_chars(lower, &lpc) {
            assert(seq_contains(lower@, lowercase_of(ps[i as int])));
            return true;
        }
        i = i + 1;
    }
    false
}

fn command_outcome_exec(line: &Vec<char>) -> (r: Option<bool>)
    ensures
        r == command_outcome(line@),
{
    let s = string_of(line);
    let lower = to_lowercase(s.as_str());
    let lc = chars_of(lower.as_str());
    let ok = ["successfully executed", "command completed", "✅"];
    let bad = ["failed to execute", "command failed", "❌", "Error:", "error:"];
    assert(ok@.map_values(|p: &str| p@) =~= success_patterns());
    assert(bad@.map_values(|p: &str| p@) =~= failure_patterns());
    if matches_lowered_exec(&lc, &ok) {
        Some(true)
    } else if matches_lowered_exec(&lc, &bad) {
        Some(false)
    } else {
        None
    }
}

impl TodoManager {
    /// The names of the files that a reply reports as created ("✅ File"
    /// with "created successfully" or "created as", the name in single
    /// quotes), or `None` when it reports none.
    pub fn detect_file_creation(&self, response: &str) -> (r: Option<Vec<String>>)
        ensures
            match r {
                Some(v) => v.deep_view() == created_files(lines_of(response@)) && v.len() > 0,
                None => created_files(lines_of(response@)).len() == 0,
            },
    {
        let chars = chars_of(response);
        let lines = lines_chars(&chars);
        let mut files: Vec<String> = Vec::new();
        let mut i: usize = 0;
        while i < lines.len()
            invariant
                i <= lines.len(),
                lines.deep_view() == lines_of(response@),
                files.deep_view() == created_files(lines.deep_view().take(i as int)),
            decreases lines.len() - i,
        {
            let line = &lines[i];
            proof {
                let pre = lines.deep_view().take(i + 1);
                assert(pre.drop_last() =~= lines.deep_view().take(i as int));
                assert(pre.last() == line@);
            }
            if reports_file_exec(line) {
                match quoted_name_of(line) {
                    Some(n) => {
                        let ghost before = files.deep_view();
                        files.push(string_of(&n));
                        assert(files.deep_view() =~= before + seq![n@]);
                    },
                    None => {},
                }
            } else {
                assert(created_files(lines.deep_view().take(i + 1)) =~= files.deep_view());
            }
            i = i + 1;
        }
        assert(lines.deep_view().take(i as int) =~= lines.deep_view());
        if files.len() == 0 {
            None
        } else {
            Some(files)
        }
    }

    /// The first line of a reply that reports on a command: success when its
    /// lower-cased form holds a success word, else failure when it holds a
    /// failure word.
    pub fn detect_command_execution(&self, response: &str) -> (r: Option<CommandResult>)
        ensures
            match detect_command_from(lines_of(response@), 0) {
                Some((ok, line)) => r matches Some(c) && c.success == ok && c.description@ == line,
                None => r is None,
            },
    {
        let chars = chars_of(response);
        let lines = lines_chars(&chars);
        let mut i: usize = 0;
        while i < lines.len()
            invariant
                i <= lines.len(),
                lines.deep_view() == lines_of(response@),
                detect_command_from(lines.deep_view(), 0) == detect_command_from(lines.deep_view(), i as int),
            decreases lines.len() - i,
        {
            assert(lines.deep_view()[i as int] == lines[i as int]@);
            match command_outcome_exec(&lines[i]) {
                Some(ok) => {
                    return Some(CommandResult { success: ok, description: string_of(&lines[i]) });
                },
                None => {},
            }
            i = i + 1;
        }
        None
    }

    /// The first line of a reply that holds an error mark.
    pub fn detect_error_in_response(&self, response: &str) -> (r: Option<String>)
        ensures
            opt_view(r) == detect_error_from(lines_of(response@), 0),
    {
        let chars = chars_of(response);
        let lines = lines_chars(&chars);
        let pats = ["Error:", "❌", "Failed", "Exception:", "panic!"];
        assert(pats@.map_values(|p: &str| p@) =~= error_patterns());
        let mut i: usize = 0;
        while i < lines.len()
            invariant
                i <= lines.len(),
                lines.deep_view() == lines_of(response@),
                pats@.map_values(|p: &str| p@) == error_patterns(),
                detect_error_from(lines.deep_view(), 0) == detect_error_from(lines.deep_view(), i as int),
            decreases lines.len() - i,
        {
            assert(lines.deep_view()[i as int] == lines[i as int]@);
            if contains_any(&lines[i], &pats) {
                return Some(string_of(&lines[i]));
            }
            i = i + 1;
        }
        None
    }
}

} // verus!

verus! {

/// Two task maps that agree on everything but time stamps.
proof fn lemma_untimed_shape(a: Map<Seq<char>, ItemView>, b: Map<Seq<char>, ItemView>)
    requires
        untimed_map(a) == untimed_map(b),
    ensures
        forall|key: Seq<char>| #[trigger] a.contains_key(key) == b.contains_key(key),
        forall|key: Seq<char>|
            #[trigger] a.contains_key(key) ==> a[key].status == b[key].status && a[key].dependencies
                == b[key].dependencies && a[key].id == b[key].id,
{
    assert(a.dom() =~= untimed_map(a).dom());
    assert(b.dom() =~= untimed_map(b).dom());
    assert forall|key: Seq<char>| #[trigger] a.contains_key(key) implies a[key].status == b[key].status
        && a[key].dependencies == b[key].dependencies && a[key].id == b[key].id by {
        assert(untimed_map(a)[key] == untimed_map(b)[key]);
    }
}

proof fn lemma_untimed_first_with_status(
    a: Map<Seq<char>, ItemView>,
    b: Map<Seq<char>, ItemView>,
    order: Seq<Seq<char>>,
    st: TodoStatus,
    k: int,
)
    requires
        untimed_map(a) == untimed_map(b),
    ensures
        first_with_status(order, a, st, k) == first_with_status(order, b, st, k),
    decreases order.len() - k,
{
    lemma_untimed_shape(a, b);
    if 0 <= k < order.len() {
        assert(a.contains_key(order[k]) == b.contains_key(order[k]));
        lemma_untimed_first_with_status(a, b, order, st, k + 1);
    }
}

proof fn lemma_untimed_first_ready(
    a: Map<Seq<char>, ItemView>,
    b: Map<Seq<char>, ItemView>,
    order: Seq<Seq<char>>,
    k: int,
)
    requires
        untimed_map(a) == untimed_map(b),
    ensures
        first_ready_in(order, a, k) == first_ready_in(order, b, k),
    decreases order.len() - k,
{
    lemma_untimed_shape(a, b);
    if 0 <= k < order.len() {
        let o = order[k];
        if a.contains_key(o) {
            let deps = a[o].dependencies;
            assert forall|d: int| 0 <= d < deps.len() implies (a.contains_key(#[trigger] deps[d])
                && a[deps[d]].status == TodoStatus::Completed) == (b.contains_key(deps[d])
                && b[deps[d]].status == TodoStatus::Completed) by {
                assert(a.contains_key(deps[d]) == b.contains_key(deps[d]));
            }
            assert(ready_in(a[o], a) == ready_in(b[o], b));
        }
        lemma_untimed_first_ready(a, b, order, k + 1);
    }
}

/// The choice of the current and of the next task ignores time stamps.
proof fn lemma_untimed_choices(a: Map<Seq<char>, ItemView>, b: Map<Seq<char>, ItemView>, order: Seq<Seq<char>>)
    requires
        untimed_map(a) == untimed_map(b),
    ensures
        current_pending(order, a) == current_pending(order, b),
        first_ready_in(order, a, 0) == first_ready_in(order, b, 0),
{
    lemma_untimed_first_with_status(a, b, order, TodoStatus::InProgress, 0);
    lemma_untimed_first_with_status(a, b, order, TodoStatus::Pending, 0);
    lemma_untimed_first_ready(a, b, order, 0);
}

proof fn lemma_first_ready(items: Seq<TodoItem>, order: Seq<Seq<char>>, k: int)
    requires
        item_ids_distinct(items),
        0 <= k,
    ensures
        match first_ready_from(order, item_map(items), completed_ids(item_values(items)), k) {
            Some(j) => k <= j < order.len() && first_ready_in(order, item_map(items), k) == Some(order[j]),
            None => first_ready_in(order, item_map(items), k) is None,
        },
    decreases order.len() - k,
{
    lemma_completed_ids(items);
    let m = item_map(items);
    let done = completed_ids(item_values(items));
    if k < order.len() {
        if m.contains_key(order[k]) {
            let v = m[order[k]];
            assert forall|d: int| 0 <= d < v.dependencies.len() implies done.contains(
                #[trigger] v.dependencies[d],
            ) == (m.contains_key(v.dependencies[d]) && m[v.dependencies[d]].status
                == TodoStatus::Completed) by {
                assert(done.contains(v.dependencies[d]) == (m.contains_key(v.dependencies[d])
                    && m[v.dependencies[d]].status == TodoStatus::Completed));
            }
            assert(item_ready(v, done) == ready_in(v, m));
        }
        lemma_first_ready(items, order, k + 1);
    }
}

proof fn lemma_first_ready_found(
    order: Seq<Seq<char>>,
    m: Map<Seq<char>, ItemView>,
    completed: Seq<Seq<char>>,
    k: int,
)
    ensures
        first_ready_from(order, m, completed, k) matches Some(j) ==> m.contains_key(order[j]) && item_ready(
            m[order[j]],
            completed,
        ),
    decreases order.len() - k,
{
    if 0 <= k < order.len() {
        lemma_first_ready_found(order, m, completed, k + 1);
    }
}

impl TodoList {
    /// The identifier of the first task in execution order with status `st`.
    fn first_id_with_status(&self, st: TodoStatus) -> (r: Option<String>)
        requires
            self.wf(),
        ensures
            opt_view(r) == first_with_status(self.order_view(), self.map(), st, 0),
    {
        let mut k: usize = 0;
        while k < self.order.len()
            invariant
                k <= self.order.len(),
                self.wf(),
                first_with_status(self.order_view(), self.map(), st, 0) == first_with_status(
                    self.order_view(),
                    self.map(),
                    st,
                    k as int,
                ),
            decreases self.order.len() - k,
        {
            assert(self.order_view()[k as int] == self.order[k as int]@);
            match self.find_item(self.order[k].as_str()) {
                Some(i) => {
                    proof {
                        lemma_item_pos(self.items@, i as int);
                    }
                    if self.items[i].status == st {
                        return Some(self.order[k].clone());
                    }
                },
                None => {},
            }
            k = k + 1;
        }
        None
    }
}

impl TodoManager {
    /// The task being worked on: the first in progress in execution order,
    /// else the first pending one.
    pub fn find_current_pending_item(&self) -> (r: Option<String>)
        requires
            self.wf(),
        ensures
            opt_view(r) == match self.current_list {
                Some(l) => current_pending(l.order_view(), l.map()),
                None => None,
            },
    {
        match &self.current_list {
            Some(list) => {
                match list.first_id_with_status(TodoStatus::InProgress) {
                    Some(id) => Some(id),
                    None => list.first_id_with_status(TodoStatus::Pending),
                }
            },
            None => None,
        }
    }

    /// The first task in execution order that is pending and whose
    /// dependencies have all completed.
    pub fn find_next_pending_item(&self) -> (r: Option<String>)
        requires
            self.wf(),
        ensures
            opt_view(r) == match self.current_list {
                Some(l) => first_ready_in(l.order_view(), l.map(), 0),
                None => None,
            },
    {
        match &self.current_list {
            Some(list) => {
                proof {
                    lemma_first_ready(list.items@, list.order_view(), 0);
                    lemma_item_map_keys(list.items@);
                }
                match list.get_next_pending_item() {
                    Some(item) => {
                        proof {
                            let j = first_ready_from(
                                list.order_view(),
                                list.map(),
                                completed_ids(list.values()),
                                0,
                            ).unwrap();
                            lemma_first_ready_found(list.order_view(), list.map(), completed_ids(list.values()), 0);
                            assert(list.map()[list.order_view()[j]].id == list.order_view()[j]);
                        }
                        Some(item.id.clone())
                    },
                    None => None,
                }
            },
            None => None,
        }
    }
}

} // verus!

verus! {

/// A step of the reply rules: the new task map and the identifiers it
/// touched.
pub type Touched = (Map<Seq<char>, ItemView>, Seq<Seq<char>>);

/// Created files complete the current task and record their names.
pub open spec fn files_step(order: Seq<Seq<char>>, m: Map<Seq<char>, ItemView>, lines: Seq<Seq<char>>) -> Touched {
    let files = created_files(lines);
    if files.len() > 0 {
        match current_pending(order, m) {
            Some(id) => (
                with_result(
                    with_status(m, id, TodoStatus::Completed),
                    id,
                    "ファイル作成完了: "@ + crate::text::join_seq(files, ", "@),
                ),
                seq![id],
            ),
            None => (m, Seq::empty()),
        }
    } else {
        (m, Seq::empty())
    }
}

/// A reported command completes the current task, or fails it.
pub open spec fn command_step(order: Seq<Seq<char>>, m: Map<Seq<char>, ItemView>, lines: Seq<Seq<char>>) -> Touched {
    match detect_command_from(lines, 0) {
        Some((ok, line)) => match current_pending(order, m) {
            Some(id) => if ok {
                (
                    with_result(with_status(m, id, TodoStatus::Completed), id, "コマンド実行完了: "@ + line),
                    seq![id],
                )
            } else {
                (with_error(m, id, "コマンド実行失敗: "@ + line), seq![id])
            },
            None => (m, Seq::empty()),
        },
        None => (m, Seq::empty()),
    }
}

/// A reported error fails the current task.
pub open spec fn error_step(order: Seq<Seq<char>>, m: Map<Seq<char>, ItemView>, lines: Seq<Seq<char>>) -> Touched {
    match detect_error_from(lines, 0) {
        Some(e) => match current_pending(order, m) {
            Some(id) => (with_error(m, id, e), seq![id]),
            None => (m, Seq::empty()),
        },
        None => (m, Seq::empty()),
    }
}

/// The next ready task goes in progress.
pub open spec fn advance_step(order: Seq<Seq<char>>, m: Map<Seq<char>, ItemView>) -> Touched {
    match first_ready_in(order, m, 0) {
        Some(id) => (with_status(m, id, TodoStatus::InProgress), seq![id]),
        None => (m, Seq::empty()),
    }
}

/// The effect of a reply on a task map: the four steps in turn, and all
/// the identifiers they touched, in order.
pub open spec fn ai_update(order: Seq<Seq<char>>, m: Map<Seq<char>, ItemView>, response: Seq<char>) -> Touched {
    let lines = lines_of(response);
    let s1 = files_step(order, m, lines);
    let s2 = command_step(order, s1.0, lines);
    let s3 = error_step(order, s2.0, lines);
    let s4 = advance_step(order, s3.0);
    (s4.0, s1.1 + s2.1 + s3.1 + s4.1)
}

impl TodoManager {
    /// The current list exists and its tasks equal `s` but for time stamps.
    pub open spec fn tracks(&self, l: TodoList, s: Map<Seq<char>, ItemView>) -> bool {
        &&& self.wf()
        &&& self.current_list matches Some(f)
        &&& Self::same_frame(f, l)
        &&& untimed_map(f.map()) == untimed_map(s)
    }

    fn apply_status(&mut self, id: &str, st: TodoStatus, Ghost(l): Ghost<TodoList>, Ghost(s): Ghost<Map<Seq<char>, ItemView>>) -> (ok: bool)
        requires
            old(self).tracks(l, s),
        ensures
            final(self).tracks(l, with_status(s, id@, st)),
            final(self).storage_path == old(self).storage_path,
            ok == s.contains_key(id@),
    {
        let ghost before = self.current_list.unwrap().map();
        proof {
            lemma_untimed_congruence(before, s, id@);
        }
        let r = self.update_todo_status(id, st);
        r.is_ok()
    }

    fn apply_result(&mut self, id: &str, text: String, Ghost(l): Ghost<TodoList>, Ghost(s): Ghost<Map<Seq<char>, ItemView>>)
        requires
            old(self).tracks(l, s),
        ensures
            final(self).tracks(l, with_result(s, id@, text@)),
            final(self).storage_path == old(self).storage_path,
    {
        let ghost before = self.current_list.unwrap().map();
        proof {
            lemma_untimed_congruence(before, s, id@);
        }
        let _ = self.set_todo_tool_result(id, text);
    }

    fn apply_error(&mut self, id: &str, text: String, Ghost(l): Ghost<TodoList>, Ghost(s): Ghost<Map<Seq<char>, ItemView>>)
        requires
            old(self).tracks(l, s),
        ensures
            final(self).tracks(l, with_error(s, id@, text@)),
            final(self).storage_path == old(self).storage_path,
    {
        let ghost before = self.current_list.unwrap().map();
        proof {
            lemma_untimed_congruence(before, s, id@);
        }
        let _ = self.set_todo_error(id, text);
    }

    fn current_for(&self, Ghost(l): Ghost<TodoList>, Ghost(s): Ghost<Map<Seq<char>, ItemView>>) -> (r: Option<String>)
        requires
            self.tracks(l, s),
        ensures
            opt_view(r) == current_pending(l.order_view(), s),
            r matches Some(id) ==> s.contains_key(id@),
    {
        proof {
            let f = self.current_list.unwrap();
            lemma_untimed_choices(f.map(), s, l.order_view());
            lemma_untimed_shape(f.map(), s);
            lemma_current_pending_found(l.order_view(), s);
        }
        self.find_current_pending_item()
    }

    /// Moves the current list along after a model reply: created files
    /// complete the current task, a reported command completes or fails it,
    /// a reported error fails it, and then the next ready task goes in
    /// progress. Returns the identifiers touched, in that order (the caller
    /// saves when there are any).
    pub fn update_from_ai_response(&mut self, ai_response: &str) -> (r: Vec<String>)
        requires
            old(self).wf(),
        ensures
            final(self).wf(),
            final(self).storage_path == old(self).storage_path,
            match old(self).current_list {
                None => r.len() == 0 && final(self).current_list is None,
                Some(l) => final(self).tracks(l, ai_update(l.order_view(), l.map(), ai_response@).0)
                    && r.deep_view() == ai_update(l.order_view(), l.map(), ai_response@).1,
            },
    {
        if self.current_list.is_none() {
            return Vec::new();
        }
        let ghost l = self.current_list.unwrap();
        let ghost order = l.order_view();
        let ghost lines = lines_of(ai_response@);
        let ghost s1 = files_step(order, l.map(), lines);
        let ghost s2 = command_step(order, s1.0, lines);
        let ghost s3 = error_step(order, s2.0, lines);
        let ghost s4 = advance_step(order, s3.0);
        let mut updated: Vec<String> = Vec::new();
        assert(untimed_map(l.map()) == untimed_map(l.map()));
        // Created files.
        match self.detect_file_creation(ai_response) {
            Some(files) => {
                if files.len() > 0 {
                    match self.current_for(Ghost(l), Ghost(l.map())) {
                        Some(id) => {
                            if self.apply_status(id.as_str(), TodoStatus::Completed, Ghost(l), Ghost(l.map())) {
                                let names = crate::text::join_strings(&files, ", ");
                                let mut msg = chars_of("ファイル作成完了: ");
                                push_str_chars(&mut msg, names.as_str());
                                let text = string_of(&msg);
                                self.apply_result(id.as_str(), text, Ghost(l), Ghost(with_status(l.map(), id@, TodoStatus::Completed)));
                                updated.push(id);
                            }
                        },
                        None => {},
                    }
                }
            },
            None => {},
        }
        assert(self.tracks(l, s1.0));
        assert(updated.deep_view() =~= s1.1);
        // A reported command.
        match self.detect_command_execution(ai_response) {
            Some(c) => {
                match self.current_for(Ghost(l), Ghost(s1.0)) {
                    Some(id) => {
                        if c.success {
                            if self.apply_status(id.as_str(), TodoStatus::Completed, Ghost(l), Ghost(s1.0)) {
                                let mut msg = chars_of("コマンド実行完了: ");
                                push_str_chars(&mut msg, c.description.as_str());
                                let text = string_of(&msg);
                                self.apply_result(id.as_str(), text, Ghost(l), Ghost(with_status(s1.0, id@, TodoStatus::Completed)));
                                updated.push(id);
                            }
                        } else {
                            let mut msg = chars_of("コマンド実行失敗: ");
                            push_str_chars(&mut msg, c.description.as_str());
                            let text = string_of(&msg);
                            self.apply_error(id.as_str(), text, Ghost(l), Ghost(s1.0));
                            updated.push(id);
                        }
                    },
                    None => {},
                }
            },
            None => {},
        }
        assert(self.tracks(l, s2.0));
        assert(updated.deep_view() =~= s1.1 + s2.1);
        // A reported error.
        match self.detect_error_in_response(ai_response) {
            Some(e) => {
                match self.current_for(Ghost(l), Ghost(s2.0)) {
                    Some(id) => {
                        self.apply_error(id.as_str(), e, Ghost(l), Ghost(s2.0));
                        updated.push(id);
                    },
                    None => {},
                }
            },
            None => {},
        }
        assert(self.tracks(l, s3.0));
        assert(updated.deep_view() =~= s1.1 + s2.1 + s3.1);
        // The next ready task.
        proof {
            let f = self.current_list.unwrap();
            lemma_untimed_choices(f.map(), s3.0, order);
            lemma_first_ready_in_found(order, s3.0, 0);
        }
        match self.find_next_pending_item() {
            Some(next) => {
                if self.apply_status(next.as_str(), TodoStatus::InProgress, Ghost(l), Ghost(s3.0)) {
                    updated.push(next);
                }
            },
            None => {},
        }
        assert(self.tracks(l, s4.0));
        assert(updated.deep_view() =~= s1.1 + s2.1 + s3.1 + s4.1);
        updated
    }
}

proof fn lemma_current_pending_found(order: Seq<Seq<char>>, m: Map<Seq<char>, ItemView>)
    ensures
        current_pending(order, m) matches Some(id) ==> m.contains_key(id),
{
    lemma_first_with_status_found(order, m, TodoStatus::InProgress, 0);
    lemma_first_with_status_found(order, m, TodoStatus::Pending, 0);
}

proof fn lemma_first_with_status_found(order: Seq<Seq<char>>, m: Map<Seq<char>, ItemView>, st: TodoStatus, k: int)
    ensures
        first_with_status(order, m, st, k) matches Some(id) ==> m.contains_key(id),
    decreases order.len() - k,
{
    if 0 <= k < order.len() {
        lemma_first_with_status_found(order, m, st, k + 1);
    }
}

proof fn lemma_first_ready_in_found(order: Seq<Seq<char>>, m: Map<Seq<char>, ItemView>, k: int)
    ensures
        first_ready_in(order, m, k) matches Some(id) ==> m.contains_key(id),
    decreases order.len() - k,
{
    if 0 <= k < order.len() {
        lemma_first_ready_in_found(order, m, k + 1);
    }
}

} // verus!

verus! {

/// The status words of the model context.
pub open spec fn status_text(st: TodoStatus) -> Seq<char> {
    match st {
        TodoStatus::Pending => "⭕ Pending"@,
        TodoStatus::InProgress => "🔄 In Progress"@,
        TodoStatus::Completed => "✅ Completed"@,
        TodoStatus::Failed => "❌ Failed"@,
    }
}

/// The lines that describe one task to the model.
pub open spec fn item_context(v: ItemView) -> Seq<char> {
    "- "@ + status_text(v.status) + " "@ + v.title + "\n"@ + (if v.description.len() > 0 {
        "  Description: "@ + v.description + "\n"@
    } else {
        Seq::empty()
    }) + match v.error_message {
        Some(e) => "  Error: "@ + e + "\n"@,
        None => Seq::empty(),
    } + match v.tool_execution_result {
        Some(t) => "  Result: "@ + t + "\n"@,
        None => Seq::empty(),
    }
}

/// The lines that describe the tasks named by `order` that exist.
pub open spec fn items_context(order: Seq<Seq<char>>, m: Map<Seq<char>, ItemView>) -> Seq<char>
    decreases order.len(),
{
    if order.len() == 0 {
        Seq::empty()
    } else {
        items_context(order.drop_last(), m) + if m.contains_key(order.last()) {
            item_context(m[order.last()])
        } else {
            Seq::empty()
        }
    }
}

/// The text that describes the next step.
pub open spec fn step_text(item: ItemView) -> Seq<char> {
    "現在のステップ: "@ + item.title + "\n詳細: "@ + item.description
}

/// The closing instructions of the model context.
pub open spec fn context_instructions() -> Seq<char> {
    "\n**Instructions:**\n"@ + "- Please help with the current step or provide guidance on the next actions\n"@
        + "- If a step fails, suggest corrections or alternative approaches\n"@
        + "- Update TODO status based on the conversation progress\n"@
}

/// The description of a list given to the model.
pub open spec fn llm_context(l: TodoList) -> Seq<char> {
    "**TODO List: "@ + l.title@ + "**\n"@ + "Description: "@ + l.description@ + "\n"@ + "Status: "@
        + l.progress() + "\n\n"@ + match l.next_ready() {
        Some(item) => "**Current Step:**\n"@ + step_text(item) + "\n\n"@,
        None => Seq::empty(),
    } + "**All TODO Items:**\n"@ + items_context(l.order_view(), l.map()) + context_instructions()
}

fn push_status_text(out: &mut Vec<char>, st: TodoStatus)
    ensures
        final(out)@ == old(out)@ + status_text(st),
{
    match st {
        TodoStatus::Pending => push_str_chars(out, "⭕ Pending"),
        TodoStatus::InProgress => push_str_chars(out, "🔄 In Progress"),
        TodoStatus::Completed => push_str_chars(out, "✅ Completed"),
        TodoStatus::Failed => push_str_chars(out, "❌ Failed"),
    }
}

fn push_item_context(out: &mut Vec<char>, item: &TodoItem)
    ensures
        final(out)@ == old(out)@ + item_context(item@),
{
    let ghost o = out@;
    let ghost v = item@;
    push_str_chars(out, "- ");
    push_status_text(out, item.status);
    push_str_chars(out, " ");
    push_str_chars(out, item.title.as_str());
    push_str_chars(out, "\n");
    let ghost head = "- "@ + status_text(v.status) + " "@ + v.title + "\n"@;
    assert(out@ =~= o + head);
    let ghost o1 = out@;
    if item.description.as_str().unicode_len() > 0 {
        push_str_chars(out, "  Description: ");
        push_str_chars(out, item.description.as_str());
        push_str_chars(out, "\n");
    }
    let ghost desc = if v.description.len() > 0 {
        "  Description: "@ + v.description + "\n"@
    } else {
        Seq::<char>::empty()
    };
    assert(out@ =~= o1 + desc);
    let ghost o2 = out@;
    match &item.error_message {
        Some(e) => {
            push_str_chars(out, "  Error: ");
            push_str_chars(out, e.as_str());
            push_str_chars(out, "\n");
        },
        None => {},
    }
    let ghost err = match v.error_message {
        Some(e) => "  Error: "@ + e + "\n"@,
        None => Seq::<char>::empty(),
    };
    assert(out@ =~= o2 + err);
    let ghost o3 = out@;
    match &item.tool_execution_result {
        Some(t) => {
            push_str_chars(out, "  Result: ");
            push_str_chars(out, t.as_str());
            push_str_chars(out, "\n");
        },
        None => {},
    }
    let ghost res = match v.tool_execution_result {
        Some(t) => "  Result: "@ + t + "\n"@,
        None => Seq::<char>::empty(),
    };
    assert(out@ =~= o3 + res);
    assert(item_context(v) == head + desc + err + res);
    assert(out@ =~= o + item_context(v));
}

impl TodoList {
    fn push_items_context(&self, out: &mut Vec<char>)
        requires
            self.wf(),
        ensures
            final(out)@ == old(out)@ + items_context(self.order_view(), self.map()),
    {
        let mut k: usize = 0;
        let ghost start = out@;
        while k < self.order.len()
            invariant
                k <= self.order.len(),
                self.wf(),
                out@ == start + items_context(self.order_view().take(k as int), self.map()),
            decreases self.order.len() - k,
        {
            assert(self.order_view().take(k + 1).drop_last() =~= self.order_view().take(k as int));
            assert(self.order_view().take(k + 1).last() == self.order[k as int]@);
            match self.find_item(self.order[k].as_str()) {
                Some(i) => {
                    proof {
                        lemma_item_pos(self.items@, i as int);
                    }
                    let ghost o = out@;
                    push_item_context(out, &self.items[i]);
                    assert(out@ =~= o + item_context(self.map()[self.order_view()[k as int]]));
                },
                None => {},
            }
            k = k + 1;
        }
        assert(self.order_view().take(k as int) =~= self.order_view());
    }
}

impl TodoManager {
    /// The description of the current list for the model: title,
    /// description, progress, the next step, every task with its
    /// description, error and result, and closing instructions; empty when
    /// there is no list.
    pub fn get_context_for_llm(&self) -> (r: String)
        requires
            self.wf(),
        ensures
            r@ == match self.current_list {
                Some(l) => llm_context(l),
                None => Seq::empty(),
            },
    {
        match &self.current_list {
            Some(list) => {
                let mut out = chars_of("**TODO List: ");
                push_str_chars(&mut out, list.title.as_str());
                push_str_chars(&mut out, "**\n");
                push_str_chars(&mut out, "Description: ");
                push_str_chars(&mut out, list.description.as_str());
                push_str_chars(&mut out, "\n");
                push_str_chars(&mut out, "Status: ");
                let summary = list.get_progress_summary();
                push_str_chars(&mut out, summary.as_str());
                push_str_chars(&mut out, "\n\n");
                match list.get_current_step_description() {
                    Some(step) => {
                        push_str_chars(&mut out, "**Current Step:**\n");
                        push_str_chars(&mut out, step.as_str());
                        push_str_chars(&mut out, "\n\n");
                    },
                    None => {},
                }
                push_str_chars(&mut out, "**All TODO Items:**\n");
                list.push_items_context(&mut out);
                push_str_chars(&mut out, "\n**Instructions:**\n");
                push_str_chars(&mut out, "- Please help with the current step or provide guidance on the next actions\n");
                push_str_chars(&mut out, "- If a step fails, suggest corrections or alternative approaches\n");
                push_str_chars(&mut out, "- Update TODO status based on the conversation progress\n");
                let r = string_of(&out);
                assert(r@ =~= llm_context(*list));
                r
            },
            None => String::new(),
        }
    }
}

} // verus!

verus! {

/// The request sent to the model to correct a failed task.
pub open spec fn retry_context_text(v: ItemView) -> Seq<char> {
    "## 失敗したタスクの修正要請\n\n"@ + "**失敗したタスク**: "@ + v.title + "\n"@ + "**タスク詳細**: "@
        + v.description + "\n"@ + match v.error_message {
        Some(e) => "**エラー内容**: "@ + e + "\n"@,
        None => Seq::empty(),
    } + match v.tool_execution_result {
        Some(t) => "**実行結果**: "@ + t + "\n"@,
        None => Seq::empty(),
    } + "\n**修正要請**:\n"@ + "上記のエラーを分析し、適切な修正方法を提案してください。"@
        + "可能であれば修正されたコードやコマンドを提供してください。\n"@
}

/// The advice for an error, chosen by the words of its lower-cased text;
/// general advice naming the task's description otherwise.
pub open spec fn correction_for(lower: Seq<char>, description: Seq<char>) -> Seq<char> {
    if seq_contains(lower, "file not found"@) || seq_contains(lower, "ファイルが見つかりません"@) {
        "ファイルパスを確認し、正しいディレクトリにファイルが存在するかチェックしてください。相対パスではなく絶対パスを使用することを検討してください。"@
    } else if seq_contains(lower, "permission denied"@) || seq_contains(lower, "アクセスが拒否"@) {
        "ファイル・ディレクトリのアクセス権限を確認してください。sudo権限が必要な場合があります。"@
    } else if seq_contains(lower, "syntax error"@) || seq_contains(lower, "構文エラー"@) {
        "コードの構文を確認してください。括弧の対応、セミコロンの有無、インデントなどをチェックしてください。"@
    } else if seq_contains(lower, "import"@) || seq_contains(lower, "module"@) {
        "必要なモジュールやライブラリがインストールされているかチェックしてください。pip install や npm install などが必要な場合があります。"@
    } else if seq_contains(lower, "connection"@) || seq_contains(lower, "network"@) {
        "ネットワーク接続を確認してください。プロキシ設定やファイアウォールの設定が原因の可能性があります。"@
    } else if seq_contains(lower, "timeout"@) || seq_contains(lower, "タイムアウト"@) {
        "処理時間が長すぎる可能性があります。タイムアウト値を増やすか、処理を最適化してください。"@
    } else {
        "以下の観点から問題を確認してください:\n1. 入力パラメータの妥当性\n2. 依存関係の充足\n3. 環境設定の確認\n4. リソースの可用性\n\n元のタスク: "@
            + description + "\nエラー詳細を確認し、適切な修正を行ってください。"@
    }
}

/// The title of a task without its retry suffix: the part before the first
/// " (修正".
pub open spec fn base_title(title: Seq<char>) -> Seq<char> {
    match crate::text::first_occurrence(title, " (修正"@) {
        Some(i) => title.subrange(0, i),
        None => title,
    }
}

/// A title that starts with `base` and mentions a correction.
pub open spec fn is_retry_title(title: Seq<char>, base: Seq<char>) -> bool {
    crate::text::seq_starts_with(title, base) && seq_contains(title, "修正"@)
}

/// How many of `vals` have a retry title for `base`.
pub open spec fn count_retries(vals: Seq<ItemView>, base: Seq<char>) -> nat
    decreases vals.len(),
{
    if vals.len() == 0 {
        0
    } else {
        count_retries(vals.drop_last(), base) + if is_retry_title(vals.last().title, base) {
            1nat
        } else {
            0nat
        }
    }
}

/// The number of retries already made for task `id` of list `l`.
pub open spec fn retry_count(l: TodoList, id: Seq<char>) -> nat {
    if l.map().contains_key(id) {
        count_retries(l.values(), base_title(l.map()[id].title))
    } else {
        0
    }
}

/// The first position of `id` in `order` from `k` on.
pub open spec fn position_from(order: Seq<Seq<char>>, id: Seq<char>, k: int) -> Option<int>
    decreases order.len() - k,
{
    if k < 0 || k >= order.len() {
        None
    } else if order[k] == id {
        Some(k)
    } else {
        position_from(order, id, k + 1)
    }
}

/// The title of the `n`th retry of a task.
pub open spec fn retry_title(title: Seq<char>, n: nat) -> Seq<char> {
    title + " (修正 "@ + decimal_of(n) + "回目)"@
}

/// The description of a retry task.
pub open spec fn retry_description(suggestion: Seq<char>, error_context: Seq<char>) -> Seq<char> {
    "修正提案: "@ + suggestion + "\n\n元のエラー: "@ + error_context
}

fn base_title_of(title: &str) -> (r: Vec<char>)
    ensures
        r@ == base_title(title@),
{
    let t = chars_of(title);
    let pat = chars_of(" (修正");
    match crate::text::find_chars(&t, &pat) {
        Some(p) => slice_chars(&t, 0, p),
        None => t,
    }
}

impl TodoList {
    fn count_retry_titles(&self, base: &Vec<char>) -> (r: usize)
        ensures
            r == count_retries(self.values(), base@),
    {
        let mark = chars_of("修正");
        let mut c: usize = 0;
        let mut k: usize = 0;
        while k < self.items.len()
            invariant
                k <= self.items.len(),
                mark@ == "修正"@,
                c == count_retries(self.values().take(k as int), base@),
                c <= k,
            decreases self.items.len() - k,
        {
            assert(self.values().take(k + 1).drop_last() =~= self.values().take(k as int));
            let t = chars_of(self.items[k].title.as_str());
            if crate::text::starts_with_chars(&t, base) && contains_chars(&t, &mark) {
                c = c + 1;
            }
            k = k + 1;
        }
        assert(self.values().take(k as int) =~= self.values());
        c
    }
}

impl TodoManager {
    /// The correction request for a failed task of the current list, or
    /// `None` when there is no list or no such task.
    pub fn generate_retry_context(&self, failed_item_id: &str) -> (r: Option<String>)
        requires
            self.wf(),
        ensures
            match self.current_list {
                Some(l) => if l.map().contains_key(failed_item_id@) {
                    r matches Some(s) && s@ == retry_context_text(l.map()[failed_item_id@])
                } else {
                    r is None
                },
                None => r is None,
            },
    {
        match &self.current_list {
            Some(list) => match list.find_item(failed_item_id) {
                Some(i) => {
                    proof {
                        lemma_item_pos(list.items@, i as int);
                    }
                    let item = &list.items[i];
                    let ghost v = item@;
                    let mut out = chars_of("## 失敗したタスクの修正要請\n\n");
                    push_str_chars(&mut out, "**失敗したタスク**: ");
                    push_str_chars(&mut out, item.title.as_str());
                    push_str_chars(&mut out, "\n");
                    push_str_chars(&mut out, "**タスク詳細**: ");
                    push_str_chars(&mut out, item.description.as_str());
                    push_str_chars(&mut out, "\n");
                    let ghost o1 = out@;
                    match &item.error_message {
                        Some(e) => {
                            push_str_chars(&mut out, "**エラー内容**: ");
                            push_str_chars(&mut out, e.as_str());
                            push_str_chars(&mut out, "\n");
                        },
                        None => {},
                    }
                    let ghost err = match v.error_message {
                        Some(e) => "**エラー内容**: "@ + e + "\n"@,
                        None => Seq::<char>::empty(),
                    };
                    assert(out@ =~= o1 + err);
                    let ghost o2 = out@;
                    match &item.tool_execution_result {
                        Some(t) => {
                            push_str_chars(&mut out, "**実行結果**: ");
                            push_str_chars(&mut out, t.as_str());
                            push_str_chars(&mut out, "\n");
                        },
                        None => {},
                    }
                    let ghost res = match v.tool_execution_result {
                        Some(t) => "**実行結果**: "@ + t + "\n"@,
                        None => Seq::<char>::empty(),
                    };
                    assert(out@ =~= o2 + res);
                    push_str_chars(&mut out, "\n**修正要請**:\n");
                    push_str_chars(&mut out, "上記のエラーを分析し、適切な修正方法を提案してください。");
                    push_str_chars(&mut out, "可能であれば修正されたコードやコマンドを提供してください。\n");
                    let r = string_of(&out);
                    assert(r@ =~= retry_context_text(v));
                    Some(r)
                },
                None => None,
            },
            None => None,
        }
    }

    /// Advice for correcting a failed task, chosen by the error text.
    pub fn generate_correction_suggestion_static(failed_title: &str, failed_description: &str, error_context: &str) -> (r: String)
        ensures
            r@ == correction_for(lowercase_of(error_context@), failed_description@),
    {
        let lower_s = to_lowercase(error_context);
        let lower = lower_s.as_str();
        if crate::text::contains_str(lower, "file not found") || crate::text::contains_str(lower, "ファイルが見つかりません") {
            crate::text::to_owned_string("ファイルパスを確認し、正しいディレクトリにファイルが存在するかチェックしてください。相対パスではなく絶対パスを使用することを検討してください。")
        } else if crate::text::contains_str(lower, "permission denied") || crate::text::contains_str(lower, "アクセスが拒否") {
            crate::text::to_owned_string("ファイル・ディレクトリのアクセス権限を確認してください。sudo権限が必要な場合があります。")
        } else if crate::text::contains_str(lower, "syntax error") || crate::text::contains_str(lower, "構文エラー") {
            crate::text::to_owned_string("コードの構文を確認してください。括弧の対応、セミコロンの有無、インデントなどをチェックしてください。")
        } else if crate::text::contains_str(lower, "import") || crate::text::contains_str(lower, "module") {
            crate::text::to_owned_string("必要なモジュールやライブラリがインストールされているかチェックしてください。pip install や npm install などが必要な場合があります。")
        } else if crate::text::contains_str(lower, "connection") || crate::text::contains_str(lower, "network") {
            crate::text::to_owned_string("ネットワーク接続を確認してください。プロキシ設定やファイアウォールの設定が原因の可能性があります。")
        } else if crate::text::contains_str(lower, "timeout") || crate::text::contains_str(lower, "タイムアウト") {
            crate::text::to_owned_string("処理時間が長すぎる可能性があります。タイムアウト値を増やすか、処理を最適化してください。")
        } else {
            let mut out = chars_of("以下の観点から問題を確認してください:\n1. 入力パラメータの妥当性\n2. 依存関係の充足\n3. 環境設定の確認\n4. リソースの可用性\n\n元のタスク: ");
            push_str_chars(&mut out, failed_description);
            push_str_chars(&mut out, "\nエラー詳細を確認し、適切な修正を行ってください。");
            string_of(&out)
        }
    }

    /// The number of retries already made for a task: the tasks whose title
    /// starts with its base title and mentions a correction.
    pub fn get_retry_count(&self, original_item_id: &str) -> (r: usize)
        requires
            self.wf(),
        ensures
            r == match self.current_list {
                Some(l) => retry_count(l, original_item_id@),
                None => 0,
            },
    {
        match &self.current_list {
            Some(list) => match list.find_item(original_item_id) {
                Some(i) => {
                    proof {
                        lemma_item_pos(list.items@, i as int);
                    }
                    let base = base_title_of(list.items[i].title.as_str());
                    list.count_retry_titles(&base)
                },
                None => 0,
            },
            None => 0,
        }
    }
}

} // verus!

verus! {

impl TodoList {
    fn position_in_order(&self, id: &str) -> (r: Option<usize>)
        ensures
            match position_from(self.order_view(), id@, 0) {
                Some(p) => r == Some(p as usize) && 0 <= p < self.order_view().len(),
                None => r is None,
            },
            r matches Some(q) ==> q < self.order@.len(),
    {
        let mut k: usize = 0;
        while k < self.order.len()
            invariant
                k <= self.order.len(),
                position_from(self.order_view(), id@, 0) == position_from(self.order_view(), id@, k as int),
            decreases self.order.len() - k,
        {
            assert(self.order_view()[k as int] == self.order[k as int]@);
            if crate::text::str_eq(self.order[k].as_str(), id) {
                return Some(k);
            }
            k = k + 1;
        }
        None
    }
}

/// The reply when a task has been retried too often.
pub open spec fn retry_limit_text(title: Seq<char>) -> Seq<char> {
    "最大リトライ回数（3回）に達しました。手動での修正が必要です:\n"@ + title
}

/// The reply when a retry task has been planned.
pub open spec fn retry_planned_text(id: Seq<char>, suggestion: Seq<char>) -> Seq<char> {
    "修正提案を作成しました: "@ + id + "\n提案内容: "@ + suggestion
}

impl TodoManager {
    /// Plans a retry of a failed task: unless it has been retried three
    /// times already, a new task with correction advice goes in progress
    /// right after it in the execution order (the caller saves).
    pub fn handle_failed_todo_recursive(&mut self, failed_item_id: &str, error_context: &str) -> (r: Result<String, TodoError>)
        requires
            old(self).wf(),
        ensures
            final(self).wf(),
            final(self).storage_path == old(self).storage_path,
            match old(self).current_list {
                None => r == Err::<String, TodoError>(TodoError::NoActiveList) && final(self).current_list is None,
                Some(l) => if !l.map().contains_key(failed_item_id@) {
                    r == Err::<String, TodoError>(TodoError::ItemNotFound) && final(self).current_list == Some(l)
                } else {
                    let v = l.map()[failed_item_id@];
                    let n = retry_count(l, failed_item_id@);
                    let advice = correction_for(lowercase_of(error_context@), v.description);
                    if n >= 3 {
                        r matches Ok(s) && s@ == retry_limit_text(v.title) && final(self).current_list == Some(l)
                    } else {
                        match position_from(l.order_view(), failed_item_id@, 0) {
                            None => r == Err::<String, TodoError>(TodoError::NotInOrder) && final(self).current_list == Some(l),
                            Some(p) => final(self).current_list matches Some(f) && r matches Ok(s) && {
                                let nid = f.order_view()[p + 1];
                                &&& f.order_view() == l.order_view().insert(p + 1, nid)
                                &&& f.map() == l.map().insert(nid, f.map()[nid])
                                &&& f.map()[nid].id == nid
                                &&& f.map()[nid].title == retry_title(v.title, n + 1)
                                &&& f.map()[nid].description == retry_description(advice, error_context@)
                                &&& f.map()[nid].status == TodoStatus::InProgress
                                &&& f.map()[nid].dependencies.len() == 0
                                &&& f.map()[nid].tool_execution_result is None
                                &&& f.map()[nid].error_message is None
                                &&& f.title@ == l.title@ && f.description@ == l.description@ && f.id@ == l.id@
                                &&& f.is_active == l.is_active
                                &&& s@ == retry_planned_text(nid, advice)
                                &&& exists|u: u128| nid == uuid_text(u)
                            },
                        }
                    }
                },
            },
    {
        let retries = self.get_retry_count(failed_item_id);
        if self.current_list.is_none() {
            return Err(TodoError::NoActiveList);
        }
        let ghost l0 = self.current_list.unwrap();
        let mut list = self.current_list.take().unwrap();
        let i = match list.find_item(failed_item_id) {
            Some(i) => i,
            None => {
                self.current_list = Some(list);
                return Err(TodoError::ItemNotFound);
            },
        };
        proof {
            lemma_item_pos(list.items@, i as int);
        }
        let failed_title = list.items[i].title.clone();
        let failed_description = list.items[i].description.clone();
        if retries >= 3 {
            let mut msg = chars_of("最大リトライ回数（3回）に達しました。手動での修正が必要です:\n");
            push_str_chars(&mut msg, failed_title.as_str());
            self.current_list = Some(list);
            return Ok(string_of(&msg));
        }
        let suggestion = Self::generate_correction_suggestion_static(
            failed_title.as_str(),
            failed_description.as_str(),
            error_context,
        );
        let mut t = chars_of(failed_title.as_str());
        push_str_chars(&mut t, " (修正 ");
        push_str_chars(&mut t, usize_to_string(retries + 1).as_str());
        push_str_chars(&mut t, "回目)");
        let mut d = chars_of("修正提案: ");
        push_str_chars(&mut d, suggestion.as_str());
        push_str_chars(&mut d, "\n\n元のエラー: ");
        push_str_chars(&mut d, error_context);
        let mut item = TodoItem::new(string_of(&t), string_of(&d));
        item.update_status(TodoStatus::InProgress);
        let retry_id = item.id.clone();
        let olen = list.order.len();
        match list.position_in_order(failed_item_id) {
            Some(p) => {
                let ghost before = list.order_view();
                list.put_item(item);
                list.order.insert(p + 1, retry_id.clone());
                assert(list.order_view() =~= before.insert(p + 1, retry_id@));
                let mut msg = chars_of("修正提案を作成しました: ");
                push_str_chars(&mut msg, retry_id.as_str());
                push_str_chars(&mut msg, "\n提案内容: ");
                push_str_chars(&mut msg, suggestion.as_str());
                self.current_list = Some(list);
                proof {
                    let f = self.current_list.unwrap();
                    let nid = f.order_view()[p + 1];
                    assert(nid == retry_id@);
                    assert(f.map()[nid].title == retry_title(failed_title@, (retries + 1) as nat));
                    assert(f.map()[nid].description == retry_description(suggestion@, error_context@));
                    assert(exists|u: u128| nid == uuid_text(u));
                }
                Ok(string_of(&msg))
            },
            None => {
                self.current_list = Some(list);
                Err(TodoError::NotInOrder)
            },
        }
    }
}

/// A list titled "タスク: " and the first fifty characters of a request,
/// with the tasks planned for the request (all pending).
pub fn create_todo_list_from_request(user_request: &str) -> (r: TodoList)
    ensures
        r.wf(),
        r.is_active,
        r.title@ == "タスク: "@ + user_request@.take(
            if user_request@.len() < 50 {
                user_request@.len() as int
            } else {
                50
            },
        ),
        r.description@ == user_request@,
        untimed_map(r.map()) == untimed_map(
            insert_all(
                Map::empty(),
                planned(r.order_view(), project_todos(project_type_of(lowercase_of(user_request@)))),
            ),
        ),
        r.order_view().len() == project_todos(project_type_of(lowercase_of(user_request@))).len(),
{
    let manager = TodoManager::new();
    let req = chars_of(user_request);
    let n: usize = if req.len() < 50 {
        req.len()
    } else {
        50
    };
    let mut title = chars_of("タスク: ");
    let head = slice_chars(&req, 0, n);
    push_all(&mut title, &head);
    let mut list = TodoList::new(string_of(&title), crate::text::to_owned_string(user_request));
    let ghost todos = project_todos(project_type_of(lowercase_of(user_request@)));
    let mut items = manager.generate_project_specific_todos(user_request);
    let ghost all = items@;
    let count = items.len();
    let mut k: usize = 0;
    assert(untimed_map(list.map()) =~= untimed_map(insert_all(Map::empty(), planned(Seq::empty(), todos.take(0)))));
    while items.len() > 0
        invariant
            list.wf(),
            k + items@.len() == all.len(),
            all.len() <= usize::MAX,
            all.len() == todos.len(),
            item_texts(all) == todos,
            forall|i: int| 0 <= i < all.len() ==> unstarted_item(#[trigger] all[i]@),
            items@ == all.skip(k as int),
            list.order_view().len() == k,
            untimed_map(list.map()) == untimed_map(insert_all(Map::empty(), planned(list.order_view(), todos.take(k as int)))),
            list.title@ == title@,
            list.description@ == user_request@,
            list.is_active,
        decreases items@.len(),
    {
        let item = items.remove(0);
        let ghost iv = item@;
        let ghost before_order = list.order_view();
        let ghost before_map = list.map();
        list.add_item(item);
        proof {
            assert(all[k as int] == item);
            assert(items@ =~= all.skip(k + 1));
            let ids = list.order_view();
            assert(ids.drop_last() =~= before_order);
            let p_new = planned(ids, todos.take(k + 1));
            let p_old = planned(before_order, todos.take(k as int));
            assert(p_new.drop_last() =~= p_old);
            assert(item_texts(all)[k as int] == todos[k as int]);
            assert(untimed(p_new.last()) == untimed(iv));
            assert(untimed_map(list.map()) =~= untimed_map(insert_all(Map::empty(), p_new))) by {
                assert forall|key: Seq<char>| #[trigger] list.map().contains_key(key) implies untimed(list.map()[key]) == untimed(insert_all(Map::empty(), p_new)[key]) by {
                    if key != iv.id {
                        assert(untimed_map(before_map)[key] == untimed_map(insert_all(Map::empty(), p_old))[key]);
                    }
                }
                assert(list.map().dom() =~= insert_all(Map::empty(), p_new).dom()) by {
                    assert(before_map.dom() =~= untimed_map(before_map).dom());
                    assert(insert_all(Map::empty(), p_old).dom() =~= untimed_map(insert_all(Map::empty(), p_old)).dom());
                }
            }
        }
        k = k + 1;
    }
    assert(todos.take(k as int) =~= todos);
    list
}

} // verus!

verus! {

/// The task proposed next is pending and every task it depends on exists
/// and has completed.
pub proof fn law_next_ready_dependencies_done(l: TodoList)
    requires
        l.wf(),
        l.next_ready() is Some,
    ensures
        l.next_ready().unwrap().status == TodoStatus::Pending,
        forall|d: int|
            0 <= d < l.next_ready().unwrap().dependencies.len() ==> l.map().contains_key(
                #[trigger] l.next_ready().unwrap().dependencies[d],
            ) && l.map()[l.next_ready().unwrap().dependencies[d]].status == TodoStatus::Completed,
{
    lemma_first_ready(l.items@, l.order_view(), 0);
    lemma_first_ready_found(l.order_view(), l.map(), completed_ids(l.values()), 0);
    lemma_completed_ids(l.items@);
    let v = l.next_ready().unwrap();
    assert forall|d: int| 0 <= d < v.dependencies.len() implies l.map().contains_key(
        #[trigger] v.dependencies[d],
    ) && l.map()[v.dependencies[d]].status == TodoStatus::Completed by {
        assert(completed_ids(l.values()).contains(v.dependencies[d]));
    }
}

/// The completed, running and failed tasks together never outnumber the
/// tasks.
pub proof fn law_progress_counts(vals: Seq<ItemView>)
    ensures
        count_status(vals, TodoStatus::Completed) + count_status(vals, TodoStatus::InProgress) + count_status(
            vals,
            TodoStatus::Failed,
        ) <= vals.len(),
    decreases vals.len(),
{
    if vals.len() > 0 {
        law_progress_counts(vals.drop_last());
    }
}

/// The reply rules keep the set of tasks, and every task they report as
/// touched is one of them.
pub proof fn law_ai_update_touches_existing(order: Seq<Seq<char>>, m: Map<Seq<char>, ItemView>, response: Seq<char>)
    ensures
        ai_update(order, m, response).0.dom() == m.dom(),
        forall|i: int|
            0 <= i < ai_update(order, m, response).1.len() ==> m.contains_key(
                #[trigger] ai_update(order, m, response).1[i],
            ),
{
    let lines = lines_of(response);
    let s1 = files_step(order, m, lines);
    let s2 = command_step(order, s1.0, lines);
    let s3 = error_step(order, s2.0, lines);
    let s4 = advance_step(order, s3.0);
    lemma_current_pending_found(order, m);
    lemma_current_pending_found(order, s1.0);
    lemma_current_pending_found(order, s2.0);
    lemma_first_ready_in_found(order, s3.0, 0);
    assert(s1.0.dom() =~= m.dom());
    assert(s2.0.dom() =~= m.dom());
    assert(s3.0.dom() =~= m.dom());
    assert(s4.0.dom() =~= m.dom());
    let all = s1.1 + s2.1 + s3.1 + s4.1;
    assert forall|i: int| 0 <= i < all.len() implies m.contains_key(#[trigger] all[i]) by {
        if i < s1.1.len() {
        } else if i < s1.1.len() + s2.1.len() {
            assert(all[i] == s2.1[i - s1.1.len()]);
        } else if i < s1.1.len() + s2.1.len() + s3.1.len() {
            assert(all[i] == s3.1[i - s1.1.len() - s2.1.len()]);
        } else {
            assert(all[i] == s4.1[i - s1.1.len() - s2.1.len() - s3.1.len()]);
        }
    }
}

/// A completed list stays completed when a task's status is set to
/// completed or failed.
pub proof fn law_completion_stable(m: Map<Seq<char>, ItemView>, id: Seq<char>, st: TodoStatus)
    requires
        st == TodoStatus::Completed || st == TodoStatus::Failed,
        forall|k: Seq<char>| #[trigger] m.contains_key(k) ==> m[k].status == TodoStatus::Completed || m[k].status
            == TodoStatus::Failed,
    ensures
        forall|k: Seq<char>| #[trigger] with_status(m, id, st).contains_key(k) ==> with_status(m, id, st)[k].status
            == TodoStatus::Completed || with_status(m, id, st)[k].status == TodoStatus::Failed,
{
}

} // verus!

verus! {

/// A line holds one of the words `Error:`, `❌`, `Failed`, `Exception:` or
/// `panic!` exactly when it holds one of the reply's error marks.
proof fn lemma_error_marks(l: Seq<char>)
    ensures
        contains_any_seq(l, error_patterns()) <==> (seq_contains(l, "Error:"@) || seq_contains(l, "❌"@)
            || seq_contains(l, "Failed"@) || seq_contains(l, "Exception:"@) || seq_contains(l, "panic!"@)),
{
    let p = error_patterns();
    assert(p[0] == "Error:"@);
    assert(p[1] == "❌"@);
    assert(p[2] == "Failed"@);
    assert(p[3] == "Exception:"@);
    assert(p[4] == "panic!"@);
    assert(p.len() == 5);
}

proof fn lemma_error_from(lines: Seq<Seq<char>>, j: int, k: int)
    requires
        0 <= j <= k < lines.len(),
        contains_any_seq(lines[k], error_patterns()),
        forall|i: int| 0 <= i < k ==> !contains_any_seq(#[trigger] lines[i], error_patterns()),
    ensures
        detect_error_from(lines, j) == Some(lines[k]),
    decreases k - j,
{
    if j < k {
        lemma_error_from(lines, j + 1, k);
    }
}

proof fn lemma_no_error_from(lines: Seq<Seq<char>>, j: int)
    requires
        0 <= j,
        forall|i: int| 0 <= i < lines.len() ==> !contains_any_seq(#[trigger] lines[i], error_patterns()),
    ensures
        detect_error_from(lines, j) is None,
    decreases lines.len() - j,
{
    if j < lines.len() {
        lemma_no_error_from(lines, j + 1);
    }
}

/// The error line of a reply (what `detect_error_in_response` returns) is
/// its first line holding `Error:`, `❌`, `Failed`, `Exception:` or
/// `panic!`; a reply with no such line reports no error.
pub proof fn law_error_line_is_first_marked(lines: Seq<Seq<char>>)
    ensures
        forall|k: int|
            0 <= k < lines.len() && (seq_contains(#[trigger] lines[k], "Error:"@) || seq_contains(lines[k], "❌"@)
                || seq_contains(lines[k], "Failed"@) || seq_contains(lines[k], "Exception:"@) || seq_contains(
                lines[k],
                "panic!"@,
            )) && (forall|i: int|
                0 <= i < k ==> !(seq_contains(#[trigger] lines[i], "Error:"@) || seq_contains(lines[i], "❌"@)
                    || seq_contains(lines[i], "Failed"@) || seq_contains(lines[i], "Exception:"@) || seq_contains(
                    lines[i],
                    "panic!"@,
                ))) ==> detect_error_from(lines, 0) == Some(lines[k]),
        (forall|i: int|
            0 <= i < lines.len() ==> !(seq_contains(#[trigger] lines[i], "Error:"@) || seq_contains(lines[i], "❌"@)
                || seq_contains(lines[i], "Failed"@) || seq_contains(lines[i], "Exception:"@) || seq_contains(
                lines[i],
                "panic!"@,
            ))) ==> detect_error_from(lines, 0) is None,
{
    assert forall|i: int| 0 <= i < lines.len() implies (contains_any_seq(#[trigger] lines[i], error_patterns()) <==> (
    seq_contains(lines[i], "Error:"@) || seq_contains(lines[i], "❌"@) || seq_contains(lines[i], "Failed"@)
        || seq_contains(lines[i], "Exception:"@) || seq_contains(lines[i], "panic!"@))) by {
        lemma_error_marks(lines[i]);
    }
    assert forall|k: int|
        0 <= k < lines.len() && (seq_contains(#[trigger] lines[k], "Error:"@) || seq_contains(lines[k], "❌"@)
            || seq_contains(lines[k], "Failed"@) || seq_contains(lines[k], "Exception:"@) || seq_contains(
            lines[k],
            "panic!"@,
        )) && (forall|i: int|
            0 <= i < k ==> !(seq_contains(#[trigger] lines[i], "Error:"@) || seq_contains(lines[i], "❌"@)
                || seq_contains(lines[i], "Failed"@) || seq_contains(lines[i], "Exception:"@) || seq_contains(
                lines[i],
                "panic!"@,
            ))) implies detect_error_from(lines, 0) == Some(lines[k]) by {
        assert forall|i: int| 0 <= i < k implies !contains_any_seq(#[trigger] lines[i], error_patterns()) by {
            lemma_error_marks(lines[i]);
        }
        lemma_error_from(lines, 0, k);
    }
    if forall|i: int|
        0 <= i < lines.len() ==> !(seq_contains(#[trigger] lines[i], "Error:"@) || seq_contains(lines[i], "❌"@)
            || seq_contains(lines[i], "Failed"@) || seq_contains(lines[i], "Exception:"@) || seq_contains(
            lines[i],
            "panic!"@,
        )) {
        lemma_no_error_from(lines, 0);
    }
}

proof fn lemma_first_ready_pending(order: Seq<Seq<char>>, m: Map<Seq<char>, ItemView>, k: int)
    ensures
        first_ready_in(order, m, k) matches Some(x) ==> m.contains_key(x) && m[x].status == TodoStatus::Pending,
    decreases order.len() - k,
{
    if 0 <= k < order.len() {
        lemma_first_ready_pending(order, m, k + 1);
    }
}

/// A reply that creates no file and reports no command, but whose line `k`
/// is its first holding `Error:`, `❌`, `Failed`, `Exception:` or `panic!`,
/// fails the task being worked on with that line as its error message; that
/// task is the first one the update reports as touched, and it stays failed
/// when the next task is started.
pub proof fn law_reported_error_fails_current(
    order: Seq<Seq<char>>,
    m: Map<Seq<char>, ItemView>,
    response: Seq<char>,
    k: int,
    id: Seq<char>,
)
    requires
        0 <= k < lines_of(response).len(),
        seq_contains(lines_of(response)[k], "Error:"@) || seq_contains(lines_of(response)[k], "❌"@)
            || seq_contains(lines_of(response)[k], "Failed"@) || seq_contains(lines_of(response)[k], "Exception:"@)
            || seq_contains(lines_of(response)[k], "panic!"@),
        forall|i: int|
            0 <= i < k ==> !(seq_contains(#[trigger] lines_of(response)[i], "Error:"@) || seq_contains(
                lines_of(response)[i],
                "❌"@,
            ) || seq_contains(lines_of(response)[i], "Failed"@) || seq_contains(lines_of(response)[i], "Exception:"@)
                || seq_contains(lines_of(response)[i], "panic!"@)),
        created_files(lines_of(response)).len() == 0,
        detect_command_from(lines_of(response), 0) is None,
        current_pending(order, m) == Some(id),
    ensures
        ai_update(order, m, response).0.contains_key(id),
        ai_update(order, m, response).0[id].status == TodoStatus::Failed,
        ai_update(order, m, response).0[id].error_message == Some(lines_of(response)[k]),
        ai_update(order, m, response).1.len() >= 1,
        ai_update(order, m, response).1[0] == id,
{
    let lines = lines_of(response);
    law_error_line_is_first_marked(lines);
    assert(detect_error_from(lines, 0) == Some(lines[k]));
    lemma_current_pending_found(order, m);
    let s1 = files_step(order, m, lines);
    let s2 = command_step(order, s1.0, lines);
    let s3 = error_step(order, s2.0, lines);
    let s4 = advance_step(order, s3.0);
    assert(s1 == (m, Seq::<Seq<char>>::empty()));
    assert(s2 == (m, Seq::<Seq<char>>::empty()));
    assert(s3.0 == with_error(m, id, lines[k]));
    assert(s3.1 == seq![id]);
    assert(s3.0[id].status == TodoStatus::Failed);
    lemma_first_ready_pending(order, s3.0, 0);
    let all = s1.1 + s2.1 + s3.1 + s4.1;
    assert(all[0] == id);
}

/// The advice for a failed task: an error text whose lower-cased form
/// mentions `import` or `module`, and none of the file, permission or syntax
/// problems checked before, gets the module-install advice; one that
/// mentions a missing file gets the path advice; one that mentions none of
/// the known problems gets the general advice naming the task.
pub proof fn law_correction_advice(lower: Seq<char>, description: Seq<char>)
    ensures
        seq_contains(lower, "file not found"@) ==> correction_for(lower, description)
            == "ファイルパスを確認し、正しいディレクトリにファイルが存在するかチェックしてください。相対パスではなく絶対パスを使用することを検討してください。"@,
        (seq_contains(lower, "import"@) || seq_contains(lower, "module"@)) && !seq_contains(lower, "file not found"@)
            && !seq_contains(lower, "ファイルが見つかりません"@) && !seq_contains(lower, "permission denied"@)
            && !seq_contains(lower, "アクセスが拒否"@) && !seq_contains(lower, "syntax error"@) && !seq_contains(
            lower,
            "構文エラー"@,
        ) ==> correction_for(lower, description)
            == "必要なモジュールやライブラリがインストールされているかチェックしてください。pip install や npm install などが必要な場合があります。"@,
        !seq_contains(lower, "file not found"@) && !seq_contains(lower, "ファイルが見つかりません"@) && !seq_contains(
            lower,
            "permission denied"@,
        ) && !seq_contains(lower, "アクセスが拒否"@) && !seq_contains(lower, "syntax error"@) && !seq_contains(
            lower,
            "構文エラー"@,
        ) && !seq_contains(lower, "import"@) && !seq_contains(lower, "module"@) && !seq_contains(lower, "connection"@)
            && !seq_contains(lower, "network"@) && !seq_contains(lower, "timeout"@) && !seq_contains(
            lower,
            "タイムアウト"@,
        ) ==> correction_for(lower, description)
            == "以下の観点から問題を確認してください:\n1. 入力パラメータの妥当性\n2. 依存関係の充足\n3. 環境設定の確認\n4. リソースの可用性\n\n元のタスク: "@
            + description + "\nエラー詳細を確認し、適切な修正を行ってください。"@,
        seq_contains(lower, "permission denied"@) && !seq_contains(lower, "file not found"@) && !seq_contains(
            lower,
            "ファイルが見つかりません"@,
        ) ==> correction_for(lower, description) == "ファイル・ディレクトリのアクセス権限を確認してください。sudo権限が必要な場合があります。"@,
        seq_contains(lower, "syntax error"@) && !seq_contains(lower, "file not found"@) && !seq_contains(
            lower,
            "ファイルが見つかりません"@,
        ) && !seq_contains(lower, "permission denied"@) && !seq_contains(lower, "アクセスが拒否"@) ==> correction_for(
            lower,
            description,
        ) == "コードの構文を確認してください。括弧の対応、セミコロンの有無、インデントなどをチェックしてください。"@,
        (seq_contains(lower, "connection"@) || seq_contains(lower, "network"@)) && !seq_contains(lower, "file not found"@)
            && !seq_contains(lower, "ファイルが見つかりません"@) && !seq_contains(lower, "permission denied"@)
            && !seq_contains(lower, "アクセスが拒否"@) && !seq_contains(lower, "syntax error"@) && !seq_contains(
            lower,
            "構文エラー"@,
        ) && !seq_contains(lower, "import"@) && !seq_contains(lower, "module"@) ==> correction_for(lower, description)
            == "ネットワーク接続を確認してください。プロキシ設定やファイアウォールの設定が原因の可能性があります。"@,
        seq_contains(lower, "timeout"@) && !seq_contains(lower, "file not found"@) && !seq_contains(
            lower,
            "ファイルが見つかりません"@,
        ) && !seq_contains(lower, "permission denied"@) && !seq_contains(lower, "アクセスが拒否"@) && !seq_contains(
            lower,
            "syntax error"@,
        ) && !seq_contains(lower, "構文エラー"@) && !seq_contains(lower, "import"@) && !seq_contains(lower, "module"@)
            && !seq_contains(lower, "connection"@) && !seq_contains(lower, "network"@) ==> correction_for(
            lower,
            description,
        ) == "処理時間が長すぎる可能性があります。タイムアウト値を増やすか、処理を最適化してください。"@,
{
}

/// The titles of a plan, in order.
pub open spec fn plan_titles(p: Seq<(Seq<char>, Seq<char>)>) -> Seq<Seq<char>> {
    p.map_values(|t: (Seq<char>, Seq<char>)| t.0)
}

/// The plan a lower-cased description gets: a Python request gets the five
/// Python tasks, a Rust request the five Rust tasks, a web request the five
/// web tasks, and a request naming no kind the five general tasks.
pub proof fn law_project_plans(d: Seq<char>)
    ensures
        seq_contains(d, "python"@) && !contains_any_seq(d, web_keywords()) && !contains_any_seq(d, rust_keywords())
            ==> plan_titles(project_todos(project_type_of(d))) == seq![
            "仮想環境作成"@,
            "依存関係管理"@,
            "メイン機能実装"@,
            "パッケージ化"@,
            "テスト・ドキュメント"@,
        ],
        (seq_contains(d, "rust"@) || seq_contains(d, "cargo"@)) && !contains_any_seq(d, web_keywords()) ==> plan_titles(
            project_todos(project_type_of(d)),
        ) == seq!["Cargoプロジェクト作成"@, "依存関係設定"@, "コア機能実装"@, "エラーハンドリング"@, "テスト作成"@],
        seq_contains(d, "web"@) ==> plan_titles(project_todos(project_type_of(d))) == seq![
            "プロジェクト設定"@,
            "フロントエンド実装"@,
            "バックエンド実装"@,
            "データベース設計"@,
            "テスト・デプロイ"@,
        ],
        !contains_any_seq(d, web_keywords()) && !contains_any_seq(d, rust_keywords()) && !contains_any_seq(
            d,
            python_keywords(),
        ) && !contains_any_seq(d, data_keywords()) && !contains_any_seq(d, mobile_keywords()) && !contains_any_seq(
            d,
            devops_keywords(),
        ) && !contains_any_seq(d, file_keywords()) ==> plan_titles(project_todos(project_type_of(d))) == seq![
            "要件分析"@,
            "設計・計画"@,
            "実装"@,
            "テスト・検証"@,
            "最終調整"@,
        ],
{
    law_project_type_words(d);
    assert(plan_titles(project_todos(ProjectType::PythonDevelopment)) =~= seq![
        "仮想環境作成"@,
        "依存関係管理"@,
        "メイン機能実装"@,
        "パッケージ化"@,
        "テスト・ドキュメント"@,
    ]);
    assert(plan_titles(project_todos(ProjectType::RustDevelopment)) =~= seq![
        "Cargoプロジェクト作成"@,
        "依存関係設定"@,
        "コア機能実装"@,
        "エラーハンドリング"@,
        "テスト作成"@,
    ]);
    assert(plan_titles(project_todos(ProjectType::WebDevelopment)) =~= seq![
        "プロジェクト設定"@,
        "フロントエンド実装"@,
        "バックエンド実装"@,
        "データベース設計"@,
        "テスト・デプロイ"@,
    ]);
    assert(plan_titles(project_todos(ProjectType::Generic)) =~= seq![
        "要件分析"@,
        "設計・計画"@,
        "実装"@,
        "テスト・検証"@,
        "最終調整"@,
    ]);
}

/// How a lower-cased description names its project type: one mentioning
/// `web` is a web project; one mentioning `rust` or `cargo` and no web word
/// is a Rust project; one mentioning `python` and no web or Rust word is a
/// Python project; one mentioning none of the kinds' words is generic.
pub proof fn law_project_type_words(d: Seq<char>)
    ensures
        seq_contains(d, "web"@) ==> project_type_of(d) == ProjectType::WebDevelopment,
        (seq_contains(d, "rust"@) || seq_contains(d, "cargo"@)) && !contains_any_seq(d, web_keywords())
            ==> project_type_of(d) == ProjectType::RustDevelopment,
        seq_contains(d, "python"@) && !contains_any_seq(d, web_keywords()) && !contains_any_seq(d, rust_keywords())
            ==> project_type_of(d) == ProjectType::PythonDevelopment,
        seq_contains(d, "docker"@) && !contains_any_seq(d, web_keywords()) && !contains_any_seq(d, rust_keywords())
            && !contains_any_seq(d, python_keywords()) && !contains_any_seq(d, data_keywords()) && !contains_any_seq(
            d,
            mobile_keywords(),
        ) ==> project_type_of(d) == ProjectType::DevOps,
        seq_contains(d, "data"@) && !contains_any_seq(d, web_keywords()) && !contains_any_seq(d, rust_keywords())
            && !contains_any_seq(d, python_keywords()) ==> project_type_of(d) == ProjectType::DataAnalysis,
        seq_contains(d, "mobile"@) && !contains_any_seq(d, web_keywords()) && !contains_any_seq(d, rust_keywords())
            && !contains_any_seq(d, python_keywords()) && !contains_any_seq(d, data_keywords()) ==> project_type_of(d)
            == ProjectType::MobileDevelopment,
        seq_contains(d, "file"@) && !contains_any_seq(d, web_keywords()) && !contains_any_seq(d, rust_keywords())
            && !contains_any_seq(d, python_keywords()) && !contains_any_seq(d, data_keywords()) && !contains_any_seq(
            d,
            mobile_keywords(),
        ) && !contains_any_seq(d, devops_keywords()) ==> project_type_of(d) == ProjectType::FileOperation,
        !contains_any_seq(d, web_keywords()) && !contains_any_seq(d, rust_keywords()) && !contains_any_seq(
            d,
            python_keywords(),
        ) && !contains_any_seq(d, data_keywords()) && !contains_any_seq(d, mobile_keywords()) && !contains_any_seq(
            d,
            devops_keywords(),
        ) && !contains_any_seq(d, file_keywords()) ==> project_type_of(d) == ProjectType::Generic,
{
    assert(data_keywords()[0] == "data"@);
    assert(mobile_keywords()[0] == "mobile"@);
    assert(file_keywords()[0] == "file"@);
    assert(web_keywords()[0] == "web"@);
    assert(rust_keywords()[0] == "rust"@);
    assert(rust_keywords()[1] == "cargo"@);
    assert(python_keywords()[0] == "python"@);
    assert(devops_keywords()[1] == "docker"@);
}

proof fn lemma_char_index_at(s: Seq<char>, c: char, k: int)
    requires
        0 <= k < s.len(),
        s[k] == c,
        forall|j: int| 0 <= j < k ==> s[j] != c,
    ensures
        crate::text::char_index(s, c) == k,
{
    crate::text::lemma_char_index(s, c);
}

/// The file name of a report line is the text between its first two single
/// quotes.
pub proof fn law_quoted_name(p: Seq<char>, n: Seq<char>, q: Seq<char>)
    requires
        forall|j: int| 0 <= j < p.len() ==> p[j] != '\'',
        forall|j: int| 0 <= j < n.len() ==> n[j] != '\'',
    ensures
        quoted_name(p + seq!['\''] + n + seq!['\''] + q) == Some(n),
{
    let l = p + seq!['\''] + n + seq!['\''] + q;
    assert(l[p.len() as int] == '\'');
    assert forall|j: int| 0 <= j < p.len() implies l[j] != '\'' by {
        assert(l[j] == p[j]);
    }
    lemma_char_index_at(l, '\'', p.len() as int);
    let rest = l.subrange(p.len() as int + 1, l.len() as int);
    assert(rest =~= n + seq!['\''] + q);
    assert(rest[n.len() as int] == '\'');
    assert forall|j: int| 0 <= j < n.len() implies rest[j] != '\'' by {
        assert(rest[j] == n[j]);
    }
    lemma_char_index_at(rest, '\'', n.len() as int);
    assert(rest.subrange(0, n.len() as int) =~= n);
}

/// The files a reply reports as created, in order: one more line adds the
/// name between its first two single quotes when the line holds
/// `✅ File` and `created successfully` or `created as`, and adds nothing
/// otherwise.
pub proof fn law_created_files_by_line(lines: Seq<Seq<char>>, l: Seq<char>)
    ensures
        created_files(lines.push(l)) == created_files(lines) + if seq_contains(l, "✅ File"@) && (seq_contains(
            l,
            "created successfully"@,
        ) || seq_contains(l, "created as"@)) && quoted_name(l) is Some {
            seq![quoted_name(l).unwrap()]
        } else {
            Seq::empty()
        },
{
    assert(lines.push(l).drop_last() =~= lines);
    assert(lines.push(l).last() == l);
}

/// A reply that reports created files, and no command and no error mark
/// (`Error:`, `❌`, `Failed`, `Exception:`, `panic!`), completes the task
/// being worked on with the files' names, joined by commas, as its result;
/// that task is the first one reported as touched.
pub proof fn law_created_files_complete_current(
    order: Seq<Seq<char>>,
    m: Map<Seq<char>, ItemView>,
    response: Seq<char>,
    id: Seq<char>,
)
    requires
        created_files(lines_of(response)).len() > 0,
        detect_command_from(lines_of(response), 0) is None,
        forall|i: int|
            0 <= i < lines_of(response).len() ==> !(seq_contains(#[trigger] lines_of(response)[i], "Error:"@)
                || seq_contains(lines_of(response)[i], "❌"@) || seq_contains(lines_of(response)[i], "Failed"@)
                || seq_contains(lines_of(response)[i], "Exception:"@) || seq_contains(
                lines_of(response)[i],
                "panic!"@,
            )),
        current_pending(order, m) == Some(id),
    ensures
        ai_update(order, m, response).0.contains_key(id),
        ai_update(order, m, response).0[id].status == TodoStatus::Completed,
        ai_update(order, m, response).0[id].tool_execution_result == Some(
            "ファイル作成完了: "@ + crate::text::join_seq(created_files(lines_of(response)), ", "@),
        ),
        ai_update(order, m, response).1.len() >= 1,
        ai_update(order, m, response).1[0] == id,
{
    let lines = lines_of(response);
    law_error_line_is_first_marked(lines);
    lemma_current_pending_found(order, m);
    let s1 = files_step(order, m, lines);
    let s2 = command_step(order, s1.0, lines);
    let s3 = error_step(order, s2.0, lines);
    let s4 = advance_step(order, s3.0);
    assert(s1.1 == seq![id]);
    assert(s2 == (s1.0, Seq::<Seq<char>>::empty()));
    assert(s3 == (s1.0, Seq::<Seq<char>>::empty()));
    assert(s1.0[id].status == TodoStatus::Completed);
    lemma_first_ready_pending(order, s3.0, 0);
    let all = s1.1 + s2.1 + s3.1 + s4.1;
    assert(all[0] == id);
}

/// What a reply line says of a command, from its lower-cased text: a line
/// holding `successfully executed`, `command completed` or `✅` (each
/// lower-cased) reports a success; otherwise one holding `failed to
/// execute`, `command failed`, `❌`, `Error:` or `error:` reports a failure;
/// any other line says nothing of a command.
pub proof fn law_command_outcome(line: Seq<char>)
    ensures
        ({
            let lo = lowercase_of(line);
            let ok = seq_contains(lo, lowercase_of("successfully executed"@)) || seq_contains(
                lo,
                lowercase_of("command completed"@),
            ) || seq_contains(lo, lowercase_of("✅"@));
            let bad = seq_contains(lo, lowercase_of("failed to execute"@)) || seq_contains(
                lo,
                lowercase_of("command failed"@),
            ) || seq_contains(lo, lowercase_of("❌"@)) || seq_contains(lo, lowercase_of("Error:"@)) || seq_contains(
                lo,
                lowercase_of("error:"@),
            );
            &&& ok ==> command_outcome(line) == Some(true)
            &&& !ok && bad ==> command_outcome(line) == Some(false)
            &&& !ok && !bad ==> command_outcome(line) is None
        }),
{
    let sp = success_patterns();
    let fp = failure_patterns();
    assert(sp.len() == 3 && sp[0] == "successfully executed"@ && sp[1] == "command completed"@ && sp[2] == "✅"@);
    assert(fp.len() == 5 && fp[0] == "failed to execute"@ && fp[1] == "command failed"@ && fp[2] == "❌"@ && fp[3]
        == "Error:"@ && fp[4] == "error:"@);
}

proof fn lemma_first_with_status_is(order: Seq<Seq<char>>, m: Map<Seq<char>, ItemView>, st: TodoStatus, k: int)
    ensures
        first_with_status(order, m, st, k) matches Some(x) ==> m.contains_key(x) && m[x].status == st,
    decreases order.len() - k,
{
    if 0 <= k < order.len() {
        lemma_first_with_status_is(order, m, st, k + 1);
    }
}

proof fn lemma_current_pending_status(order: Seq<Seq<char>>, m: Map<Seq<char>, ItemView>)
    ensures
        current_pending(order, m) matches Some(x) ==> m.contains_key(x) && (m[x].status == TodoStatus::InProgress
            || m[x].status == TodoStatus::Pending),
{
    lemma_first_with_status_is(order, m, TodoStatus::InProgress, 0);
    lemma_first_with_status_is(order, m, TodoStatus::Pending, 0);
}

/// A reply that creates no file but reports a command settles the task
/// being worked on: a success completes it with `コマンド実行完了: ` and the
/// line as its result, a failure fails it with `コマンド実行失敗: ` and the
/// line as its error; later error marks and the start of the next task
/// leave it so, and it is the first task reported as touched.
pub proof fn law_command_report_settles_current(
    order: Seq<Seq<char>>,
    m: Map<Seq<char>, ItemView>,
    response: Seq<char>,
    id: Seq<char>,
)
    requires
        created_files(lines_of(response)).len() == 0,
        detect_command_from(lines_of(response), 0) is Some,
        current_pending(order, m) == Some(id),
    ensures
        ({
            let (ok, line) = detect_command_from(lines_of(response), 0).unwrap();
            let out = ai_update(order, m, response);
            &&& out.0.contains_key(id)
            &&& ok ==> out.0[id].status == TodoStatus::Completed && out.0[id].tool_execution_result == Some(
                "コマンド実行完了: "@ + line,
            )
            &&& !ok ==> out.0[id].status == TodoStatus::Failed && out.0[id].error_message == Some(
                "コマンド実行失敗: "@ + line,
            )
            &&& out.1.len() >= 1 && out.1[0] == id
        }),
{
    let lines = lines_of(response);
    lemma_current_pending_found(order, m);
    let s1 = files_step(order, m, lines);
    let s2 = command_step(order, s1.0, lines);
    let s3 = error_step(order, s2.0, lines);
    let s4 = advance_step(order, s3.0);
    assert(s1 == (m, Seq::<Seq<char>>::empty()));
    assert(s2.1 == seq![id]);
    assert(s2.0[id].status == TodoStatus::Completed || s2.0[id].status == TodoStatus::Failed);
    lemma_current_pending_status(order, s2.0);
    lemma_first_ready_pending(order, s3.0, 0);
    assert(s3.0.contains_key(id) && s3.0[id] == s2.0[id]);
    let all = s1.1 + s2.1 + s3.1 + s4.1;
    assert(all[0] == id);
}

/// Task `x` can start in `m`: it is pending and each task it depends on
/// exists and has completed.
pub open spec fn can_start(m: Map<Seq<char>, ItemView>, x: Seq<char>) -> bool {
    &&& m.contains_key(x)
    &&& m[x].status == TodoStatus::Pending
    &&& forall|d: int|
        0 <= d < m[x].dependencies.len() ==> m.contains_key(#[trigger] m[x].dependencies[d])
            && m[m[x].dependencies[d]].status == TodoStatus::Completed
}

proof fn lemma_first_ready_is_first(order: Seq<Seq<char>>, m: Map<Seq<char>, ItemView>, k: int)
    requires
        0 <= k,
    ensures
        first_ready_in(order, m, k) matches Some(x) ==> exists|p: int|
            k <= p < order.len() && order[p] == x && can_start(m, x) && forall|j: int|
                k <= j < p ==> !can_start(m, #[trigger] order[j]),
        first_ready_in(order, m, k) is None ==> forall|j: int| k <= j < order.len() ==> !can_start(m, #[trigger] order[j]),
    decreases order.len() - k,
{
    if k < order.len() {
        lemma_first_ready_is_first(order, m, k + 1);
        if m.contains_key(order[k]) && ready_in(m[order[k]], m) {
            assert(can_start(m, order[k]));
        } else {
            assert(!can_start(m, order[k]));
            if let Some(x) = first_ready_in(order, m, k) {
                let p = choose|p: int|
                    k + 1 <= p < order.len() && order[p] == x && can_start(m, x) && forall|j: int|
                        k + 1 <= j < p ==> !can_start(m, #[trigger] order[j]);
                assert forall|j: int| k <= j < p implies !can_start(m, #[trigger] order[j]) by {}
            }
        }
    }
}

/// A reply that creates no file and reports no command and no error mark
/// (`Error:`, `❌`, `Failed`, `Exception:`, `panic!`) only starts the next
/// task: the first task in the execution order that can start (pending,
/// with every dependency completed) goes in progress and is the one task
/// reported; when no task can start, nothing changes and nothing is
/// reported.
pub proof fn law_quiet_reply_starts_next(order: Seq<Seq<char>>, m: Map<Seq<char>, ItemView>, response: Seq<char>)
    requires
        created_files(lines_of(response)).len() == 0,
        detect_command_from(lines_of(response), 0) is None,
        forall|i: int|
            0 <= i < lines_of(response).len() ==> !(seq_contains(#[trigger] lines_of(response)[i], "Error:"@)
                || seq_contains(lines_of(response)[i], "❌"@) || seq_contains(lines_of(response)[i], "Failed"@)
                || seq_contains(lines_of(response)[i], "Exception:"@) || seq_contains(
                lines_of(response)[i],
                "panic!"@,
            )),
    ensures
        ({
            let out = ai_update(order, m, response);
            &&& out.1.len() == 0 ==> out.0 == m && forall|j: int| 0 <= j < order.len() ==> !can_start(m, #[trigger] order[j])
            &&& out.1.len() > 0 ==> out.1.len() == 1 && can_start(m, out.1[0]) && out.0 == m.insert(
                out.1[0],
                ItemView { status: TodoStatus::InProgress, ..m[out.1[0]] },
            ) && exists|p: int|
                0 <= p < order.len() && order[p] == out.1[0] && forall|j: int|
                    0 <= j < p ==> !can_start(m, #[trigger] order[j])
        }),
{
    let lines = lines_of(response);
    law_error_line_is_first_marked(lines);
    let s1 = files_step(order, m, lines);
    let s2 = command_step(order, s1.0, lines);
    let s3 = error_step(order, s2.0, lines);
    assert(s1 == (m, Seq::<Seq<char>>::empty()));
    assert(s2 == (m, Seq::<Seq<char>>::empty()));
    assert(s3 == (m, Seq::<Seq<char>>::empty()));
    lemma_first_ready_is_first(order, m, 0);
    let out = ai_update(order, m, response);
    assert(out.1 =~= advance_step(order, m).1);
}

/// An error text (lower-cased) can be corrected automatically exactly when
/// it mentions a missing file (`file not found`, `ファイルが見つかりません`), a
/// syntax error (`syntax error`, `構文エラー`), a failed import (`import
/// error`, `module not found`) or a refused permission (`permission
/// denied`).
pub proof fn law_auto_correctable_words(lower: Seq<char>)
    ensures
        contains_any_seq(lower, auto_correctable_patterns()) <==> (seq_contains(lower, "file not found"@)
            || seq_contains(lower, "ファイルが見つかりません"@) || seq_contains(lower, "syntax error"@) || seq_contains(
            lower,
            "構文エラー"@,
        ) || seq_contains(lower, "import error"@) || seq_contains(lower, "module not found"@) || seq_contains(
            lower,
            "permission denied"@,
        )),
{
    let p = auto_correctable_patterns();
    assert(p.len() == 7 && p[0] == "file not found"@ && p[1] == "ファイルが見つかりません"@ && p[2] == "syntax error"@
        && p[3] == "構文エラー"@ && p[4] == "import error"@ && p[5] == "module not found"@ && p[6]
        == "permission denied"@);
}

/// A message (lower-cased) that asks to create, make, build, implement,
/// develop or design something suggests a new task list.
pub proof fn law_new_list_words(lower: Seq<char>)
    ensures
        seq_contains(lower, "create"@) || seq_contains(lower, "make"@) || seq_contains(lower, "build"@)
            || seq_contains(lower, "implement"@) || seq_contains(lower, "develop"@) || seq_contains(lower, "design"@)
            ==> contains_any_seq(lower, new_list_keywords()),
{
    let p = new_list_keywords();
    assert(p[4] == "create"@ && p[5] == "make"@ && p[6] == "build"@ && p[7] == "implement"@ && p[8] == "develop"@
        && p[9] == "design"@);
}

} // verus!
