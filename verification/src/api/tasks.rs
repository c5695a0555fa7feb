//! The kanban task board: tasks keyed by id, in four columns.
//!
//! This is the board's content; persisting it as a JSON file and the locking
//! around it are done by the caller.
use vstd::prelude::*;

use crate::api::openai_types::random_uuid_text;
use crate::audit::utc_now_rfc3339;
use crate::keyed::{find_name, lemma_table_absent, lemma_table_at, names_distinct, put_name, table_of, take_name};
use crate::text::{
    lemma_seq_lt_asymmetric, lemma_seq_lt_transitive, push_str, seq_lt, str_eq, str_lt, to_owned_string,
};

verus! {

/// A task on the kanban board.
#[derive(Debug, Clone, PartialEq, Eq)]
pub struct KanbanTask {
    /// Unique identifier (a UUID v4).
    pub id: String,
    /// Short title shown on the card.
    pub title: String,
    /// Longer description.
    pub description: String,
    /// Current column: `backlog`, `in_progress`, `review` or `done`.
    pub column: String,
    /// Who the task is assigned to.
    pub assignee: Option<String>,
    /// Priority label.
    pub priority: Option<String>,
    /// Labels.
    pub labels: Vec<String>,
    /// RFC 3339 creation time.
    pub created_at: String,
    /// RFC 3339 time of the last change.
    pub updated_at: String,
}

/// What a task holds, as plain values.
pub struct TaskView {
    pub id: Seq<char>,
    pub title: Seq<char>,
    pub description: Seq<char>,
    pub column: Seq<char>,
    pub assignee: Option<Seq<char>>,
    pub priority: Option<Seq<char>>,
    pub labels: Seq<Seq<char>>,
    pub created_at: Seq<char>,
    pub updated_at: Seq<char>,
}

/// The text of an optional text slice.
pub open spec fn opt_str(o: Option<&str>) -> Option<Seq<char>> {
    match o {
        Some(s) => Some(s@),
        None => None,
    }
}

/// The text of an optional text.
pub open spec fn opt_view(o: Option<String>) -> Option<Seq<char>> {
    match o {
        Some(s) => Some(s@),
        None => None,
    }
}

impl View for KanbanTask {
    type V = TaskView;

    open spec fn view(&self) -> TaskView {
        TaskView {
            id: self.id@,
            title: self.title@,
            description: self.description@,
            column: self.column@,
            assignee: opt_view(self.assignee),
            priority: opt_view(self.priority),
            labels: self.labels@.map_values(|s: String| s@),
            created_at: self.created_at@,
            updated_at: self.updated_at@,
        }
    }
}

/// Equal copies of texts.
fn copy_strings(v: &Vec<String>) -> (r: Vec<String>)
    ensures
        r@.map_values(|s: String| s@) == v@.map_values(|s: String| s@),
{
    let mut r: Vec<String> = Vec::new();
    let mut i: usize = 0;
    while i < v.len()
        invariant
            i <= v@.len(),
            r@.len() == i,
            forall|k: int| 0 <= k < i ==> r@[k]@ == v@[k]@,
        decreases v@.len() - i,
    {
        r.push(v[i].clone());
        i += 1;
    }
    assert(r@.map_values(|s: String| s@) =~= v@.map_values(|s: String| s@));
    r
}

impl KanbanTask {
    /// A copy holding the same values.
    pub fn duplicate(&self) -> (t: KanbanTask)
        ensures
            t@ == self@,
    {
        KanbanTask {
            id: self.id.clone(),
            title: self.title.clone(),
            description: self.description.clone(),
            column: self.column.clone(),
            assignee: self.assignee.clone(),
            priority: self.priority.clone(),
            labels: copy_strings(&self.labels),
            created_at: self.created_at.clone(),
            updated_at: self.updated_at.clone(),
        }
    }
}

/// The board's columns, in order.
pub open spec fn columns() -> Seq<Seq<char>> {
    seq!["backlog"@, "in_progress"@, "review"@, "done"@]
}

/// Whether `c` names a column.
pub fn is_column(c: &str) -> (r: bool)
    ensures
        r == columns().contains(c@),
{
    proof {
        assert(columns()[0] == "backlog"@);
        assert(columns()[1] == "in_progress"@);
        assert(columns()[2] == "review"@);
        assert(columns()[3] == "done"@);
    }
    str_eq(c, "backlog") || str_eq(c, "in_progress") || str_eq(c, "review") || str_eq(c, "done")
}

/// The error for an unknown column.
pub open spec fn invalid_column_error(c: Seq<char>) -> Seq<char> {
    "Invalid column '"@ + c + "'. Valid columns: [\"backlog\", \"in_progress\", \"review\", \"done\"]"@
}

/// The error for an unknown task.
pub open spec fn not_found_error(id: Seq<char>) -> Seq<char> {
    "Task not found: "@ + id
}

fn invalid_column(c: &str) -> (e: String)
    ensures
        e@ == invalid_column_error(c@),
{
    let mut e = to_owned_string("Invalid column '");
    push_str(&mut e, c);
    push_str(&mut e, "'. Valid columns: [\"backlog\", \"in_progress\", \"review\", \"done\"]");
    e
}

fn not_found(id: &str) -> (e: String)
    ensures
        e@ == not_found_error(id@),
{
    let mut e = to_owned_string("Task not found: ");
    push_str(&mut e, id);
    e
}

/// Changes to a task's editable fields; absent fields are left as they are.
#[derive(Debug, Clone, PartialEq, Eq, Default)]
pub struct TaskUpdate {
    pub title: Option<String>,
    pub description: Option<String>,
    pub assignee: Option<String>,
    pub priority: Option<String>,
}

/// `after` is `before` with `u` applied at time `now`.
pub open spec fn updated(before: TaskView, u: TaskUpdate, now: Seq<char>) -> TaskView {
    TaskView {
        title: match u.title {
            Some(t) => t@,
            None => before.title,
        },
        description: match u.description {
            Some(d) => d@,
            None => before.description,
        },
        assignee: match u.assignee {
            Some(a) => Some(a@),
            None => before.assignee,
        },
        priority: match u.priority {
            Some(p) => Some(p@),
            None => before.priority,
        },
        updated_at: now,
        ..before
    }
}

/// One step of listing, for the listed tasks: each stems from an entry `0..=i`.
proof fn lemma_list_step_sources(
    e: Seq<(String, KanbanTask)>,
    f: Option<Seq<char>>,
    i: int,
    old_out: Seq<KanbanTask>,
    out: Seq<KanbanTask>,
    p: int,
    tv: KanbanTask,
)
    requires
        0 <= i < e.len(),
        tv@ == e[i].1@,
        tv.id@ == e[i].0@,
        in_filter(e[i].1@, f),
        0 <= p <= old_out.len(),
        out == old_out.insert(p, tv),
        forall|j: int|
            0 <= j < old_out.len() ==> exists|m: int|
                0 <= m < i && (#[trigger] old_out[j]).id@ == e[m].0@ && old_out[j]@ == e[m].1@ && in_filter(
                    e[m].1@,
                    f,
                ),
    ensures
        forall|j: int|
            0 <= j < out.len() ==> exists|m: int|
                0 <= m < i + 1 && (#[trigger] out[j]).id@ == e[m].0@ && out[j]@ == e[m].1@ && in_filter(e[m].1@, f),
{
    assert forall|j: int| 0 <= j < out.len() implies exists|m: int|
        0 <= m < i + 1 && (#[trigger] out[j]).id@ == e[m].0@ && out[j]@ == e[m].1@ && in_filter(e[m].1@, f) by {
        if j < p {
            assert(out[j] == old_out[j]);
        } else if j == p {
            assert(out[j] == tv);
        } else {
            assert(out[j] == old_out[j - 1]);
        }
    }
}

/// One step of listing, for the entries: each entry `0..=i` under the filter is listed.
proof fn lemma_list_step_cover(
    e: Seq<(String, KanbanTask)>,
    f: Option<Seq<char>>,
    i: int,
    old_out: Seq<KanbanTask>,
    out: Seq<KanbanTask>,
    p: int,
    tv: KanbanTask,
)
    requires
        0 <= i < e.len(),
        tv.id@ == e[i].0@,
        0 <= p <= old_out.len(),
        out == old_out.insert(p, tv),
        forall|m: int|
            0 <= m < i && in_filter((#[trigger] e[m]).1@, f) ==> exists|j: int|
                0 <= j < old_out.len() && old_out[j].id@ == e[m].0@,
    ensures
        forall|m: int|
            0 <= m < i + 1 && in_filter((#[trigger] e[m]).1@, f) ==> exists|j: int|
                0 <= j < out.len() && out[j].id@ == e[m].0@,
{
    assert forall|m: int| 0 <= m < i + 1 && in_filter((#[trigger] e[m]).1@, f) implies exists|j: int|
        0 <= j < out.len() && out[j].id@ == e[m].0@ by {
        if m == i {
            assert(out[p].id@ == e[m].0@);
        } else {
            let j = choose|j: int| 0 <= j < old_out.len() && old_out[j].id@ == e[m].0@;
            if j < p {
                assert(out[j] == old_out[j]);
            } else {
                assert(out[j + 1] == old_out[j]);
            }
        }
    }
}

/// One step of listing, for ids: no id is listed twice.
proof fn lemma_list_step_distinct(
    e: Seq<(String, KanbanTask)>,
    f: Option<Seq<char>>,
    i: int,
    old_out: Seq<KanbanTask>,
    out: Seq<KanbanTask>,
    p: int,
    tv: KanbanTask,
)
    requires
        names_distinct(e),
        0 <= i < e.len(),
        tv.id@ == e[i].0@,
        0 <= p <= old_out.len(),
        out == old_out.insert(p, tv),
        forall|j: int|
            0 <= j < old_out.len() ==> exists|m: int| 0 <= m < i && (#[trigger] old_out[j]).id@ == e[m].0@,
        forall|a: int, b: int| 0 <= a < b < old_out.len() ==> old_out[a].id@ != old_out[b].id@,
    ensures
        forall|a: int, b: int| 0 <= a < b < out.len() ==> out[a].id@ != out[b].id@,
{
    assert forall|j: int| 0 <= j < old_out.len() implies old_out[j].id@ != e[i].0@ by {
        let m = choose|m: int| 0 <= m < i && (#[trigger] old_out[j]).id@ == e[m].0@;
        assert(e[m].0@ != e[i].0@);
    }
    assert forall|a: int, b: int| 0 <= a < b < out.len() implies out[a].id@ != out[b].id@ by {
        if a < p && b == p {
            assert(out[a] == old_out[a]);
        } else if a == p {
            assert(out[b] == old_out[b - 1]);
        } else if a < p && b > p {
            assert(out[a] == old_out[a] && out[b] == old_out[b - 1]);
        } else if a > p {
            assert(out[a] == old_out[a - 1] && out[b] == old_out[b - 1]);
        } else {
            assert(out[a] == old_out[a] && out[b] == old_out[b]);
        }
    }
}

/// The tasks of a board, by id.
pub struct TaskStore {
    tasks: Vec<(String, KanbanTask)>,
}

/// The board's tasks by id, as views.
pub open spec fn board_view(m: Map<Seq<char>, KanbanTask>) -> Map<Seq<char>, TaskView> {
    m.map_values(|t: KanbanTask| t@)
}

impl View for TaskStore {
    type V = Map<Seq<char>, TaskView>;

    closed spec fn view(&self) -> Map<Seq<char>, TaskView> {
        board_view(table_of(self.tasks@))
    }
}

/// Each task is stored under its own id.
pub open spec fn ids_match(m: Map<Seq<char>, KanbanTask>) -> bool {
    forall|k: Seq<char>| #[trigger] m.contains_key(k) ==> m[k].id@ == k
}

/// `l` is ordered by creation time.
pub open spec fn by_creation(l: Seq<KanbanTask>) -> bool {
    forall|i: int, j: int| 0 <= i < j < l.len() ==> !seq_lt(l[j].created_at@, l[i].created_at@)
}

/// Whether a task is listed under the column filter.
pub open spec fn in_filter(t: TaskView, filter: Option<Seq<char>>) -> bool {
    match filter {
        Some(c) => t.column == c,
        None => true,
    }
}

/// Inserts `t` after every task created no later than it, keeping the order.
fn insert_by_creation(out: &mut Vec<KanbanTask>, t: KanbanTask) -> (p: usize)
    requires
        by_creation(old(out)@),
    ensures
        p <= old(out)@.len(),
        final(out)@ == old(out)@.insert(p as int, t),
        by_creation(final(out)@),
{
    let mut p: usize = 0;
    while p < out.len() && !str_lt(t.created_at.as_str(), out[p].created_at.as_str())
        invariant
            p <= out@.len(),
            forall|j: int| 0 <= j < p ==> !seq_lt(t.created_at@, #[trigger] out@[j].created_at@),
        decreases out@.len() - p,
    {
        p += 1;
    }
    let ghost before = out@;
    let ghost x = t.created_at@;
    out.insert(p, t);
    assert forall|a: int, b: int| 0 <= a < b < out@.len() implies !seq_lt(
        out@[b].created_at@,
        out@[a].created_at@,
    ) by {
        if a < p && b == p {
            assert(!seq_lt(x, before[a].created_at@));
        } else if a == p && b > p {
            assert(seq_lt(x, before[p as int].created_at@));
            if seq_lt(before[b - 1].created_at@, x) {
                if b - 1 == p {
                    lemma_seq_lt_asymmetric(x, before[p as int].created_at@);
                } else {
                    lemma_seq_lt_transitive(before[b - 1].created_at@, x, before[p as int].created_at@);
                }
            }
        } else if a < p && b > p {
            assert(!seq_lt(before[b - 1].created_at@, before[a].created_at@));
        } else if a > p {
            assert(!seq_lt(before[b - 1].created_at@, before[a - 1].created_at@));
        } else {
            assert(!seq_lt(before[b].created_at@, before[a].created_at@));
        }
    }
    p
}

impl TaskStore {
    /// Each id occurs once, and each task is stored under its own id.
    pub closed spec fn wf(&self) -> bool {
        &&& names_distinct(self.tasks@)
        &&& ids_match(table_of(self.tasks@))
    }

    /// An empty board.
    pub fn new_in_memory() -> (s: Self)
        ensures
            s.wf(),
            s@ == Map::<Seq<char>, TaskView>::empty(),
    {
        let s = TaskStore { tasks: Vec::new() };
        assert(s@ =~= Map::<Seq<char>, TaskView>::empty());
        s
    }

    /// The task with id `id`, if any.
    pub fn get(&self, id: &str) -> (r: Option<KanbanTask>)
        requires
            self.wf(),
        ensures
            match r {
                Some(t) => self@.contains_key(id@) && t@ == self@[id@],
                None => !self@.contains_key(id@),
            },
    {
        match find_name(&self.tasks, id) {
            Some(i) => {
                proof {
                    lemma_table_at(self.tasks@, i as int);
                }
                Some(self.tasks[i].1.duplicate())
            },
            None => {
                proof {
                    lemma_table_absent(self.tasks@, id@);
                }
                None
            },
        }
    }

    /// Adds a task titled `title` to `column` under a fresh random id, created
    /// now; the id, or an error for an unknown column.
    pub fn create(&mut self, title: &str, column: &str, assignee: Option<String>) -> (r: Result<
        String,
        String,
    >)
        requires
            old(self).wf(),
        ensures
            final(self).wf(),
            !columns().contains(column@) ==> (r matches Err(e) && e@ == invalid_column_error(column@)
                && final(self)@ == old(self)@),
            columns().contains(column@) ==> (r matches Ok(id) && final(self)@.dom() == old(self)@.dom().insert(id@)
                && final(self)@[id@].title == title@ && final(self)@[id@].column == column@
                && final(self)@[id@].assignee == opt_view(assignee) && final(self)@[id@].created_at
                == final(self)@[id@].updated_at && forall|k: Seq<char>|
                k != id@ && #[trigger] old(self)@.contains_key(k) ==> final(self)@[k] == old(self)@[k]),
    {
        let id = random_uuid_text();
        let now = utc_now_rfc3339();
        self.create_with_id(title, column, assignee, id, now)
    }

    /// Adds a task titled `title` to `column` under the fresh id `id`, created
    /// at `now`; an error for an unknown column.
    pub fn create_with_id(
        &mut self,
        title: &str,
        column: &str,
        assignee: Option<String>,
        id: String,
        now: String,
    ) -> (r: Result<String, String>)
        requires
            old(self).wf(),
        ensures
            final(self).wf(),
            !columns().contains(column@) ==> (r matches Err(e) && e@ == invalid_column_error(column@)
                && final(self)@ == old(self)@),
            columns().contains(column@) ==> (r matches Ok(i) && i@ == id@ && final(self)@ == old(self)@.insert(
                id@,
                (TaskView {
                    id: id@,
                    title: title@,
                    description: Seq::empty(),
                    column: column@,
                    assignee: opt_view(assignee),
                    priority: None,
                    labels: Seq::empty(),
                    created_at: now@,
                    updated_at: now@,
                }),
            )),
    {
        if !is_column(column) {
            return Err(invalid_column(column));
        }
        let task = KanbanTask {
            id: id.clone(),
            title: to_owned_string(title),
            description: String::new(),
            column: to_owned_string(column),
            assignee,
            priority: None,
            labels: Vec::new(),
            created_at: now.clone(),
            updated_at: now,
        };
        let ghost before = table_of(self.tasks@);
        let ghost tv = task@;
        proof {
            assert(tv.labels =~= Seq::<Seq<char>>::empty());
        }
        self.put(id.clone(), task);
        proof {
            assert(board_view(before.insert(id@, task)) =~= board_view(before).insert(id@, tv));
        }
        Ok(id)
    }

    /// Stores a saved task under its id, replacing any task with that id (a
    /// board read back from storage is rebuilt this way).
    pub fn restore(&mut self, task: KanbanTask)
        requires
            old(self).wf(),
        ensures
            final(self).wf(),
            final(self)@ == old(self)@.insert(task.id@, task@),
    {
        let ghost before = table_of(self.tasks@);
        let ghost tv = task@;
        let id = task.id.clone();
        self.put(id, task);
        proof {
            assert(board_view(before.insert(tv.id, task)) =~= board_view(before).insert(tv.id, tv));
        }
    }

    /// Stores `task` under `id` (its own id).
    fn put(&mut self, id: String, task: KanbanTask)
        requires
            old(self).wf(),
            id@ == task.id@,
        ensures
            final(self).wf(),
            table_of(final(self).tasks@) == table_of(old(self).tasks@).insert(id@, task),
    {
        put_name(&mut self.tasks, id, task);
    }

    /// Applies `updates` to the task `id`, stamped with the current time; an
    /// error when there is no such task.
    pub fn update(&mut self, id: &str, updates: TaskUpdate) -> (r: Result<(), String>)
        requires
            old(self).wf(),
        ensures
            final(self).wf(),
            !old(self)@.contains_key(id@) ==> (r matches Err(e) && e@ == not_found_error(id@)
                && final(self)@ == old(self)@),
            old(self)@.contains_key(id@) ==> (r is Ok && final(self)@.dom() == old(self)@.dom()
                && final(self)@[id@] == updated(old(self)@[id@], updates, final(self)@[id@].updated_at)
                && forall|k: Seq<char>| k != id@ && #[trigger] old(self)@.contains_key(k) ==> final(self)@[k]
                == old(self)@[k]),
    {
        let now = utc_now_rfc3339();
        let r = self.update_at(id, updates, now);
        proof {
            if old(self)@.contains_key(id@) {
                assert(self@.dom() =~= old(self)@.dom());
            }
        }
        r
    }

    /// Applies `updates` to the task `id` at time `now`; an error when there is no such task.
    pub fn update_at(&mut self, id: &str, updates: TaskUpdate, now: String) -> (r: Result<(), String>)
        requires
            old(self).wf(),
        ensures
            final(self).wf(),
            !old(self)@.contains_key(id@) ==> (r matches Err(e) && e@ == not_found_error(id@)
                && final(self)@ == old(self)@),
            old(self)@.contains_key(id@) ==> (r is Ok && final(self)@ == old(self)@.insert(
                id@,
                updated(old(self)@[id@], updates, now@),
            )),
    {
        let ghost before = table_of(self.tasks@);
        match take_name(&mut self.tasks, id) {
            None => {
                proof {
                    assert(before.remove(id@) =~= before);
                }
                Err(not_found(id))
            },
            Some(mut task) => {
                let ghost old_task = task;
                if let Some(t) = updates.title {
                    task.title = t;
                }
                if let Some(d) = updates.description {
                    task.description = d;
                }
                if let Some(a) = updates.assignee {
                    task.assignee = Some(a);
                }
                if let Some(p) = updates.priority {
                    task.priority = Some(p);
                }
                task.updated_at = now;
                let ghost new_task = task;
                self.put(task.id.clone(), task);
                proof {
                    assert(before.remove(id@).insert(id@, new_task) =~= before.insert(id@, new_task));
                    assert(board_view(before.insert(id@, new_task)) =~= board_view(before).insert(
                        id@,
                        new_task@,
                    ));
                }
                Ok(())
            },
        }
    }

    /// Moves the task `id` to `column`, stamped with the current time; an
    /// error for an unknown column (checked first) or an unknown task.
    pub fn move_task(&mut self, id: &str, column: &str) -> (r: Result<(), String>)
        requires
            old(self).wf(),
        ensures
            final(self).wf(),
            !columns().contains(column@) ==> (r matches Err(e) && e@ == invalid_column_error(column@)
                && final(self)@ == old(self)@),
            columns().contains(column@) && !old(self)@.contains_key(id@) ==> (r matches Err(e) && e@
                == not_found_error(id@) && final(self)@ == old(self)@),
            columns().contains(column@) && old(self)@.contains_key(id@) ==> (r is Ok && final(self)@.dom()
                == old(self)@.dom() && final(self)@[id@] == (TaskView {
                column: column@,
                updated_at: final(self)@[id@].updated_at,
                ..old(self)@[id@]
            }) && forall|k: Seq<char>| k != id@ && #[trigger] old(self)@.contains_key(k) ==> final(self)@[k]
                == old(self)@[k]),
    {
        let now = utc_now_rfc3339();
        let r = self.move_task_at(id, column, now);
        proof {
            if columns().contains(column@) && old(self)@.contains_key(id@) {
                assert(self@.dom() =~= old(self)@.dom());
            }
        }
        r
    }

    /// Moves the task `id` to `column` at time `now`; an error for an unknown
    /// column (checked first) or an unknown task.
    pub fn move_task_at(&mut self, id: &str, column: &str, now: String) -> (r: Result<(), String>)
        requires
            old(self).wf(),
        ensures
            final(self).wf(),
            !columns().contains(column@) ==> (r matches Err(e) && e@ == invalid_column_error(column@)
                && final(self)@ == old(self)@),
            columns().contains(column@) && !old(self)@.contains_key(id@) ==> (r matches Err(e) && e@
                == not_found_error(id@) && final(self)@ == old(self)@),
            columns().contains(column@) && old(self)@.contains_key(id@) ==> (r is Ok && final(self)@
                == old(self)@.insert(id@, (TaskView { column: column@, updated_at: now@, ..old(self)@[id@] }))),
    {
        if !is_column(column) {
            return Err(invalid_column(column));
        }
        let ghost before = table_of(self.tasks@);
        match take_name(&mut self.tasks, id) {
            None => {
                proof {
                    assert(before.remove(id@) =~= before);
                }
                Err(not_found(id))
            },
            Some(mut task) => {
                task.column = to_owned_string(column);
                task.updated_at = now;
                let ghost new_task = task;
                self.put(task.id.clone(), task);
                proof {
                    assert(before.remove(id@).insert(id@, new_task) =~= before.insert(id@, new_task));
                    assert(board_view(before.insert(id@, new_task)) =~= board_view(before).insert(
                        id@,
                        new_task@,
                    ));
                }
                Ok(())
            },
        }
    }

    /// Removes the task `id`; an error when there is no such task.
    pub fn delete(&mut self, id: &str) -> (r: Result<(), String>)
        requires
            old(self).wf(),
        ensures
            final(self).wf(),
            !old(self)@.contains_key(id@) ==> (r matches Err(e) && e@ == not_found_error(id@)),
            old(self)@.contains_key(id@) ==> r is Ok,
            final(self)@ == old(self)@.remove(id@),
    {
        let ghost before = table_of(self.tasks@);
        let found = take_name(&mut self.tasks, id);
        proof {
            assert(board_view(before.remove(id@)) =~= board_view(before).remove(id@));
        }
        match found {
            Some(_) => Ok(()),
            None => Err(not_found(id)),
        }
    }
    /// The tasks, or those of one column, ordered by creation time (tasks
    /// created at the same time keep their board order).
    pub fn list(&self, column_filter: Option<&str>) -> (r: Vec<KanbanTask>)
        requires
            self.wf(),
        ensures
            by_creation(r@),
            forall|i: int|
                0 <= i < r@.len() ==> self@.contains_key((#[trigger] r@[i]).id@) && r@[i]@ == self@[r@[i].id@]
                    && in_filter(r@[i]@, opt_str(column_filter)),
            forall|k: Seq<char>|
                #[trigger] self@.contains_key(k) && in_filter(self@[k], opt_str(column_filter)) ==> exists|i: int|
                    0 <= i < r@.len() && r@[i].id@ == k,
            forall|i: int, j: int| 0 <= i < j < r@.len() ==> r@[i].id@ != r@[j].id@,
    {
        let ghost e = self.tasks@;
        let ghost f = opt_str(column_filter);
        let mut out: Vec<KanbanTask> = Vec::new();
        let mut i: usize = 0;
        while i < self.tasks.len()
            invariant
                e == self.tasks@,
                self.wf(),
                f == opt_str(column_filter),
                i <= e.len(),
                by_creation(out@),
                forall|j: int|
                    0 <= j < out@.len() ==> exists|m: int|
                        0 <= m < i && (#[trigger] out@[j]).id@ == e[m].0@ && out@[j]@ == e[m].1@ && in_filter(
                            e[m].1@,
                            f,
                        ),
                forall|m: int|
                    0 <= m < i && in_filter((#[trigger] e[m]).1@, f) ==> exists|j: int|
                        0 <= j < out@.len() && out@[j].id@ == e[m].0@,
                forall|a: int, b: int| 0 <= a < b < out@.len() ==> out@[a].id@ != out@[b].id@,
            decreases e.len() - i,
        {
            let keep = match column_filter {
                Some(c) => str_eq(self.tasks[i].1.column.as_str(), c),
                None => true,
            };
            if keep {
                let t = self.tasks[i].1.duplicate();
                proof {
                    lemma_table_at(e, i as int);
                }
                let ghost old_out = out@;
                let ghost tv = t;
                let p = insert_by_creation(&mut out, t);
                proof {
                    assert forall|j: int| 0 <= j < old_out.len() implies exists|m: int|
                        0 <= m < i && (#[trigger] old_out[j]).id@ == e[m].0@ by {}
                    lemma_list_step_sources(e, f, i as int, old_out, out@, p as int, tv);
                    lemma_list_step_cover(e, f, i as int, old_out, out@, p as int, tv);
                    lemma_list_step_distinct(e, f, i as int, old_out, out@, p as int, tv);
                }
            } else {
                proof {
                    assert(!in_filter(e[i as int].1@, f));
                }
            }
            i += 1;
        }
        proof {
            assert forall|j: int| 0 <= j < out@.len() implies self@.contains_key((#[trigger] out@[j]).id@)
                && out@[j]@ == self@[out@[j].id@] && in_filter(out@[j]@, f) by {
                let m = choose|m: int|
                    0 <= m < e.len() && (#[trigger] out@[j]).id@ == e[m].0@ && out@[j]@ == e[m].1@ && in_filter(
                        e[m].1@,
                        f,
                    );
                lemma_table_at(e, m);
            }
            assert forall|k: Seq<char>| #[trigger] self@.contains_key(k) && in_filter(self@[k], f) implies exists|j: int|
                0 <= j < out@.len() && out@[j].id@ == k by {
                crate::keyed::lemma_table_names(e, k);
                let m = choose|m: int| 0 <= m < e.len() && e[m].0@ == k;
                lemma_table_at(e, m);
                assert(in_filter(e[m].1@, f));
            }
        }
        out
    }
}

} // verus!
