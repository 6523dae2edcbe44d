//! The task record and the rules for creating, editing, completing and
//! duplicating one.
use crate::error::CoreError;
use crate::priority::Priority;
use crate::text::{trim, trimmed};
use crate::time::{local_day, may_be_local_day, valid_day, Timestamp};
use vstd::prelude::*;
use vstd::string::StringExecFns;

verus! {

/// A stored task.
#[derive(Debug, PartialEq, Eq)]
pub struct Task {
    pub id: i64,
    pub title: String,
    pub description: String,
    pub is_done: bool,
    pub priority: Priority,
    pub due_date: Option<Timestamp>,
    pub has_due_time: bool,
    pub created_at: Timestamp,
    pub updated_at: Timestamp,
    pub completed_at: Option<Timestamp>,
}

impl Clone for Task {
    fn clone(&self) -> (r: Task)
        ensures
            r == *self,
    {
        Task {
            id: self.id,
            title: self.title.clone(),
            description: self.description.clone(),
            is_done: self.is_done,
            priority: self.priority,
            due_date: self.due_date,
            has_due_time: self.has_due_time,
            created_at: self.created_at,
            updated_at: self.updated_at,
            completed_at: self.completed_at,
        }
    }
}

/// A task that is about to be stored and has no id yet.
#[derive(Debug, PartialEq, Eq)]
pub struct NewTask {
    pub title: String,
    pub description: String,
    pub priority: Priority,
    pub due_date: Option<Timestamp>,
    pub has_due_time: bool,
    pub created_at: Timestamp,
}

/// The message of the error for a title that is empty after trimming.
pub open spec fn empty_title_message() -> Seq<char> {
    "Title can't be empty."@
}

/// The message of the error for a task that is not in the store.
pub open spec fn no_rows_message() -> Seq<char> {
    "Query returned no rows"@
}

/// The error for a title that is empty after trimming.
pub fn empty_title_error() -> (r: CoreError)
    ensures
        r matches CoreError::Validation(m) && m@ == empty_title_message(),
{
    CoreError::Validation(String::from_str("Title can't be empty."))
}

/// The error for a task that is not in the store.
pub fn no_rows_error() -> (r: CoreError)
    ensures
        r matches CoreError::Database(m) && m@ == no_rows_message(),
{
    CoreError::Database(String::from_str("Query returned no rows"))
}

/// Checks and prepares a task to add: the title and the description are
/// trimmed, and a title that trims to nothing is refused. The task is
/// created at `now`.
pub fn plan_new_task(
    title: &str,
    description: &str,
    priority: Priority,
    due_date: Option<Timestamp>,
    has_due_time: bool,
    now: Timestamp,
) -> (r: Result<NewTask, CoreError>)
    ensures
        r is Err <==> trimmed(title@).len() == 0,
        r matches Err(e) ==> (e matches CoreError::Validation(m) && m@ == empty_title_message()),
        r matches Ok(t) ==> {
            &&& t.title@ == trimmed(title@)
            &&& t.description@ == trimmed(description@)
            &&& t.priority == priority
            &&& t.due_date == due_date
            &&& t.has_due_time == has_due_time
            &&& t.created_at == now
        },
{
    let title = trim(title);
    if title.as_str().is_empty() {
        return Err(empty_title_error());
    }
    let description = trim(description);
    Ok(NewTask { title, description, priority, due_date, has_due_time, created_at: now })
}

impl NewTask {
    /// The stored task, once the store has given it the id `id`: open, last
    /// updated when created, never completed.
    pub fn into_task(self, id: i64) -> (r: Task)
        ensures
            r.id == id,
            r.title == self.title,
            r.description == self.description,
            !r.is_done,
            r.priority == self.priority,
            r.due_date == self.due_date,
            r.has_due_time == self.has_due_time,
            r.created_at == self.created_at,
            r.updated_at == self.created_at,
            r.completed_at is None,
    {
        Task {
            id,
            title: self.title,
            description: self.description,
            is_done: false,
            priority: self.priority,
            due_date: self.due_date,
            has_due_time: self.has_due_time,
            created_at: self.created_at,
            updated_at: self.created_at,
            completed_at: None,
        }
    }
}

impl Task {
    /// All of the task's instants are ones chrono can represent.
    pub open spec fn wf(&self) -> bool {
        &&& self.created_at.wf()
        &&& self.updated_at.wf()
        &&& self.due_date matches Some(d) ==> d.wf()
        &&& self.completed_at matches Some(c) ==> c.wf()
    }

    /// The task with its done mark flipped at `now`: completing it records
    /// `now` as its completion, reopening it clears that; either way it was
    /// last updated at `now`.
    pub open spec fn spec_toggled(self, now: Timestamp) -> Task {
        Task {
            is_done: !self.is_done,
            completed_at: if self.is_done {
                None
            } else {
                Some(now)
            },
            updated_at: now,
            ..self
        }
    }

    /// Flips the done mark at `now`.
    pub fn toggled(&self, now: Timestamp) -> (r: Task)
        ensures
            r == self.spec_toggled(now),
    {
        let mut t = self.clone();
        t.completed_at = if self.is_done {
            None
        } else {
            Some(now)
        };
        t.is_done = !self.is_done;
        t.updated_at = now;
        t
    }

    /// Whether `t` holds the task `self` with the changes of `edit` applied at
    /// `now`: its title and description are those of `edit`, trimmed; its
    /// priority and due date are those of `edit`; its id, done mark, creation and
    /// completion instants are those of `self`; its last change is `now`.
    pub open spec fn is_edit(&self, edit: &Task, now: Timestamp, t: Task) -> bool {
        &&& t.id == self.id
        &&& t.title@ == trimmed(edit.title@)
        &&& t.description@ == trimmed(edit.description@)
        &&& t.is_done == self.is_done
        &&& t.priority == edit.priority
        &&& t.due_date == edit.due_date
        &&& t.has_due_time == edit.has_due_time
        &&& t.created_at == self.created_at
        &&& t.updated_at == now
        &&& t.completed_at == self.completed_at
    }

    /// The task changed as `edit` asks at `now`: title and description
    /// (trimmed), priority and due date are the edit's; the id, the
    /// done mark and the creation and completion instants stay; the task
    /// was last updated at `now`. A title that trims to nothing is refused.
    pub fn edited(&self, edit: &Task, now: Timestamp) -> (r: Result<Task, CoreError>)
        ensures
            r is Err <==> trimmed(edit.title@).len() == 0,
            r matches Err(e) ==> (e matches CoreError::Validation(m) && m@
                == empty_title_message()),
            r matches Ok(t) ==> self.is_edit(edit, now, t),
    {
        let title = trim(edit.title.as_str());
        if title.as_str().is_empty() {
            return Err(empty_title_error());
        }
        let description = trim(edit.description.as_str());
        Ok(
            Task {
                id: self.id,
                title,
                description,
                is_done: self.is_done,
                priority: edit.priority,
                due_date: edit.due_date,
                has_due_time: edit.has_due_time,
                created_at: self.created_at,
                updated_at: now,
                completed_at: self.completed_at,
            },
        )
    }

    /// A new open task with the same title, description, priority and due
    /// date, created at `now`.
    pub fn duplicated(&self, now: Timestamp) -> (r: NewTask)
        ensures
            r.title == self.title,
            r.description == self.description,
            r.priority == self.priority,
            r.due_date == self.due_date,
            r.has_due_time == self.has_due_time,
            r.created_at == now,
    {
        NewTask {
            title: self.title.clone(),
            description: self.description.clone(),
            priority: self.priority,
            due_date: self.due_date,
            has_due_time: self.has_due_time,
            created_at: now,
        }
    }

    /// Whether the task is open and due on a local day before today.
    pub open spec fn overdue_on_days(&self, due_day: int, today: int) -> bool {
        !self.is_done && self.due_date is Some && due_day < today
    }

    /// Whether the task is overdue when it is due on local day `due_day` and
    /// today is local day `today_day`: it is open, has a due date, and that
    /// day comes before today.
    pub fn overdue_on_local_days(&self, due_day: i32, today_day: i32) -> (r: bool)
        requires
            valid_day(due_day as int),
            valid_day(today_day as int),
        ensures
            r == self.overdue_on_days(due_day as int, today_day as int),
    {
        !self.is_done && self.due_date.is_some() && due_day < today_day
    }

    /// Whether the open task was due on a local day before the day of
    /// `now`. A done task, or one without a due date, is never overdue.
    /// Which local days these are depends on the time zone; each is less
    /// than a day off the UTC one.
    pub fn is_overdue(&self, now: Timestamp) -> (r: bool)
        requires
            !self.is_done && self.due_date is Some ==> now.in_local_range()
                && self.due_date.unwrap().in_local_range(),
        ensures
            self.is_done ==> !r,
            self.due_date is None ==> !r,
            !self.is_done && self.due_date is Some ==> exists|d: int, t: int|
                {
                    &&& valid_day(d) && valid_day(t)
                    &&& may_be_local_day(self.due_date.unwrap(), d)
                    &&& may_be_local_day(now, t)
                    &&& r == #[trigger] self.overdue_on_days(d, t)
                },
    {
        if self.is_done {
            return false;
        }
        match self.due_date {
            Some(due) => {
                let d = local_day(&due);
                let t = local_day(&now);
                let r = self.overdue_on_local_days(d, t);
                assert(valid_day(d as int) && valid_day(t as int) && may_be_local_day(due, d as int)
                    && may_be_local_day(now, t as int) && r == self.overdue_on_days(
                    d as int,
                    t as int,
                ));
                r
            },
            None => false,
        }
    }
}

/// Plans the update of the stored task `stored` (none where the store has
/// no task with the edit's id) by `edit` at `now`: `Ok(None)` where there
/// is nothing to update, the updated task otherwise, or the refusal of an
/// empty title.
pub fn plan_update(stored: Option<&Task>, edit: &Task, now: Timestamp) -> (r: Result<
    Option<Task>,
    CoreError,
>)
    ensures
        stored is None ==> r == Ok::<Option<Task>, CoreError>(None),
        stored is Some ==> (r is Err <==> trimmed(edit.title@).len() == 0),
        r matches Err(e) ==> (e matches CoreError::Validation(m) && m@ == empty_title_message()),
        r matches Ok(Some(t)) ==> stored matches Some(s) && s.is_edit(edit, now, t),
{
    match stored {
        None => Ok(None),
        Some(s) => match s.edited(edit, now) {
            Ok(t) => Ok(Some(t)),
            Err(e) => Err(e),
        },
    }
}

/// Plans the toggle of the stored task `stored` (none where the store has
/// no such task) at `now`: the toggled task, or none.
pub fn plan_toggle(stored: Option<&Task>, now: Timestamp) -> (r: Option<Task>)
    ensures
        stored is None ==> r is None,
        stored matches Some(s) ==> r == Some(s.spec_toggled(now)),
{
    match stored {
        None => None,
        Some(s) => Some(s.toggled(now)),
    }
}

/// Plans the duplicate of the stored task `stored` at `now`, or the error
/// of a missing task.
pub fn plan_duplicate(stored: Option<&Task>, now: Timestamp) -> (r: Result<NewTask, CoreError>)
    ensures
        stored is None ==> (r matches Err(e) && e matches CoreError::Database(m) && m@
            == no_rows_message()),
        stored matches Some(s) ==> (r matches Ok(n) && n.title == s.title && n.description
            == s.description && n.priority == s.priority && n.due_date == s.due_date
            && n.has_due_time == s.has_due_time && n.created_at == now),
{
    match stored {
        None => Err(no_rows_error()),
        Some(s) => Ok(s.duplicated(now)),
    }
}

/// A task is done exactly when it has a completion instant.
pub open spec fn completion_consistent(t: Task) -> bool {
    t.is_done <==> t.completed_at is Some
}

/// A new task starts open, without a completion; flipping the done mark
/// and editing keep "done exactly when completed".
pub proof fn lemma_completion_consistent_kept(t: Task, edit: Task, u: Task, now: Timestamp)
    requires
        completion_consistent(t),
    ensures
        completion_consistent(t.spec_toggled(now)),
        t.is_edit(&edit, now, u) ==> completion_consistent(u),
{
}

/// Flipping the done mark twice gives the task its done mark back; an open
/// task toggled twice is open again and has no completion.
pub proof fn lemma_toggle_twice(t: Task, a: Timestamp, b: Timestamp)
    ensures
        t.spec_toggled(a).spec_toggled(b).is_done == t.is_done,
        !t.is_done ==> t.spec_toggled(a).spec_toggled(b).completed_at is None,
        t.spec_toggled(a).spec_toggled(b).title == t.title,
        t.spec_toggled(a).spec_toggled(b).id == t.id,
{
}

/// Once overdue, a task stays overdue as the days go by: overdue when today
/// is local day `earlier`, it is overdue on every later day `later`.
pub proof fn lemma_overdue_stays(t: Task, due_day: int, earlier: int, later: int)
    requires
        earlier <= later,
        t.overdue_on_days(due_day, earlier),
    ensures
        t.overdue_on_days(due_day, later),
{
}

} // verus!
