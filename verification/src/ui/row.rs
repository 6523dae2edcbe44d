//! A row of the task list: what it does on each input and what it reports.
use crate::priority::Priority;
use crate::task::Task;
use crate::text::{trim, trimmed};
use crate::time::{
    date_day, days_from_ce, local_midnight, may_be_local_midnight, one_day_later,
    spec_one_day_later, valid_date, Timestamp, MAX_SECS, SECS_PER_DAY,
};
use vstd::prelude::*;

verus! {

/// An input to a row.
#[derive(Debug, PartialEq, Eq)]
pub enum TaskRowInput {
    /// The user checked or unchecked the task.
    Toggle,
    /// The user opened or closed the editor.
    ToggleExpand,
    /// Keep the edited title and description and close the editor.
    SaveAndCollapse,
    /// The user pressed the button of a priority level.
    SetPriority(Priority),
    SetDueToday,
    SetDueTomorrow,
    /// The user picked a date in the calendar.
    SetDueDate { year: i32, month: u32, day: u32 },
    ClearDueDate,
    Duplicate,
    Delete,
    /// Show or hide the row (it hides before it leaves the list).
    SetRevealed(bool),
    /// The stored task changed; show the new one.
    ReplaceTask(Task),
}

/// What a row reports to the task list.
#[derive(Debug, PartialEq, Eq)]
pub enum TaskRowOutput {
    Toggled(i64),
    Updated(Task),
    Duplicated(i64),
    Deleted(i64),
}

/// The state of a row that matters beyond its widgets.
#[derive(Debug, PartialEq, Eq)]
pub struct RowModel {
    pub task: Task,
    /// The editor is open.
    pub expanded: bool,
    /// The row is shown.
    pub revealed: bool,
}

/// What the row's widgets must do after an input.
#[derive(Debug, PartialEq, Eq)]
pub struct RowEffects {
    /// A report to the task list.
    pub output: Option<TaskRowOutput>,
    /// An input the row sends itself next.
    pub follow_up: Option<TaskRowInput>,
    /// Fill the editor's fields from the task.
    pub sync_buffers: bool,
}

/// The editor's title and description, trimmed, differ from the task's.
pub open spec fn differs(task: Task, title_text: Seq<char>, description_text: Seq<char>) -> bool {
    trimmed(title_text) != task.title@ || trimmed(description_text) != task.description@
}

/// `new` is `old` with a new due date and no time of day.
pub open spec fn due_changed(old: Task, new: Task, due: Option<Timestamp>) -> bool {
    new == Task { due_date: due, has_due_time: false, ..old }
}

/// The effects that only report `out`.
pub open spec fn reports(e: RowEffects, out: TaskRowOutput) -> bool {
    e == RowEffects { output: Some(out), follow_up: None, sync_buffers: false }
}

/// The effects of doing nothing visible.
pub open spec fn quiet(e: RowEffects) -> bool {
    e == RowEffects { output: None, follow_up: None, sync_buffers: false }
}

/// The row `old` becomes `new` with effects `e` when the local midnight of
/// a picked day is `midnight`: none (the time zone skips or repeats that
/// midnight) changes nothing; an instant becomes the due date, without a
/// time of day, and the row reports the task.
pub open spec fn midnight_step(
    old: RowModel,
    midnight: Option<Timestamp>,
    new: RowModel,
    e: RowEffects,
) -> bool {
    match midnight {
        None => new == old && quiet(e),
        Some(t) => {
            &&& new.expanded == old.expanded && new.revealed == old.revealed
            &&& due_changed(old.task, new.task, Some(t))
            &&& reports(e, TaskRowOutput::Updated(new.task))
        },
    }
}

/// One step of a row: `old` becomes `new` with effects `e` on input `msg`,
/// the editor holding `title_text` and `description_text`, at `now`.
pub open spec fn row_step(
    old: RowModel,
    msg: TaskRowInput,
    title_text: Seq<char>,
    description_text: Seq<char>,
    now: Timestamp,
    new: RowModel,
    e: RowEffects,
) -> bool {
    match msg {
        TaskRowInput::Toggle => {
            &&& new == RowModel { task: Task { is_done: !old.task.is_done, ..old.task }, ..old }
            &&& reports(e, TaskRowOutput::Toggled(old.task.id))
        },
        TaskRowInput::ToggleExpand => if old.expanded {
            &&& new == old
            &&& e == RowEffects {
                output: None,
                follow_up: Some(TaskRowInput::SaveAndCollapse),
                sync_buffers: false,
            }
        } else {
            &&& new == RowModel { expanded: true, ..old }
            &&& e == RowEffects { output: None, follow_up: None, sync_buffers: true }
        },
        TaskRowInput::SaveAndCollapse => {
            &&& !new.expanded
            &&& new.revealed == old.revealed
            &&& e.follow_up is None && !e.sync_buffers
            &&& if differs(old.task, title_text, description_text) {
                &&& new.task.title@ == trimmed(title_text)
                &&& new.task.description@ == trimmed(description_text)
                &&& new.task == Task {
                    title: new.task.title,
                    description: new.task.description,
                    ..old.task
                }
                &&& e.output == if trimmed(title_text).len() > 0 {
                    Some(TaskRowOutput::Updated(new.task))
                } else {
                    None
                }
            } else {
                new.task == old.task && e.output is None
            }
        },
        TaskRowInput::SetPriority(level) => {
            &&& new == RowModel {
                task: Task {
                    priority: if old.task.priority == level {
                        Priority::Unset
                    } else {
                        level
                    },
                    ..old.task
                },
                ..old
            }
            &&& reports(e, TaskRowOutput::Updated(new.task))
        },
        TaskRowInput::SetDueToday => {
            &&& new.expanded == old.expanded && new.revealed == old.revealed
            &&& due_changed(old.task, new.task, Some(now))
            &&& reports(e, TaskRowOutput::Updated(new.task))
        },
        TaskRowInput::SetDueTomorrow => {
            &&& new.expanded == old.expanded && new.revealed == old.revealed
            &&& due_changed(old.task, new.task, Some(spec_one_day_later(now)))
            &&& reports(e, TaskRowOutput::Updated(new.task))
        },
        TaskRowInput::SetDueDate { year, month, day } => if !valid_date(
            year as int,
            month as int,
            day as int,
        ) {
            new == old && quiet(e)
        } else {
            exists|m: Option<Timestamp>|
                (m matches Some(x) ==> x.wf() && may_be_local_midnight(
                    x,
                    days_from_ce(year as int, month as int, day as int),
                )) && #[trigger] midnight_step(old, m, new, e)
        },
        TaskRowInput::ClearDueDate => {
            &&& new.expanded == old.expanded && new.revealed == old.revealed
            &&& due_changed(old.task, new.task, None)
            &&& reports(e, TaskRowOutput::Updated(new.task))
        },
        TaskRowInput::Duplicate => new == old && reports(e, TaskRowOutput::Duplicated(old.task.id)),
        TaskRowInput::Delete => new == old && reports(e, TaskRowOutput::Deleted(old.task.id)),
        TaskRowInput::SetRevealed(b) => new == RowModel { revealed: b, ..old } && quiet(e),
        TaskRowInput::ReplaceTask(t) => new == RowModel { task: t, ..old } && quiet(e),
    }
}

impl RowModel {
    /// A collapsed, shown row for `task`.
    pub fn new(task: Task) -> (r: RowModel)
        ensures
            r == (RowModel { task, expanded: false, revealed: true }),
    {
        RowModel { task, expanded: false, revealed: true }
    }

    /// The row's task id.
    pub fn task_id(&self) -> (r: i64)
        ensures
            r == self.task.id,
    {
        self.task.id
    }

    /// Whether the editor's title and description, trimmed, differ from the
    /// task's.
    pub fn has_changes(&self, title_text: &str, description_text: &str) -> (r: bool)
        ensures
            r == differs(self.task, title_text@, description_text@),
    {
        let t = trim(title_text);
        let d = trim(description_text);
        !(t == self.task.title) || !(d == self.task.description)
    }

    /// Makes `midnight`, the local midnight of a picked day, the task's due
    /// date without a time of day and reports the task; where the time zone
    /// gave no single midnight (`None`) the row stays as it is and reports
    /// nothing.
    pub fn set_due_midnight(&mut self, midnight: Option<Timestamp>) -> (e: RowEffects)
        ensures
            midnight is None ==> *final(self) == *old(self) && quiet(e),
            midnight matches Some(t) ==> {
                &&& final(self).expanded == old(self).expanded
                &&& final(self).revealed == old(self).revealed
                &&& due_changed(old(self).task, final(self).task, Some(t))
                &&& reports(e, TaskRowOutput::Updated(final(self).task))
            },
            midnight_step(*old(self), midnight, *final(self), e),
    {
        match midnight {
            Some(t) => {
                self.task.due_date = Some(t);
                self.task.has_due_time = false;
                RowEffects {
                    output: Some(TaskRowOutput::Updated(self.task.clone())),
                    follow_up: None,
                    sync_buffers: false,
                }
            },
            None => RowEffects { output: None, follow_up: None, sync_buffers: false },
        }
    }

    /// Answers the input `msg`; the editor holds `title_text` and
    /// `description_text`, and the clock reads `now`.
    pub fn update(
        &mut self,
        msg: TaskRowInput,
        title_text: &str,
        description_text: &str,
        now: Timestamp,
    ) -> (e: RowEffects)
        requires
            msg is SetDueToday ==> now.wf(),
            msg is SetDueTomorrow ==> now.wf() && now.secs <= MAX_SECS - SECS_PER_DAY,
        ensures
            row_step(*old(self), msg, title_text@, description_text@, now, *final(self), e),
    {
        match msg {
            TaskRowInput::Toggle => {
                self.task.is_done = !self.task.is_done;
                RowEffects {
                    output: Some(TaskRowOutput::Toggled(self.task.id)),
                    follow_up: None,
                    sync_buffers: false,
                }
            },
            TaskRowInput::ToggleExpand => {
                if self.expanded {
                    RowEffects {
                        output: None,
                        follow_up: Some(TaskRowInput::SaveAndCollapse),
                        sync_buffers: false,
                    }
                } else {
                    self.expanded = true;
                    RowEffects { output: None, follow_up: None, sync_buffers: true }
                }
            },
            TaskRowInput::SaveAndCollapse => {
                let mut output = None;
                if self.has_changes(title_text, description_text) {
                    self.task.title = trim(title_text);
                    self.task.description = trim(description_text);
                    if !self.task.title.as_str().is_empty() {
                        output = Some(TaskRowOutput::Updated(self.task.clone()));
                    }
                }
                self.expanded = false;
                RowEffects { output, follow_up: None, sync_buffers: false }
            },
            TaskRowInput::SetPriority(level) => {
                if self.task.priority == level {
                    self.task.priority = Priority::Unset;
                } else {
                    self.task.priority = level;
                }
                RowEffects {
                    output: Some(TaskRowOutput::Updated(self.task.clone())),
                    follow_up: None,
                    sync_buffers: false,
                }
            },
            TaskRowInput::SetDueToday => {
                self.task.due_date = Some(now);
                self.task.has_due_time = false;
                RowEffects {
                    output: Some(TaskRowOutput::Updated(self.task.clone())),
                    follow_up: None,
                    sync_buffers: false,
                }
            },
            TaskRowInput::SetDueTomorrow => {
                self.task.due_date = Some(one_day_later(now));
                self.task.has_due_time = false;
                RowEffects {
                    output: Some(TaskRowOutput::Updated(self.task.clone())),
                    follow_up: None,
                    sync_buffers: false,
                }
            },
            TaskRowInput::SetDueDate { year, month, day } => match date_day(year, month, day) {
                Some(d) => {
                    let m = local_midnight(d);
                    let e = self.set_due_midnight(m);
                    assert(midnight_step(*old(self), m, *self, e));
                    e
                },
                None => RowEffects { output: None, follow_up: None, sync_buffers: false },
            },
            TaskRowInput::ClearDueDate => {
                self.task.due_date = None;
                self.task.has_due_time = false;
                RowEffects {
                    output: Some(TaskRowOutput::Updated(self.task.clone())),
                    follow_up: None,
                    sync_buffers: false,
                }
            },
            TaskRowInput::Duplicate => RowEffects {
                output: Some(TaskRowOutput::Duplicated(self.task.id)),
                follow_up: None,
                sync_buffers: false,
            },
            TaskRowInput::Delete => RowEffects {
                output: Some(TaskRowOutput::Deleted(self.task.id)),
                follow_up: None,
                sync_buffers: false,
            },
            TaskRowInput::SetRevealed(b) => {
                self.revealed = b;
                RowEffects { output: None, follow_up: None, sync_buffers: false }
            },
            TaskRowInput::ReplaceTask(t) => {
                self.task = t;
                RowEffects { output: None, follow_up: None, sync_buffers: false }
            },
        }
    }
}

/// Pressing the same priority button twice gives the row back as it was,
/// where the task had that level or none; both presses report the task.
pub proof fn lemma_set_priority_twice(
    r0: RowModel,
    r1: RowModel,
    r2: RowModel,
    level: Priority,
    title_text: Seq<char>,
    description_text: Seq<char>,
    now: Timestamp,
    e1: RowEffects,
    e2: RowEffects,
)
    requires
        r0.task.priority == level || r0.task.priority == Priority::Unset,
        row_step(r0, TaskRowInput::SetPriority(level), title_text, description_text, now, r1, e1),
        row_step(r1, TaskRowInput::SetPriority(level), title_text, description_text, now, r2, e2),
    ensures
        r2 == r0,
        e1.output == Some(TaskRowOutput::Updated(r1.task)),
        e2.output == Some(TaskRowOutput::Updated(r0.task)),
{
}

/// Checking a task twice gives the row back as it was; each click reports
/// the task's id.
pub proof fn lemma_toggle_row_twice(
    r0: RowModel,
    r1: RowModel,
    r2: RowModel,
    title_text: Seq<char>,
    description_text: Seq<char>,
    now: Timestamp,
    e1: RowEffects,
    e2: RowEffects,
)
    requires
        row_step(r0, TaskRowInput::Toggle, title_text, description_text, now, r1, e1),
        row_step(r1, TaskRowInput::Toggle, title_text, description_text, now, r2, e2),
    ensures
        r2 == r0,
        e1.output == Some(TaskRowOutput::Toggled(r0.task.id)),
        e2.output == Some(TaskRowOutput::Toggled(r0.task.id)),
{
}

/// Closing the editor without a change (the fields trim to the task's
/// title and description) keeps the task and reports nothing.
pub proof fn lemma_close_unchanged(
    r0: RowModel,
    r1: RowModel,
    title_text: Seq<char>,
    description_text: Seq<char>,
    now: Timestamp,
    e: RowEffects,
)
    requires
        trimmed(title_text) == r0.task.title@,
        trimmed(description_text) == r0.task.description@,
        row_step(r0, TaskRowInput::SaveAndCollapse, title_text, description_text, now, r1, e),
    ensures
        r1.task == r0.task,
        !r1.expanded,
        e.output is None,
{
}

} // verus!
