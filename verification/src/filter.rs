//! The views of the task list and which tasks each one shows.
use crate::task::Task;
use crate::time::{today_range_at, today_range_outcome, Timestamp};
use vstd::prelude::*;

verus! {

/// A view of the task list.
#[derive(Debug, Clone, Copy, PartialEq, Eq, Structural, Hash)]
pub enum TaskFilter {
    Inbox,
    Today,
    Upcoming,
    Completed,
}

impl TaskFilter {
    /// Whether the view shows `task` when today ends at `today_end`: the
    /// inbox shows every task; "today" the open tasks due before today
    /// ends (overdue ones included); "upcoming" the open tasks due later;
    /// "completed" the done tasks.
    pub open spec fn shows(self, task: Task, today_end: Timestamp) -> bool {
        match self {
            TaskFilter::Inbox => true,
            TaskFilter::Today => !task.is_done && (task.due_date matches Some(d)
                && d.spec_before(today_end)),
            TaskFilter::Upcoming => !task.is_done && (task.due_date matches Some(d)
                && !d.spec_before(today_end)),
            TaskFilter::Completed => task.is_done,
        }
    }

    /// Whether the view depends on the current day.
    pub open spec fn is_dated(self) -> bool {
        self is Today || self is Upcoming
    }

    /// Whether the view shows `task` when the end of today is `today_end`,
    /// or is not known (`None`): a view that depends on the day then shows
    /// nothing.
    pub open spec fn shows_given(self, task: Task, today_end: Option<Timestamp>) -> bool {
        match today_end {
            Some(e) => self.shows(task, e),
            None => !self.is_dated() && self.shows(task, Timestamp { secs: 0, nanos: 0 }),
        }
    }

    /// Whether the view shows `task` when today ends at `today_end`.
    pub fn matches_before(&self, task: &Task, today_end: &Timestamp) -> (r: bool)
        ensures
            r == self.shows(*task, *today_end),
    {
        match self {
            TaskFilter::Inbox => true,
            TaskFilter::Today => !task.is_done && match task.due_date {
                Some(d) => d.before(today_end),
                None => false,
            },
            TaskFilter::Upcoming => !task.is_done && match task.due_date {
                Some(d) => !d.before(today_end),
                None => false,
            },
            TaskFilter::Completed => task.is_done,
        }
    }

    /// Whether the view shows `task` at `now`. The end of today is read
    /// from the local time zone, and only for a view that depends on it;
    /// where the local calendar has no such end (see `today_range_at`) a
    /// view that depends on the day shows nothing.
    pub fn matches(&self, task: &Task, now: &Timestamp) -> (r: bool)
        requires
            self.is_dated() ==> now.wf(),
        ensures
            !self.is_dated() ==> r == self.shows(*task, Timestamp { secs: 0, nanos: 0 }),
            self.is_dated() ==> exists|range: Option<(Timestamp, Timestamp)>|
                today_range_outcome(*now, range) && r == self.shows_given(
                    *task,
                    #[trigger] range_end(range),
                ),
    {
        match self {
            TaskFilter::Inbox | TaskFilter::Completed => {
                self.matches_before(task, &Timestamp { secs: 0, nanos: 0 })
            },
            TaskFilter::Today | TaskFilter::Upcoming => {
                let range = today_range_at(now);
                match range {
                    Some((_, end)) => {
                        let r = self.matches_before(task, &end);
                        assert(r == self.shows_given(*task, range_end(range)));
                        r
                    },
                    None => {
                        assert(false == self.shows_given(*task, range_end(range)));
                        false
                    },
                }
            },
        }
    }
}

/// The end of a day's bounds, where there are bounds.
pub open spec fn range_end(range: Option<(Timestamp, Timestamp)>) -> Option<Timestamp> {
    match range {
        Some((_, end)) => Some(end),
        None => None,
    }
}

/// The "today" and "upcoming" views never both show a task; together they
/// show exactly the open tasks with a due date.
pub proof fn lemma_dated_views_split(task: Task, today_end: Timestamp)
    ensures
        !(TaskFilter::Today.shows(task, today_end) && TaskFilter::Upcoming.shows(task, today_end)),
        (TaskFilter::Today.shows(task, today_end) || TaskFilter::Upcoming.shows(task, today_end))
            <==> (!task.is_done && task.due_date is Some),
{
}

/// The "completed" view and the dated views never share a task, and the
/// inbox shows every task any view shows.
pub proof fn lemma_views_within_inbox(f: TaskFilter, task: Task, today_end: Timestamp)
    ensures
        f.shows(task, today_end) ==> TaskFilter::Inbox.shows(task, today_end),
        TaskFilter::Completed.shows(task, today_end) ==> !TaskFilter::Today.shows(task, today_end)
            && !TaskFilter::Upcoming.shows(task, today_end),
{
}

/// Completing an open task takes it out of the "today" and "upcoming"
/// views and into the "completed" one; reopening a done task takes it out
/// of "completed" and, where it has a due date, back into exactly one of
/// the dated views.
pub proof fn lemma_toggle_moves_between_views(task: Task, now: Timestamp, today_end: Timestamp)
    ensures
        !task.is_done ==> TaskFilter::Completed.shows(task.spec_toggled(now), today_end)
            && !TaskFilter::Today.shows(task.spec_toggled(now), today_end)
            && !TaskFilter::Upcoming.shows(task.spec_toggled(now), today_end),
        task.is_done ==> !TaskFilter::Completed.shows(task.spec_toggled(now), today_end) && (
        task.due_date is Some ==> (TaskFilter::Today.shows(task.spec_toggled(now), today_end)
            != TaskFilter::Upcoming.shows(task.spec_toggled(now), today_end))),
        TaskFilter::Inbox.shows(task.spec_toggled(now), today_end),
{
}

} // verus!
