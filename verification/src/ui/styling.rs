//! Style classes and markup of a task row.
use crate::priority::Priority;
use crate::task::Task;
use vstd::prelude::*;
use vstd::string::StringExecFns;

verus! {

/// The views of a list of style classes.
pub open spec fn class_texts(v: Seq<&'static str>) -> Seq<Seq<char>> {
    v.map_values(|s: &'static str| s@)
}

/// The style class of a row for the task's priority.
pub open spec fn priority_class_text(p: Priority) -> Seq<char> {
    match p {
        Priority::Low => "priority-low"@,
        Priority::Medium => "priority-medium"@,
        Priority::High => "priority-high"@,
        Priority::Urgent => "priority-urgent"@,
        Priority::Unset => "priority-none"@,
    }
}

/// The style class of a priority button for its level (none for `Unset`).
pub open spec fn priority_dot_text(p: Priority) -> Seq<char> {
    match p {
        Priority::Low => "priority-dot-low"@,
        Priority::Medium => "priority-dot-medium"@,
        Priority::High => "priority-dot-high"@,
        Priority::Urgent => "priority-dot-urgent"@,
        Priority::Unset => ""@,
    }
}

/// The style class of a row for the task's priority.
pub fn priority_class(priority: Priority) -> (r: &'static str)
    ensures
        r@ == priority_class_text(priority),
{
    match priority {
        Priority::Low => "priority-low",
        Priority::Medium => "priority-medium",
        Priority::High => "priority-high",
        Priority::Urgent => "priority-urgent",
        Priority::Unset => "priority-none",
    }
}

/// The style classes of a collapsed row: the row class, the priority class,
/// and the done class for a done task.
pub fn compact_row_classes(task: &Task) -> (r: Vec<&'static str>)
    ensures
        class_texts(r@) == if task.is_done {
            seq!["task-row"@, priority_class_text(task.priority), "task-done"@]
        } else {
            seq!["task-row"@, priority_class_text(task.priority)]
        },
{
    let mut classes: Vec<&'static str> = Vec::new();
    classes.push("task-row");
    classes.push(priority_class(task.priority));
    if task.is_done {
        classes.push("task-done");
    }
    proof {
        assert(class_texts(classes@) =~= if task.is_done {
            seq!["task-row"@, priority_class_text(task.priority), "task-done"@]
        } else {
            seq!["task-row"@, priority_class_text(task.priority)]
        });
    }
    classes
}

/// The style classes of the priority button for `level` in the editor of
/// `task`: the button class, the level's class, and the active class where
/// the task has that level.
pub fn priority_dot_classes(task: &Task, level: Priority) -> (r: Vec<&'static str>)
    ensures
        class_texts(r@) == if task.priority == level {
            seq!["priority-dot"@, priority_dot_text(level), "priority-dot-active"@]
        } else {
            seq!["priority-dot"@, priority_dot_text(level)]
        },
{
    let mut classes: Vec<&'static str> = Vec::new();
    classes.push("priority-dot");
    classes.push(
        match level {
            Priority::Low => "priority-dot-low",
            Priority::Medium => "priority-dot-medium",
            Priority::High => "priority-dot-high",
            Priority::Urgent => "priority-dot-urgent",
            Priority::Unset => "",
        },
    );
    if task.priority == level {
        classes.push("priority-dot-active");
    }
    proof {
        assert(class_texts(classes@) =~= if task.priority == level {
            seq!["priority-dot"@, priority_dot_text(level), "priority-dot-active"@]
        } else {
            seq!["priority-dot"@, priority_dot_text(level)]
        });
    }
    classes
}

/// The style classes of a row's card: the editing card while expanded.
pub fn card_classes(expanded: bool) -> (r: Vec<&'static str>)
    ensures
        class_texts(r@) == if expanded {
            seq!["task-edit-card"@]
        } else {
            Seq::<Seq<char>>::empty()
        },
{
    let mut classes: Vec<&'static str> = Vec::new();
    if expanded {
        classes.push("task-edit-card");
    }
    proof {
        assert(class_texts(classes@) =~= if expanded {
            seq!["task-edit-card"@]
        } else {
            Seq::<Seq<char>>::empty()
        });
    }
    classes
}

/// The style classes of the due label: marked overdue, or dimmed.
pub fn due_label_classes(overdue: bool) -> (r: Vec<&'static str>)
    ensures
        class_texts(r@) == if overdue {
            seq!["caption"@, "task-due-label"@, "task-due-overdue"@]
        } else {
            seq!["caption"@, "dim-label"@, "task-due-label"@]
        },
{
    let mut classes: Vec<&'static str> = Vec::new();
    classes.push("caption");
    if overdue {
        classes.push("task-due-label");
        classes.push("task-due-overdue");
    } else {
        classes.push("dim-label");
        classes.push("task-due-label");
    }
    proof {
        assert(class_texts(classes@) =~= if overdue {
            seq!["caption"@, "task-due-label"@, "task-due-overdue"@]
        } else {
            seq!["caption"@, "dim-label"@, "task-due-label"@]
        });
    }
    classes
}

/// The markup of a row's title from the escaped title text: struck through
/// for a done task.
pub fn title_markup(escaped_title: &str, is_done: bool) -> (r: String)
    ensures
        r@ == if is_done {
            "<s>"@ + escaped_title@ + "</s>"@
        } else {
            escaped_title@
        },
{
    if is_done {
        let mut r = String::from_str("<s>");
        r.append(escaped_title);
        r.append("</s>");
        r
    } else {
        String::from_str(escaped_title)
    }
}

} // verus!
