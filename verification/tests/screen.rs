use kromodo_core::ui::board::{BoardAction, BoardModel, FinalizeMsg, ListId};
use kromodo_core::ui::forms::{quick_add_submission, task_input_submission};
use kromodo_core::ui::row::{RowEffects, RowModel, TaskRowInput, TaskRowOutput};
use kromodo_core::ui::sidebar::SidebarSelection;
use kromodo_core::ui::styling::{
    card_classes, compact_row_classes, due_label_classes, priority_class, priority_dot_classes,
    title_markup,
};
use kromodo_core::{CoreEvent, Priority, Task, Timestamp};

fn ts(secs: i64) -> Timestamp {
    Timestamp { secs, nanos: 0 }
}

fn task(id: i64, done: bool, due: Option<i64>) -> Task {
    Task {
        id,
        title: format!("task {id}"),
        description: "notes".to_string(),
        is_done: done,
        priority: Priority::Unset,
        due_date: due.map(ts),
        has_due_time: false,
        created_at: ts(10),
        updated_at: ts(10),
        completed_at: if done { Some(ts(20)) } else { None },
    }
}

fn quiet() -> RowEffects {
    RowEffects { output: None, follow_up: None, sync_buffers: false }
}

#[test]
fn priority_classes() {
    assert_eq!(priority_class(Priority::Low), "priority-low");
    assert_eq!(priority_class(Priority::Medium), "priority-medium");
    assert_eq!(priority_class(Priority::High), "priority-high");
    assert_eq!(priority_class(Priority::Urgent), "priority-urgent");
    assert_eq!(priority_class(Priority::Unset), "priority-none");
}

#[test]
fn row_classes() {
    let mut t = task(1, false, None);
    t.priority = Priority::High;
    assert_eq!(compact_row_classes(&t), vec!["task-row", "priority-high"]);
    t.is_done = true;
    assert_eq!(compact_row_classes(&t), vec!["task-row", "priority-high", "task-done"]);
    assert_eq!(priority_dot_classes(&t, Priority::High), vec!["priority-dot", "priority-dot-high", "priority-dot-active"]);
    assert_eq!(priority_dot_classes(&t, Priority::Low), vec!["priority-dot", "priority-dot-low"]);
    assert_eq!(priority_dot_classes(&t, Priority::Unset), vec!["priority-dot", ""]);
    assert_eq!(card_classes(true), vec!["task-edit-card"]);
    assert!(card_classes(false).is_empty());
    assert_eq!(due_label_classes(true), vec!["caption", "task-due-label", "task-due-overdue"]);
    assert_eq!(due_label_classes(false), vec!["caption", "dim-label", "task-due-label"]);
    assert_eq!(title_markup("a &amp; b", true), "<s>a &amp; b</s>");
    assert_eq!(title_markup("a &amp; b", false), "a &amp; b");
}

#[test]
fn row_toggle_and_expand() {
    let mut row = RowModel::new(task(5, false, None));
    assert_eq!(row.task_id(), 5);
    let e = row.update(TaskRowInput::Toggle, "", "", ts(0));
    assert!(row.task.is_done);
    assert_eq!(e.output, Some(TaskRowOutput::Toggled(5)));
    let e = row.update(TaskRowInput::ToggleExpand, "", "", ts(0));
    assert!(row.expanded);
    assert!(e.sync_buffers);
    let e = row.update(TaskRowInput::ToggleExpand, "", "", ts(0));
    assert!(row.expanded);
    assert_eq!(e.follow_up, Some(TaskRowInput::SaveAndCollapse));
}

#[test]
fn row_save_and_collapse() {
    let mut row = RowModel::new(task(5, false, None));
    row.expanded = true;
    assert!(!row.has_changes(" task 5 ", "notes\n"));
    let e = row.update(TaskRowInput::SaveAndCollapse, " task 5 ", "notes\n", ts(0));
    assert_eq!(e, quiet());
    assert!(!row.expanded);
    row.expanded = true;
    let e = row.update(TaskRowInput::SaveAndCollapse, " Renamed ", " more ", ts(0));
    assert_eq!(row.task.title, "Renamed");
    assert_eq!(row.task.description, "more");
    assert_eq!(e.output, Some(TaskRowOutput::Updated(row.task.clone())));
    row.expanded = true;
    let e = row.update(TaskRowInput::SaveAndCollapse, "   ", "more", ts(0));
    assert_eq!(row.task.title, "");
    assert_eq!(e.output, None);
    assert!(!row.expanded);
}

#[test]
fn row_priority_buttons() {
    let mut row = RowModel::new(task(6, false, None));
    let e = row.update(TaskRowInput::SetPriority(Priority::High), "", "", ts(0));
    assert_eq!(row.task.priority, Priority::High);
    assert_eq!(e.output, Some(TaskRowOutput::Updated(row.task.clone())));
    row.update(TaskRowInput::SetPriority(Priority::Low), "", "", ts(0));
    assert_eq!(row.task.priority, Priority::Low);
    row.update(TaskRowInput::SetPriority(Priority::Low), "", "", ts(0));
    assert_eq!(row.task.priority, Priority::Unset);
}

#[test]
fn row_due_dates() {
    let mut row = RowModel::new(task(7, false, None));
    row.task.has_due_time = true;
    let e = row.update(TaskRowInput::SetDueToday, "", "", ts(1_000));
    assert_eq!(row.task.due_date, Some(ts(1_000)));
    assert!(!row.task.has_due_time);
    assert_eq!(e.output, Some(TaskRowOutput::Updated(row.task.clone())));
    row.update(TaskRowInput::SetDueTomorrow, "", "", Timestamp { secs: 1_000, nanos: 5 });
    assert_eq!(row.task.due_date, Some(Timestamp { secs: 87_400, nanos: 5 }));
    row.update(TaskRowInput::ClearDueDate, "", "", ts(0));
    assert_eq!(row.task.due_date, None);
    let e = row.update(TaskRowInput::SetDueDate { year: 2024, month: 2, day: 30 }, "", "", ts(0));
    assert_eq!(e, quiet());
    assert_eq!(row.task.due_date, None);
    let e = row.update(TaskRowInput::SetDueDate { year: 2024, month: 3, day: 15 }, "", "", ts(0));
    let due = row.task.due_date.expect("a due date");
    // Local midnight of 2024-03-15 lies within a day of its UTC midnight.
    assert!((due.secs - 1_710_460_800).abs() <= 86_400);
    assert_eq!(e.output, Some(TaskRowOutput::Updated(row.task.clone())));
}

#[test]
fn row_reports_and_replacements() {
    let mut row = RowModel::new(task(8, false, None));
    assert_eq!(row.update(TaskRowInput::Duplicate, "", "", ts(0)).output, Some(TaskRowOutput::Duplicated(8)));
    assert_eq!(row.update(TaskRowInput::Delete, "", "", ts(0)).output, Some(TaskRowOutput::Deleted(8)));
    row.update(TaskRowInput::SetRevealed(false), "", "", ts(0));
    assert!(!row.revealed);
    let e = row.update(TaskRowInput::ReplaceTask(task(8, true, None)), "", "", ts(0));
    assert!(row.task.is_done);
    assert_eq!(e, quiet());
}

#[test]
fn board_refresh_splits_inbox() {
    let mut board = BoardModel::new();
    let acts = board.refresh(vec![task(3, false, None), task(2, true, None), task(1, false, None)]);
    assert_eq!(acts.len(), 5);
    assert_eq!(acts[0], BoardAction::Clear(ListId::Open));
    assert_eq!(acts[1], BoardAction::Clear(ListId::Done));
    assert_eq!(acts[3], BoardAction::PushBack(ListId::Done, task(2, true, None)));
    assert_eq!(board.open_ids, vec![3, 1]);
    assert_eq!(board.done_ids, vec![2]);
    board.select_view(SidebarSelection::Completed);
    board.refresh(vec![task(2, true, None)]);
    assert_eq!(board.open_ids, vec![2]);
    assert!(board.done_ids.is_empty());
    board.toggle_sidebar();
    assert!(!board.show_sidebar);
}

#[test]
fn board_created_and_deleted() {
    let mut board = BoardModel::new();
    board.refresh(vec![task(1, false, None)]);
    let acts = board.handle_core_event_at(CoreEvent::TaskCreated(task(2, false, None)), None);
    assert_eq!(acts, vec![BoardAction::PushFront(ListId::Open, task(2, false, None))]);
    assert_eq!(board.open_ids, vec![2, 1]);
    let acts = board.handle_core_event_at(CoreEvent::TaskDeleted(1), None);
    assert_eq!(acts, vec![BoardAction::Remove(ListId::Open, 1)]);
    assert_eq!(board.open_ids, vec![2]);
    board.select_view(SidebarSelection::Completed);
    let acts = board.handle_core_event(CoreEvent::TaskCreated(task(9, false, None)), &ts(1_700_000_000));
    assert!(acts.is_empty());
}

#[test]
fn board_completing_in_inbox_moves_later() {
    let mut board = BoardModel::new();
    board.refresh(vec![task(4, false, None), task(3, false, None)]);
    let acts = board.handle_core_event_at(CoreEvent::TaskUpdated(task(3, true, None)), None);
    assert_eq!(acts, vec![
        BoardAction::Send(ListId::Open, 1, TaskRowInput::SetRevealed(false)),
        BoardAction::Schedule(FinalizeMsg::Move { task: task(3, true, None), to_done: true, token: 0 }),
    ]);
    assert_eq!(board.next_finalize_token, 1);
    assert_eq!(board.pending_finalize.get(&3), Some(&0));
    // A stale token does nothing.
    assert!(board.handle_finalize_move(task(3, true, None), true, 7).is_empty());
    let acts = board.handle_finalize_move(task(3, true, None), true, 0);
    assert_eq!(acts, vec![
        BoardAction::Remove(ListId::Open, 1),
        BoardAction::PushFront(ListId::Done, task(3, true, None)),
    ]);
    assert_eq!(board.open_ids, vec![4]);
    assert_eq!(board.done_ids, vec![3]);
    // The same token cannot be claimed twice.
    assert!(board.handle_finalize_move(task(3, true, None), true, 0).is_empty());
}

#[test]
fn board_update_cuts_pending_step_short() {
    let mut board = BoardModel::new();
    board.refresh(vec![task(4, false, None)]);
    board.handle_core_event_at(CoreEvent::TaskUpdated(task(4, true, None)), None);
    let acts = board.handle_core_event_at(CoreEvent::TaskUpdated(task(4, false, None)), None);
    assert_eq!(acts, vec![
        BoardAction::Send(ListId::Open, 0, TaskRowInput::SetRevealed(true)),
        BoardAction::Send(ListId::Open, 0, TaskRowInput::ReplaceTask(task(4, false, None))),
    ]);
    assert!(board.pending_finalize.is_empty());
    assert!(board.handle_finalize_move(task(4, true, None), true, 0).is_empty());
}

#[test]
fn board_task_leaving_view_is_removed_later() {
    let mut board = BoardModel::new();
    board.select_view(SidebarSelection::Today);
    board.refresh(vec![task(5, false, Some(100))]);
    let end = Some(ts(1_000));
    let acts = board.handle_core_event_at(CoreEvent::TaskUpdated(task(5, false, Some(5_000))), end);
    assert_eq!(acts, vec![
        BoardAction::Send(ListId::Open, 0, TaskRowInput::SetRevealed(false)),
        BoardAction::Schedule(FinalizeMsg::Remove { id: 5, token: 0 }),
    ]);
    assert_eq!(board.handle_finalize_remove(5, 0), vec![BoardAction::Remove(ListId::Open, 0)]);
    assert!(board.open_ids.is_empty());
    let acts = board.handle_core_event_at(CoreEvent::TaskUpdated(task(6, false, Some(500))), end);
    assert_eq!(acts, vec![BoardAction::PushFront(ListId::Open, task(6, false, Some(500)))]);
}

#[test]
fn board_schedule_and_claim() {
    let mut board = BoardModel::new();
    let a = board.schedule_finalize(1);
    let b = board.schedule_finalize(1);
    assert_ne!(a, b);
    assert!(!board.claim_finalize(1, a));
    assert!(board.claim_finalize(1, b));
    assert!(!board.claim_finalize(1, b));
    board.next_finalize_token = u64::MAX;
    assert_eq!(board.schedule_finalize(2), u64::MAX);
    assert_eq!(board.next_finalize_token, 0);
}

#[test]
fn quick_add_and_entry() {
    assert_eq!(quick_add_submission("  Call mum ", " today "), Some(("Call mum".to_string(), " today ".to_string())));
    assert_eq!(quick_add_submission(" \t ", "text"), None);
    assert_eq!(task_input_submission("  New Task "), Some("New Task".to_string()));
    assert_eq!(task_input_submission(""), None);
}

#[test]
fn same_priority_twice_restores_row() {
    let mut row = RowModel::new(task(11, false, None));
    row.update(TaskRowInput::SetPriority(Priority::Urgent), "", "", ts(0));
    row.update(TaskRowInput::SetPriority(Priority::Urgent), "", "", ts(0));
    assert_eq!(row, RowModel::new(task(11, false, None)));
    row.update(TaskRowInput::Toggle, "", "", ts(0));
    row.update(TaskRowInput::Toggle, "", "", ts(0));
    assert_eq!(row, RowModel::new(task(11, false, None)));
}

#[test]
fn row_due_midnight() {
    let mut row = RowModel::new(task(7, false, None));
    row.task.has_due_time = true;
    let before = RowModel::new(row.task.clone());
    let e = row.set_due_midnight(None);
    assert_eq!(e, quiet());
    assert_eq!(row.task, before.task);
    let e = row.set_due_midnight(Some(ts(1_710_460_800)));
    assert_eq!(row.task.due_date, Some(ts(1_710_460_800)));
    assert!(!row.task.has_due_time);
    assert_eq!(row.task.title, "task 7");
    assert_eq!(e, RowEffects { output: Some(TaskRowOutput::Updated(row.task.clone())), follow_up: None, sync_buffers: false });
}

#[test]
fn sidebar_toggled_twice() {
    let mut board = BoardModel::new();
    board.refresh(vec![task(3, false, None), task(2, true, None)]);
    let shown = board.show_sidebar;
    board.toggle_sidebar();
    assert_eq!(board.show_sidebar, !shown);
    board.toggle_sidebar();
    assert_eq!(board.show_sidebar, shown);
    assert_eq!(board.open_ids, vec![3]);
    assert_eq!(board.done_ids, vec![2]);
    assert_eq!(board.selection, SidebarSelection::Inbox);
}

#[test]
fn row_due_tomorrow_from_leap_second() {
    let mut row = RowModel::new(task(9, false, None));
    let e = row.update(TaskRowInput::SetDueTomorrow, "", "", Timestamp { secs: 1_019, nanos: 1_250_000_000 });
    assert_eq!(row.task.due_date, Some(Timestamp { secs: 87_419, nanos: 250_000_000 }));
    assert_eq!(e.output, Some(TaskRowOutput::Updated(row.task.clone())));
}
