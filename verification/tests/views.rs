use kromodo_core::events::{
    created_event, delete_event, kept_subscribers, toggle_event, update_event, EventBus,
};
use kromodo_core::query::{
    list_completed_tasks, list_tasks, list_tasks_due_between, list_tasks_for_filter, sort_tasks,
    TaskOrder,
};
use kromodo_core::ui::sidebar::{select_entry, SidebarSelection};
use kromodo_core::{CoreEvent, Priority, Task, TaskFilter, Timestamp};

fn ts(secs: i64) -> Timestamp {
    Timestamp { secs, nanos: 0 }
}

fn clock() -> Timestamp {
    let since = std::time::SystemTime::now()
        .duration_since(std::time::UNIX_EPOCH)
        .expect("clock after 1970");
    Timestamp { secs: since.as_secs() as i64, nanos: since.subsec_nanos() }
}

fn task(id: i64, done: bool, due: Option<i64>, completed: Option<i64>) -> Task {
    Task {
        id,
        title: format!("task {id}"),
        description: String::new(),
        is_done: done,
        priority: Priority::Unset,
        due_date: due.map(ts),
        has_due_time: false,
        created_at: ts(10),
        updated_at: ts(10),
        completed_at: completed.map(ts),
    }
}

fn ids(v: &[Task]) -> Vec<i64> {
    v.iter().map(|t| t.id).collect()
}

#[test]
fn views_at_end_of_day() {
    let end = ts(1_000);
    let open_due_before = task(1, false, Some(999), None);
    let open_due_at_end = task(2, false, Some(1_000), None);
    let open_undated = task(3, false, None, None);
    let done_due_before = task(4, true, Some(10), Some(20));
    for t in [&open_due_before, &open_due_at_end, &open_undated, &done_due_before] {
        assert!(TaskFilter::Inbox.matches_before(t, &end));
    }
    assert!(TaskFilter::Today.matches_before(&open_due_before, &end));
    assert!(!TaskFilter::Today.matches_before(&open_due_at_end, &end));
    assert!(!TaskFilter::Today.matches_before(&open_undated, &end));
    assert!(!TaskFilter::Today.matches_before(&done_due_before, &end));
    assert!(TaskFilter::Upcoming.matches_before(&open_due_at_end, &end));
    assert!(!TaskFilter::Upcoming.matches_before(&open_due_before, &end));
    assert!(!TaskFilter::Upcoming.matches_before(&open_undated, &end));
    assert!(TaskFilter::Completed.matches_before(&done_due_before, &end));
    assert!(!TaskFilter::Completed.matches_before(&open_undated, &end));
}

#[test]
fn views_now() {
    let overdue = task(1, false, Some(0), None);
    let far = task(2, false, Some(8_000_000_000_000), None);
    let done = task(3, true, None, Some(5));
    let now = clock();
    assert!(TaskFilter::Inbox.matches(&overdue, &now));
    assert!(TaskFilter::Today.matches(&overdue, &now));
    assert!(!TaskFilter::Upcoming.matches(&overdue, &now));
    assert!(TaskFilter::Upcoming.matches(&far, &now));
    assert!(!TaskFilter::Today.matches(&far, &now));
    assert!(TaskFilter::Completed.matches(&done, &now));
    assert!(!TaskFilter::Today.matches(&done, &now));
}

#[test]
fn whole_list_newest_first() {
    let rows = vec![task(2, false, None, None), task(7, true, None, Some(1)), task(4, false, Some(3), None)];
    assert_eq!(ids(&list_tasks(&rows)), vec![7, 4, 2]);
    assert_eq!(ids(&list_tasks(&Vec::new())), Vec::<i64>::new());
}

#[test]
fn due_between_orders_open_first_then_due() {
    let rows = vec![
        task(1, true, Some(100), Some(5)),
        task(2, false, Some(300), None),
        task(3, false, Some(100), None),
        task(4, false, Some(100), None),
        task(5, false, Some(50), None),
        task(6, false, None, None),
        task(7, false, Some(400), None),
    ];
    let r = list_tasks_due_between(&rows, ts(100), ts(400));
    assert_eq!(ids(&r), vec![4, 3, 2, 1]);
}

#[test]
fn completed_latest_first() {
    let rows = vec![
        task(1, true, None, Some(100)),
        task(2, true, None, Some(300)),
        task(3, false, None, None),
        task(4, true, None, None),
        task(5, true, None, Some(300)),
    ];
    assert_eq!(ids(&list_completed_tasks(&rows)), vec![5, 2, 1, 4]);
}

#[test]
fn listing_for_each_view() {
    let rows = vec![
        task(1, false, Some(500), None),
        task(2, false, Some(2_000), None),
        task(3, true, Some(100), Some(900)),
        task(4, false, None, None),
        task(5, false, Some(200), None),
    ];
    let end = Some(ts(1_000));
    assert_eq!(ids(&list_tasks_for_filter(&rows, TaskFilter::Inbox, end)), vec![5, 4, 3, 2, 1]);
    assert_eq!(ids(&list_tasks_for_filter(&rows, TaskFilter::Today, end)), vec![5, 1]);
    assert_eq!(ids(&list_tasks_for_filter(&rows, TaskFilter::Upcoming, end)), vec![2]);
    assert_eq!(ids(&list_tasks_for_filter(&rows, TaskFilter::Completed, end)), vec![3]);
    assert_eq!(ids(&list_tasks_for_filter(&rows, TaskFilter::Today, None)), Vec::<i64>::new());
    assert_eq!(ids(&list_tasks_for_filter(&rows, TaskFilter::Inbox, None)), vec![5, 4, 3, 2, 1]);
}

#[test]
fn sorting_keeps_every_task() {
    let rows = vec![task(3, false, None, None), task(1, false, None, None), task(2, false, None, None)];
    let sorted = sort_tasks(&rows, TaskOrder::NewestFirst);
    assert_eq!(ids(&sorted), vec![3, 2, 1]);
    let again = sort_tasks(&sorted, TaskOrder::NewestFirst);
    assert_eq!(again, sorted);
}

#[test]
fn events_after_changes() {
    let t = task(8, false, None, None);
    assert_eq!(created_event(&t), CoreEvent::TaskCreated(t.clone()));
    assert_eq!(update_event(true, &t), Some(CoreEvent::TaskUpdated(t.clone())));
    assert_eq!(update_event(false, &t), None);
    assert_eq!(toggle_event(&Some(t.clone())), Some(CoreEvent::TaskUpdated(t.clone())));
    assert_eq!(toggle_event(&None), None);
    assert_eq!(delete_event(true, 8), Some(CoreEvent::TaskDeleted(8)));
    assert_eq!(delete_event(false, 8), None);
}

#[test]
fn bus_delivers_and_forgets_gone_subscribers() {
    let mut bus = EventBus::new();
    let first = bus.subscribe();
    let second = bus.subscribe();
    bus.publish(&CoreEvent::TaskDeleted(1));
    assert_eq!(first.try_recv(), Ok(CoreEvent::TaskDeleted(1)));
    assert_eq!(second.try_recv(), Ok(CoreEvent::TaskDeleted(1)));
    drop(first);
    bus.publish(&CoreEvent::TaskDeleted(2));
    assert_eq!(second.try_recv(), Ok(CoreEvent::TaskDeleted(2)));
    let third = bus.subscribe();
    bus.publish(&CoreEvent::TaskDeleted(3));
    assert_eq!(second.try_recv(), Ok(CoreEvent::TaskDeleted(3)));
    assert_eq!(third.try_recv(), Ok(CoreEvent::TaskDeleted(3)));
    assert!(third.try_recv().is_err());
}

#[test]
fn sidebar_entries() {
    let all = SidebarSelection::all();
    assert_eq!(all.len(), 6);
    assert_eq!(all[0], SidebarSelection::Inbox);
    assert_eq!(all[5], SidebarSelection::Completed);
    assert_eq!(SidebarSelection::Inbox.icon(), "mail-inbox-symbolic");
    assert_eq!(SidebarSelection::Scheduled.icon(), "x-office-calendar-symbolic");
    assert_eq!(SidebarSelection::Completed.title(), "Completed");
    assert_eq!(SidebarSelection::Scheduled.title(), "Scheduled");
    assert_eq!(SidebarSelection::Inbox.task_filter(), Some(TaskFilter::Inbox));
    assert_eq!(SidebarSelection::Today.task_filter(), Some(TaskFilter::Today));
    assert_eq!(SidebarSelection::Scheduled.task_filter(), Some(TaskFilter::Upcoming));
    assert_eq!(SidebarSelection::Labels.task_filter(), None);
    assert_eq!(SidebarSelection::Filters.task_filter(), None);
    assert_eq!(SidebarSelection::Completed.task_filter(), Some(TaskFilter::Completed));
    assert_eq!(select_entry(SidebarSelection::Inbox, SidebarSelection::Today), (SidebarSelection::Today, true));
    assert_eq!(select_entry(SidebarSelection::Today, SidebarSelection::Today), (SidebarSelection::Today, false));
}

#[test]
fn kept_subscribers_in_order() {
    let (tx1, rx1) = std::sync::mpsc::channel();
    let (tx2, rx2) = std::sync::mpsc::channel();
    let (tx3, rx3) = std::sync::mpsc::channel();
    let kept = kept_subscribers(vec![tx1, tx2, tx3], vec![true, false, true]);
    assert_eq!(kept.len(), 2);
    kept[0].send(CoreEvent::TaskDeleted(1)).unwrap();
    kept[1].send(CoreEvent::TaskDeleted(3)).unwrap();
    assert_eq!(rx1.try_recv(), Ok(CoreEvent::TaskDeleted(1)));
    assert!(rx2.try_recv().is_err());
    assert_eq!(rx3.try_recv(), Ok(CoreEvent::TaskDeleted(3)));
    assert!(kept_subscribers(Vec::new(), Vec::new()).is_empty());
}

#[test]
fn newest_task_listed_first() {
    let rows = vec![task(3, false, None, None), task(1, true, None, Some(2)), task(9, false, Some(5), None), task(2, false, None, None)];
    assert_eq!(list_tasks(&rows)[0].id, 9);
    assert_eq!(list_tasks(&rows)[0], rows[2]);
}
