//! The entries of the sidebar and the view each one opens.
use crate::filter::TaskFilter;
use vstd::prelude::*;

verus! {

/// An entry of the sidebar.
#[derive(Debug, Clone, Copy, PartialEq, Eq, Structural)]
pub enum SidebarSelection {
    Inbox,
    Today,
    Scheduled,
    Labels,
    Filters,
    Completed,
}

impl SidebarSelection {
    /// The icon name of the entry.
    pub open spec fn icon_name(self) -> Seq<char> {
        match self {
            SidebarSelection::Inbox => "mail-inbox-symbolic"@,
            SidebarSelection::Today => "starred-symbolic"@,
            SidebarSelection::Scheduled => "x-office-calendar-symbolic"@,
            SidebarSelection::Labels => "tag-symbolic"@,
            SidebarSelection::Filters => "preferences-other-symbolic"@,
            SidebarSelection::Completed => "checkbox-checked-symbolic"@,
        }
    }

    /// The title of the entry.
    pub open spec fn title_text(self) -> Seq<char> {
        match self {
            SidebarSelection::Inbox => "Inbox"@,
            SidebarSelection::Today => "Today"@,
            SidebarSelection::Scheduled => "Scheduled"@,
            SidebarSelection::Labels => "Labels"@,
            SidebarSelection::Filters => "Filters"@,
            SidebarSelection::Completed => "Completed"@,
        }
    }

    /// The view that the entry opens; labels and saved filters open none yet.
    pub open spec fn filter_of(self) -> Option<TaskFilter> {
        match self {
            SidebarSelection::Inbox => Some(TaskFilter::Inbox),
            SidebarSelection::Today => Some(TaskFilter::Today),
            SidebarSelection::Scheduled => Some(TaskFilter::Upcoming),
            SidebarSelection::Labels => None,
            SidebarSelection::Filters => None,
            SidebarSelection::Completed => Some(TaskFilter::Completed),
        }
    }

    /// The icon name of the entry.
    pub fn icon(self) -> (r: &'static str)
        ensures
            r@ == self.icon_name(),
    {
        match self {
            SidebarSelection::Inbox => "mail-inbox-symbolic",
            SidebarSelection::Today => "starred-symbolic",
            SidebarSelection::Scheduled => "x-office-calendar-symbolic",
            SidebarSelection::Labels => "tag-symbolic",
            SidebarSelection::Filters => "preferences-other-symbolic",
            SidebarSelection::Completed => "checkbox-checked-symbolic",
        }
    }

    /// The title of the entry.
    pub fn title(self) -> (r: &'static str)
        ensures
            r@ == self.title_text(),
    {
        match self {
            SidebarSelection::Inbox => "Inbox",
            SidebarSelection::Today => "Today",
            SidebarSelection::Scheduled => "Scheduled",
            SidebarSelection::Labels => "Labels",
            SidebarSelection::Filters => "Filters",
            SidebarSelection::Completed => "Completed",
        }
    }

    /// The view that the entry opens, if any.
    pub fn task_filter(self) -> (r: Option<TaskFilter>)
        ensures
            r == self.filter_of(),
    {
        match self {
            SidebarSelection::Inbox => Some(TaskFilter::Inbox),
            SidebarSelection::Today => Some(TaskFilter::Today),
            SidebarSelection::Scheduled => Some(TaskFilter::Upcoming),
            SidebarSelection::Labels => None,
            SidebarSelection::Filters => None,
            SidebarSelection::Completed => Some(TaskFilter::Completed),
        }
    }

    /// The entries in the order the sidebar shows them.
    pub fn all() -> (r: Vec<SidebarSelection>)
        ensures
            r@ == seq![
                SidebarSelection::Inbox,
                SidebarSelection::Today,
                SidebarSelection::Scheduled,
                SidebarSelection::Labels,
                SidebarSelection::Filters,
                SidebarSelection::Completed,
            ],
    {
        vec![
            SidebarSelection::Inbox,
            SidebarSelection::Today,
            SidebarSelection::Scheduled,
            SidebarSelection::Labels,
            SidebarSelection::Filters,
            SidebarSelection::Completed,
        ]
    }
}

/// The entry that the sidebar selects after a click on `clicked` while
/// `current` is selected, and whether the choice is announced: only a
/// change of entry is.
pub fn select_entry(current: SidebarSelection, clicked: SidebarSelection) -> (r: (
    SidebarSelection,
    bool,
))
    ensures
        r.0 == clicked,
        r.1 == (clicked != current),
{
    (clicked, clicked != current)
}

} // verus!
