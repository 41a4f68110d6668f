//! The small enums of the view state.
use vstd::prelude::*;

verus! {

/// Whether keys go to the main view or to the login form.
#[derive(Debug, Clone, Copy, PartialEq, Eq, Structural)]
pub enum InputMode {
    Normal,
    Login,
}

/// The login form field that has the focus.
#[derive(Debug, Clone, Copy, PartialEq, Eq, Structural)]
pub enum LoginFocus {
    Username,
    Password,
    RememberMe,
}

/// Which list the main pane shows.
#[derive(Debug, Clone, Copy, PartialEq, Eq, Structural)]
pub enum ViewMode {
    Tiers,
    Replicasets,
    Instances,
}

impl ViewMode {
    /// The mode that follows this one in the cycle Tiers, Replicasets, Instances.
    pub fn cycle_next(self) -> (r: ViewMode)
        ensures
            self == ViewMode::Tiers ==> r == ViewMode::Replicasets,
            self == ViewMode::Replicasets ==> r == ViewMode::Instances,
            self == ViewMode::Instances ==> r == ViewMode::Tiers,
    {
        match self {
            ViewMode::Tiers => ViewMode::Replicasets,
            ViewMode::Replicasets => ViewMode::Instances,
            ViewMode::Instances => ViewMode::Tiers,
        }
    }

    pub fn label(self) -> (r: &'static str)
        ensures
            self == ViewMode::Tiers ==> r@ == "Tiers"@,
            self == ViewMode::Replicasets ==> r@ == "Replicasets"@,
            self == ViewMode::Instances ==> r@ == "Instances"@,
    {
        match self {
            ViewMode::Tiers => "Tiers",
            ViewMode::Replicasets => "Replicasets",
            ViewMode::Instances => "Instances",
        }
    }
}

impl Default for ViewMode {
    fn default() -> (r: ViewMode)
        ensures
            r == ViewMode::Tiers,
    {
        ViewMode::Tiers
    }
}

/// The key the instances list is sorted by.
#[derive(Debug, Clone, Copy, PartialEq, Eq, Structural)]
pub enum SortField {
    Name,
    FailureDomain,
}

impl SortField {
    pub open spec fn cycle_next_spec(self) -> SortField {
        match self {
            SortField::Name => SortField::FailureDomain,
            SortField::FailureDomain => SortField::Name,
        }
    }

    pub fn cycle_next(self) -> (r: SortField)
        ensures
            r == self.cycle_next_spec(),
            self == SortField::Name ==> r == SortField::FailureDomain,
            self == SortField::FailureDomain ==> r == SortField::Name,
    {
        match self {
            SortField::Name => SortField::FailureDomain,
            SortField::FailureDomain => SortField::Name,
        }
    }

    pub fn label(self) -> (r: &'static str)
        ensures
            self == SortField::Name ==> r@ == "Name"@,
            self == SortField::FailureDomain ==> r@ == "Domain"@,
    {
        match self {
            SortField::Name => "Name",
            SortField::FailureDomain => "Domain",
        }
    }
}

impl Default for SortField {
    fn default() -> (r: SortField)
        ensures
            r == SortField::Name,
    {
        SortField::Name
    }
}

#[derive(Debug, Clone, Copy, PartialEq, Eq, Structural)]
pub enum SortOrder {
    Asc,
    Desc,
}

impl SortOrder {
    pub open spec fn toggle_spec(self) -> SortOrder {
        match self {
            SortOrder::Asc => SortOrder::Desc,
            SortOrder::Desc => SortOrder::Asc,
        }
    }

    pub fn toggle(self) -> (r: SortOrder)
        ensures
            r == self.toggle_spec(),
            self == SortOrder::Asc ==> r == SortOrder::Desc,
            self == SortOrder::Desc ==> r == SortOrder::Asc,
    {
        match self {
            SortOrder::Asc => SortOrder::Desc,
            SortOrder::Desc => SortOrder::Asc,
        }
    }

    pub fn arrow(self) -> (r: &'static str)
        ensures
            self == SortOrder::Asc ==> r@ == "↑"@,
            self == SortOrder::Desc ==> r@ == "↓"@,
    {
        match self {
            SortOrder::Asc => "↑",
            SortOrder::Desc => "↓",
        }
    }
}

impl Default for SortOrder {
    fn default() -> (r: SortOrder)
        ensures
            r == SortOrder::Asc,
    {
        SortOrder::Asc
    }
}

/// One row of the Tiers view: a tier, a replicaset of a tier, or an instance
/// of a replicaset, by position in the data.
#[derive(Debug, Clone, Copy, PartialEq, Eq, Structural)]
pub enum TreeItem {
    Tier(usize),
    Replicaset(usize, usize),
    Instance(usize, usize, usize),
}

} // verus!
