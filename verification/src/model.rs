//! The update report: groups of package changes with totals, and the
//! change statuses that `dix` reports.
use vstd::prelude::*;
use crate::text::{copy_str, str_equal};

verus! {

#[derive(Clone, Debug)]
pub struct UpdateReport {
    pub flake: String,
    pub groups: Vec<ChangeGroup>,
    pub totals: ReportTotals,
}

#[derive(Clone, Debug)]
pub struct PackageChange {
    pub name: String,
    pub version: String,
    pub old_version: Option<String>,
    pub new_version: Option<String>,
    pub size: String,
}

#[derive(Clone, Debug, Default, Eq, PartialEq)]
pub struct VersionChange {
    pub old: Option<String>,
    pub new: Option<String>,
}

#[derive(Clone, Debug)]
pub struct ChangeGroup {
    pub status: ChangeStatus,
    pub items: Vec<PackageChange>,
}

#[derive(Clone, Debug, Default)]
pub struct ReportTotals {
    pub paths: Option<PathSummary>,
    pub size_old: Option<i64>,
    pub size_new: Option<i64>,
}

#[derive(Clone, Copy, Debug)]
pub struct PathSummary {
    pub old: i64,
    pub new: i64,
    pub added: i64,
    pub removed: i64,
}

#[derive(Clone, Debug, Eq, PartialEq)]
pub enum ChangeStatus {
    Added,
    Removed,
    Upgraded,
    Downgraded,
    Changed,
    Other(String),
}

// ---------------------------------------------------------------------------
// Mathematical views
// ---------------------------------------------------------------------------

/// A change status as a mathematical value.
pub enum StatusView {
    Added,
    Removed,
    Upgraded,
    Downgraded,
    Changed,
    Other(Seq<char>),
}

pub struct PackageChangeView {
    pub name: Seq<char>,
    pub version: Seq<char>,
    pub old_version: Option<Seq<char>>,
    pub new_version: Option<Seq<char>>,
    pub size: Seq<char>,
}

pub struct VersionChangeView {
    pub old: Option<Seq<char>>,
    pub new: Option<Seq<char>>,
}

pub struct ChangeGroupView {
    pub status: StatusView,
    pub items: Seq<PackageChangeView>,
}

pub struct UpdateReportView {
    pub flake: Seq<char>,
    pub groups: Seq<ChangeGroupView>,
    pub totals: ReportTotals,
}

pub open spec fn opt_view(o: Option<String>) -> Option<Seq<char>> {
    match o {
        Some(s) => Some(s@),
        None => None,
    }
}

impl View for ChangeStatus {
    type V = StatusView;

    open spec fn view(&self) -> StatusView {
        match self {
            ChangeStatus::Added => StatusView::Added,
            ChangeStatus::Removed => StatusView::Removed,
            ChangeStatus::Upgraded => StatusView::Upgraded,
            ChangeStatus::Downgraded => StatusView::Downgraded,
            ChangeStatus::Changed => StatusView::Changed,
            ChangeStatus::Other(s) => StatusView::Other(s@),
        }
    }
}

impl View for PackageChange {
    type V = PackageChangeView;

    open spec fn view(&self) -> PackageChangeView {
        PackageChangeView {
            name: self.name@,
            version: self.version@,
            old_version: opt_view(self.old_version),
            new_version: opt_view(self.new_version),
            size: self.size@,
        }
    }
}

impl View for VersionChange {
    type V = VersionChangeView;

    open spec fn view(&self) -> VersionChangeView {
        VersionChangeView { old: opt_view(self.old), new: opt_view(self.new) }
    }
}

pub open spec fn items_view(items: Seq<PackageChange>) -> Seq<PackageChangeView> {
    items.map_values(|c: PackageChange| c@)
}

impl View for ChangeGroup {
    type V = ChangeGroupView;

    open spec fn view(&self) -> ChangeGroupView {
        ChangeGroupView { status: self.status@, items: items_view(self.items@) }
    }
}

pub open spec fn groups_view(groups: Seq<ChangeGroup>) -> Seq<ChangeGroupView> {
    groups.map_values(|g: ChangeGroup| g@)
}

impl View for UpdateReport {
    type V = UpdateReportView;

    open spec fn view(&self) -> UpdateReportView {
        UpdateReportView { flake: self.flake@, groups: groups_view(self.groups@), totals: self.totals }
    }
}

// ---------------------------------------------------------------------------
// Status vocabulary
// ---------------------------------------------------------------------------

/// The status `dix` names by `status`.
pub open spec fn status_from_dix(status: Seq<char>) -> StatusView {
    if status == "Added"@ {
        StatusView::Added
    } else if status == "Removed"@ {
        StatusView::Removed
    } else if status == "Upgraded"@ {
        StatusView::Upgraded
    } else if status == "Downgraded"@ {
        StatusView::Downgraded
    } else if status == "Changed"@ {
        StatusView::Changed
    } else {
        StatusView::Other(status)
    }
}

pub open spec fn css_class_of(s: StatusView) -> Seq<char> {
    match s {
        StatusView::Added => "added"@,
        StatusView::Removed => "removed"@,
        StatusView::Upgraded => "upgraded"@,
        StatusView::Downgraded => "downgraded"@,
        StatusView::Changed => "changed"@,
        StatusView::Other(_) => "other"@,
    }
}

pub open spec fn marker_of(s: StatusView) -> Seq<char> {
    match s {
        StatusView::Added => "[A+]"@,
        StatusView::Removed => "[R]"@,
        StatusView::Upgraded => "[U.]"@,
        StatusView::Downgraded => "[D]"@,
        StatusView::Changed => "[C]"@,
        StatusView::Other(_) => "[?]"@,
    }
}

pub open spec fn heading_of(s: StatusView) -> Seq<char> {
    match s {
        StatusView::Added => "Added"@,
        StatusView::Removed => "Removed"@,
        StatusView::Upgraded => "Upgraded"@,
        StatusView::Downgraded => "Downgraded"@,
        StatusView::Changed => "Changed"@,
        StatusView::Other(t) => t,
    }
}

pub open spec fn summary_label_of(s: StatusView) -> Seq<char> {
    css_class_of(s)
}

pub open spec fn shows_old_new(s: StatusView) -> bool {
    s is Upgraded || s is Downgraded
}

pub open spec fn order_of(s: StatusView) -> nat {
    match s {
        StatusView::Added => 0,
        StatusView::Removed => 1,
        StatusView::Upgraded => 2,
        StatusView::Downgraded => 3,
        StatusView::Changed => 4,
        StatusView::Other(_) => 5,
    }
}

impl ChangeStatus {
    pub fn from_dix(status: String) -> (r: Self)
        ensures
            r@ == status_from_dix(status@),
    {
        if str_equal(status.as_str(), "Added") {
            ChangeStatus::Added
        } else if str_equal(status.as_str(), "Removed") {
            ChangeStatus::Removed
        } else if str_equal(status.as_str(), "Upgraded") {
            ChangeStatus::Upgraded
        } else if str_equal(status.as_str(), "Downgraded") {
            ChangeStatus::Downgraded
        } else if str_equal(status.as_str(), "Changed") {
            ChangeStatus::Changed
        } else {
            ChangeStatus::Other(status)
        }
    }

    pub fn css_class(&self) -> (r: &'static str)
        ensures
            r@ == css_class_of(self@),
    {
        match self {
            ChangeStatus::Added => "added",
            ChangeStatus::Removed => "removed",
            ChangeStatus::Upgraded => "upgraded",
            ChangeStatus::Downgraded => "downgraded",
            ChangeStatus::Changed => "changed",
            ChangeStatus::Other(_) => "other",
        }
    }

    pub fn default_marker(&self) -> (r: &'static str)
        ensures
            r@ == marker_of(self@),
    {
        match self {
            ChangeStatus::Added => "[A+]",
            ChangeStatus::Removed => "[R]",
            ChangeStatus::Upgraded => "[U.]",
            ChangeStatus::Downgraded => "[D]",
            ChangeStatus::Changed => "[C]",
            ChangeStatus::Other(_) => "[?]",
        }
    }

    pub fn heading(&self) -> (r: &str)
        ensures
            r@ == heading_of(self@),
    {
        match self {
            ChangeStatus::Added => "Added",
            ChangeStatus::Removed => "Removed",
            ChangeStatus::Upgraded => "Upgraded",
            ChangeStatus::Downgraded => "Downgraded",
            ChangeStatus::Changed => "Changed",
            ChangeStatus::Other(status) => status.as_str(),
        }
    }

    pub fn summary_label(&self) -> (r: &'static str)
        ensures
            r@ == summary_label_of(self@),
    {
        match self {
            ChangeStatus::Added => "added",
            ChangeStatus::Removed => "removed",
            ChangeStatus::Upgraded => "upgraded",
            ChangeStatus::Downgraded => "downgraded",
            ChangeStatus::Changed => "changed",
            ChangeStatus::Other(_) => "other",
        }
    }

    pub fn has_old_new_versions(&self) -> (r: bool)
        ensures
            r == shows_old_new(self@),
    {
        match self {
            ChangeStatus::Upgraded | ChangeStatus::Downgraded => true,
            _ => false,
        }
    }

    pub fn order(&self) -> (r: u8)
        ensures
            r as nat == order_of(self@),
    {
        match self {
            ChangeStatus::Added => 0,
            ChangeStatus::Removed => 1,
            ChangeStatus::Upgraded => 2,
            ChangeStatus::Downgraded => 3,
            ChangeStatus::Changed => 4,
            ChangeStatus::Other(_) => 5,
        }
    }

    /// Whether two statuses are the same (`Other` statuses by their text).
    pub fn same_as(&self, other: &ChangeStatus) -> (r: bool)
        ensures
            r == (self@ == other@),
    {
        match (self, other) {
            (ChangeStatus::Added, ChangeStatus::Added) => true,
            (ChangeStatus::Removed, ChangeStatus::Removed) => true,
            (ChangeStatus::Upgraded, ChangeStatus::Upgraded) => true,
            (ChangeStatus::Downgraded, ChangeStatus::Downgraded) => true,
            (ChangeStatus::Changed, ChangeStatus::Changed) => true,
            (ChangeStatus::Other(a), ChangeStatus::Other(b)) => str_equal(a.as_str(), b.as_str()),
            _ => false,
        }
    }

    /// A copy of the status.
    pub fn duplicate(&self) -> (r: ChangeStatus)
        ensures
            r@ == self@,
    {
        match self {
            ChangeStatus::Added => ChangeStatus::Added,
            ChangeStatus::Removed => ChangeStatus::Removed,
            ChangeStatus::Upgraded => ChangeStatus::Upgraded,
            ChangeStatus::Downgraded => ChangeStatus::Downgraded,
            ChangeStatus::Changed => ChangeStatus::Changed,
            ChangeStatus::Other(s) => ChangeStatus::Other(s.clone()),
        }
    }
}

/// Each status `dix` reports reads back as itself: `from_dix` of a heading
/// gives the status whose heading it is, for every status but an `Other`
/// that spells one of the five known headings.
pub proof fn lemma_heading_round_trip(s: StatusView)
    requires
        s is Other ==> status_from_dix(heading_of(s)) is Other,
    ensures
        status_from_dix(heading_of(s)) == s,
{
    reveal_strlit("Added");
    reveal_strlit("Removed");
    reveal_strlit("Upgraded");
    reveal_strlit("Downgraded");
    reveal_strlit("Changed");
    assert("Added"@[0] == 'A');
    assert("Removed"@[0] == 'R');
    assert("Upgraded"@[0] == 'U');
    assert("Downgraded"@[0] == 'D');
    assert("Changed"@[0] == 'C');
}

// ---------------------------------------------------------------------------
// A section's table
// ---------------------------------------------------------------------------

/// A version that may be missing, shown as "-" when it is.
pub open spec fn or_dash(o: Option<Seq<char>>) -> Seq<char> {
    match o {
        Some(s) => s,
        None => "-"@,
    }
}

/// The headings of a section's table: the old and new versions have a column
/// each where the status shows both, and share one otherwise.
pub open spec fn column_headings_spec(status: StatusView) -> Seq<Seq<char>> {
    if shows_old_new(status) {
        seq!["Category"@, "Name"@, "Old Version"@, "New Version"@, "Size"@]
    } else {
        seq!["Category"@, "Name"@, "Version"@, "Size"@]
    }
}

pub fn column_headings(status: &ChangeStatus) -> (r: Vec<&'static str>)
    ensures
        r@.len() == column_headings_spec(status@).len(),
        forall|i: int| 0 <= i < r@.len() ==> #[trigger] r@[i]@ == column_headings_spec(status@)[i],
{
    let mut v: Vec<&'static str> = Vec::new();
    v.push("Category");
    v.push("Name");
    if status.has_old_new_versions() {
        v.push("Old Version");
        v.push("New Version");
    } else {
        v.push("Version");
    }
    v.push("Size");
    v
}

/// The text of each cell of an item's row, column by column.
pub open spec fn row_cells_spec(status: StatusView, item: PackageChangeView) -> Seq<Seq<char>> {
    if shows_old_new(status) {
        seq![
            marker_of(status),
            item.name,
            or_dash(item.old_version),
            or_dash(item.new_version),
            item.size,
        ]
    } else {
        seq![marker_of(status), item.name, item.version, item.size]
    }
}

fn text_or_dash(o: &Option<String>) -> (r: String)
    ensures
        r@ == or_dash(opt_view(*o)),
{
    match o {
        Some(s) => s.clone(),
        None => copy_str("-"),
    }
}

pub fn row_cells(status: &ChangeStatus, item: &PackageChange) -> (r: Vec<String>)
    ensures
        r@.map_values(|s: String| s@) == row_cells_spec(status@, item@),
{
    let mut v: Vec<String> = Vec::new();
    v.push(copy_str(status.default_marker()));
    v.push(item.name.clone());
    if status.has_old_new_versions() {
        v.push(text_or_dash(&item.old_version));
        v.push(text_or_dash(&item.new_version));
    } else {
        v.push(item.version.clone());
    }
    v.push(item.size.clone());
    assert(v@.map_values(|s: String| s@) =~= row_cells_spec(status@, item@));
    v
}

/// Every row has exactly one cell under each heading of its section.
pub proof fn lemma_row_fills_columns(status: StatusView, item: PackageChangeView)
    ensures
        row_cells_spec(status, item).len() == column_headings_spec(status).len(),
{
}

} // verus!
