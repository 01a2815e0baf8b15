//! The diff report `dix` writes, and how it becomes an update report.
use vstd::prelude::*;
use crate::bytes::{format_signed_bytes, has_abs, signed_bytes_text};
use crate::format::{format_version_change, format_versions, version_change_spec, versions_text};
use crate::model::{
    ChangeGroup, ChangeGroupView, ChangeStatus, PackageChange, PackageChangeView, PathSummary,
    ReportTotals, StatusView, UpdateReport, VersionChangeView, items_view, opt_view, order_of,
    shows_old_new, status_from_dix,
};
use crate::config::{SunixConfig, path_join, join_path};
use crate::text::{chars_of, copy_str, is_space, join, join_strings, range_string, space_test};

verus! {

#[derive(Debug)]
pub struct DixVersion {
    pub name: String,
    pub amount: Option<i64>,
}

#[derive(Debug)]
pub struct DixVersionDiff {
    pub kind: String,
    pub version: Option<DixVersion>,
    pub old: Option<DixVersion>,
    pub new: Option<DixVersion>,
    pub old_amount: Option<i64>,
    pub new_amount: Option<i64>,
}

pub struct DixVersionView {
    pub name: Seq<char>,
    pub amount: Option<i64>,
}

pub struct DixVersionDiffView {
    pub kind: Seq<char>,
    pub version: Option<DixVersionView>,
    pub old: Option<DixVersionView>,
    pub new: Option<DixVersionView>,
    pub old_amount: Option<i64>,
    pub new_amount: Option<i64>,
}

impl View for DixVersion {
    type V = DixVersionView;

    open spec fn view(&self) -> DixVersionView {
        DixVersionView { name: self.name@, amount: self.amount }
    }
}

pub open spec fn opt_version_view(v: Option<DixVersion>) -> Option<DixVersionView> {
    match v {
        Some(x) => Some(x@),
        None => None,
    }
}

impl View for DixVersionDiff {
    type V = DixVersionDiffView;

    open spec fn view(&self) -> DixVersionDiffView {
        DixVersionDiffView {
            kind: self.kind@,
            version: opt_version_view(self.version),
            old: opt_version_view(self.old),
            new: opt_version_view(self.new),
            old_amount: self.old_amount,
            new_amount: self.new_amount,
        }
    }
}

pub open spec fn version_diffs_view(s: Seq<DixVersionDiff>) -> Seq<DixVersionDiffView> {
    s.map_values(|d: DixVersionDiff| d@)
}

#[derive(Debug)]
pub struct DixDiff {
    pub name: String,
    pub versions: Vec<DixVersionDiff>,
    pub status: String,
    pub has_omitted_versions: bool,
    pub size_delta: i64,
}

#[derive(Clone, Copy, Debug)]
pub struct DixPaths {
    pub old: i64,
    pub new: i64,
    pub added: i64,
    pub removed: i64,
}

#[derive(Debug)]
pub struct DixReport {
    pub diffs: Vec<DixDiff>,
    pub paths: Option<DixPaths>,
    pub size_old: Option<i64>,
    pub size_new: Option<i64>,
}

/// One diff as a mathematical value.
pub struct DixDiffView {
    pub name: Seq<char>,
    pub versions: Seq<DixVersionDiffView>,
    pub status: Seq<char>,
    pub has_omitted_versions: bool,
    pub size_delta: i64,
}

impl View for DixDiff {
    type V = DixDiffView;

    open spec fn view(&self) -> DixDiffView {
        DixDiffView {
            name: self.name@,
            versions: version_diffs_view(self.versions@),
            status: self.status@,
            has_omitted_versions: self.has_omitted_versions,
            size_delta: self.size_delta,
        }
    }
}

pub open spec fn diffs_view(ds: Seq<DixDiff>) -> Seq<DixDiffView> {
    ds.map_values(|d: DixDiff| d@)
}

pub open spec fn diff_status(d: DixDiffView) -> StatusView {
    status_from_dix(d.status)
}

/// The package change shown for one diff, under the status `st`.
pub open spec fn package_change_spec(d: DixDiffView, st: StatusView) -> PackageChangeView {
    let vs = d.versions;
    let vc = if shows_old_new(st) {
        version_change_spec(st, vs, d.has_omitted_versions)
    } else {
        VersionChangeView { old: None, new: None }
    };
    PackageChangeView {
        name: d.name,
        version: versions_text(vs, d.has_omitted_versions),
        old_version: vc.old,
        new_version: vc.new,
        size: signed_bytes_text(d.size_delta as int),
    }
}

/// The distinct statuses of the diffs, in the order they first appear.
pub open spec fn statuses_in_order(ds: Seq<DixDiffView>) -> Seq<StatusView>
    decreases ds.len(),
{
    if ds.len() == 0 {
        Seq::<StatusView>::empty()
    } else {
        let prev = statuses_in_order(ds.drop_last());
        let s = diff_status(ds.last());
        if prev.contains(s) {
            prev
        } else {
            prev.push(s)
        }
    }
}

pub open spec fn with_order(ss: Seq<StatusView>, o: nat) -> Seq<StatusView> {
    ss.filter(|s: StatusView| order_of(s) == o)
}

/// The statuses whose order is below `o`, by order, ties in first-appearance order.
pub open spec fn concat_orders(ss: Seq<StatusView>, o: nat) -> Seq<StatusView>
    decreases o,
{
    if o == 0 {
        Seq::<StatusView>::empty()
    } else {
        concat_orders(ss, (o - 1) as nat) + with_order(ss, (o - 1) as nat)
    }
}

/// The statuses of the report's groups: stably sorted by status order.
pub open spec fn sorted_statuses(ds: Seq<DixDiffView>) -> Seq<StatusView> {
    concat_orders(statuses_in_order(ds), 6)
}

pub open spec fn diffs_with_status(ds: Seq<DixDiffView>, s: StatusView) -> Seq<DixDiffView> {
    ds.filter(|d: DixDiffView| diff_status(d) == s)
}

/// The changes of the group for status `s`, in diff order.
pub open spec fn group_items(ds: Seq<DixDiffView>, s: StatusView) -> Seq<PackageChangeView> {
    diffs_with_status(ds, s).map_values(|d: DixDiffView| package_change_spec(d, s))
}

pub open spec fn group_spec(ds: Seq<DixDiffView>, s: StatusView) -> ChangeGroupView {
    ChangeGroupView { status: s, items: group_items(ds, s) }
}

pub open spec fn paths_summary(p: Option<DixPaths>) -> Option<PathSummary> {
    match p {
        Some(p) => Some(PathSummary { old: p.old, new: p.new, added: p.added, removed: p.removed }),
        None => None,
    }
}

/// Every size delta can be shown (`i64::abs` is defined on it).
pub open spec fn sizes_showable(ds: Seq<DixDiffView>) -> bool {
    forall|i: int| 0 <= i < ds.len() ==> has_abs(#[trigger] ds[i].size_delta as int)
}

impl DixDiff {
    pub fn into_package_change(&self, status: &ChangeStatus) -> (r: PackageChange)
        requires
            has_abs(self.size_delta as int),
        ensures
            r@ == package_change_spec(self@, status@),
    {
        let (old_version, new_version) = if status.has_old_new_versions() {
            let vc = format_version_change(status, self.versions.as_slice(), self.has_omitted_versions);
            (vc.old, vc.new)
        } else {
            (None, None)
        };
        PackageChange {
            name: self.name.clone(),
            version: format_versions(self.versions.as_slice(), self.has_omitted_versions),
            old_version,
            new_version,
            size: format_signed_bytes(self.size_delta),
        }
    }
}

fn status_known(statuses: &Vec<ChangeStatus>, s: &ChangeStatus) -> (r: bool)
    ensures
        r == statuses_view(statuses@).contains(s@),
{
    let ghost view = statuses_view(statuses@);
    let mut j: usize = 0;
    while j < statuses.len()
        invariant
            j <= statuses@.len(),
            view == statuses_view(statuses@),
            forall|k: int| 0 <= k < j ==> view[k] != s@,
        decreases statuses.len() - j,
    {
        if statuses[j].same_as(s) {
            assert(view[j as int] == s@);
            return true;
        }
        j = j + 1;
    }
    false
}

pub open spec fn statuses_view(s: Seq<ChangeStatus>) -> Seq<StatusView> {
    s.map_values(|x: ChangeStatus| x@)
}

fn distinct_statuses(diffs: &Vec<DixDiff>) -> (r: Vec<ChangeStatus>)
    ensures
        statuses_view(r@) == statuses_in_order(diffs_view(diffs@)),
{
    let ghost dv = diffs_view(diffs@);
    let mut statuses: Vec<ChangeStatus> = Vec::new();
    let mut i: usize = 0;
    assert(dv.take(0) =~= Seq::<DixDiffView>::empty());
    while i < diffs.len()
        invariant
            i <= diffs@.len(),
            dv == diffs_view(diffs@),
            statuses_view(statuses@) == statuses_in_order(dv.take(i as int)),
        decreases diffs.len() - i,
    {
        assert(dv.take(i + 1).drop_last() =~= dv.take(i as int));
        assert(dv.take(i + 1).last() == diffs@[i as int]@);
        let st = ChangeStatus::from_dix(diffs[i].status.clone());
        if !status_known(&statuses, &st) {
            statuses.push(st);
            assert(statuses_view(statuses@) =~= statuses_in_order(dv.take(i as int)).push(
                diff_status(dv[i as int]),
            ));
        }
        i = i + 1;
    }
    assert(dv.take(diffs@.len() as int) =~= dv);
    statuses
}

proof fn lemma_with_order_push(ss: Seq<StatusView>, x: StatusView, o: nat)
    ensures
        with_order(ss.push(x), o) == if order_of(x) == o {
            with_order(ss, o).push(x)
        } else {
            with_order(ss, o)
        },
{
    reveal(Seq::filter);
    assert(ss.push(x).drop_last() =~= ss);
}

proof fn lemma_group_items_push(ds: Seq<DixDiffView>, d: DixDiffView, s: StatusView)
    ensures
        diffs_with_status(ds.push(d), s) == if diff_status(d) == s {
            diffs_with_status(ds, s).push(d)
        } else {
            diffs_with_status(ds, s)
        },
        group_items(ds.push(d), s) == if diff_status(d) == s {
            group_items(ds, s).push(package_change_spec(d, s))
        } else {
            group_items(ds, s)
        },
{
    reveal(Seq::filter);
    assert(ds.push(d).drop_last() =~= ds);
    if diff_status(d) == s {
        assert(group_items(ds.push(d), s) =~= group_items(ds, s).push(package_change_spec(d, s)));
    }
}

fn sort_statuses(statuses: &Vec<ChangeStatus>) -> (r: Vec<ChangeStatus>)
    ensures
        statuses_view(r@) == concat_orders(statuses_view(statuses@), 6),
{
    broadcast use vstd::seq_lib::group_seq_properties;

    let ghost ss = statuses_view(statuses@);
    let mut out: Vec<ChangeStatus> = Vec::new();
    let mut o: u8 = 0;
    while o < 6
        invariant
            o <= 6,
            ss == statuses_view(statuses@),
            statuses_view(out@) == concat_orders(ss, o as nat),
        decreases 6 - o,
    {
        let mut j: usize = 0;
        assert(ss.take(0) =~= Seq::<StatusView>::empty());
        assert(with_order(ss.take(0), o as nat) =~= Seq::<StatusView>::empty()) by {
            reveal(Seq::filter);
        }
        assert(statuses_view(out@) =~= concat_orders(ss, o as nat) + with_order(ss.take(0), o as nat));
        while j < statuses.len()
            invariant
                o < 6,
                j <= statuses@.len(),
                ss == statuses_view(statuses@),
                statuses_view(out@) == concat_orders(ss, o as nat) + with_order(ss.take(j as int), o as nat),
            decreases statuses.len() - j,
        {
            assert(ss.take(j + 1) =~= ss.take(j as int).push(ss[j as int]));
            proof {
                lemma_with_order_push(ss.take(j as int), ss[j as int], o as nat);
            }
            if statuses[j].order() == o {
                let ghost before = out@;
                out.push(statuses[j].duplicate());
                assert(ss[j as int] == statuses@[j as int]@);
                assert(order_of(ss[j as int]) == o as nat);
                assert(statuses_view(out@) =~= statuses_view(before).push(ss[j as int]));
                assert(statuses_view(out@) =~= concat_orders(ss, o as nat) + with_order(
                    ss.take(j + 1),
                    o as nat,
                ));
            }
            j = j + 1;
        }
        assert(ss.take(statuses@.len() as int) =~= ss);
        o = o + 1;
    }
    out
}

fn collect_group(diffs: &Vec<DixDiff>, status: ChangeStatus) -> (g: ChangeGroup)
    requires
        sizes_showable(diffs_view(diffs@)),
    ensures
        g@ == group_spec(diffs_view(diffs@), status@),
{
    broadcast use vstd::seq_lib::group_seq_properties;

    let ghost dv = diffs_view(diffs@);
    let mut items: Vec<PackageChange> = Vec::new();
    let mut i: usize = 0;
    assert(dv.take(0) =~= Seq::<DixDiffView>::empty());
    assert(items_view(items@) =~= group_items(dv.take(0), status@)) by {
        reveal(Seq::filter);
    }
    while i < diffs.len()
        invariant
            i <= diffs@.len(),
            dv == diffs_view(diffs@),
            sizes_showable(dv),
            items_view(items@) == group_items(dv.take(i as int), status@),
        decreases diffs.len() - i,
    {
        assert(dv.take(i + 1) =~= dv.take(i as int).push(dv[i as int]));
        assert(dv[i as int] == diffs@[i as int]@);
        proof {
            lemma_group_items_push(dv.take(i as int), dv[i as int], status@);
        }
        let st = ChangeStatus::from_dix(diffs[i].status.clone());
        if st.same_as(&status) {
            assert(has_abs(dv[i as int].size_delta as int));
            let change = diffs[i].into_package_change(&status);
            items.push(change);
        }
        assert(items_view(items@) =~= group_items(dv.take(i + 1), status@));
        i = i + 1;
    }
    assert(dv.take(diffs@.len() as int) =~= dv);
    ChangeGroup { status, items }
}

/// The groups of the report: one per status, sorted by status order.
pub open spec fn report_groups(ds: Seq<DixDiffView>) -> Seq<ChangeGroupView> {
    sorted_statuses(ds).map_values(|s: StatusView| group_spec(ds, s))
}

impl DixReport {
    /// Groups the diffs by status (groups sorted by status order, changes
    /// in diff order) and keeps the totals.
    pub fn into_update_report(self, flake: &str) -> (r: UpdateReport)
        requires
            sizes_showable(diffs_view(self.diffs@)),
        ensures
            r@.flake == flake@,
            r@.groups == report_groups(diffs_view(self.diffs@)),
            r.totals.paths == paths_summary(self.paths),
            r.totals.size_old == self.size_old,
            r.totals.size_new == self.size_new,
    {
        let statuses = distinct_statuses(&self.diffs);
        let sorted = sort_statuses(&statuses);
        let ghost order = sorted_statuses(diffs_view(self.diffs@));
        let mut groups: Vec<ChangeGroup> = Vec::new();
        let mut k: usize = 0;
        while k < sorted.len()
            invariant
                k <= sorted@.len(),
                statuses_view(sorted@) == order,
                sizes_showable(diffs_view(self.diffs@)),
                groups@.len() == k,
                forall|m: int| 0 <= m < k ==> #[trigger] groups@[m]@ == group_spec(diffs_view(self.diffs@), order[m]),
            decreases sorted.len() - k,
        {
            let g = collect_group(&self.diffs, sorted[k].duplicate());
            groups.push(g);
            k = k + 1;
        }
        assert(crate::model::groups_view(groups@) =~= report_groups(diffs_view(self.diffs@)));
        let paths = match self.paths {
            Some(p) => Some(PathSummary { old: p.old, new: p.new, added: p.added, removed: p.removed }),
            None => None,
        };
        UpdateReport {
            flake: copy_str(flake),
            groups,
            totals: ReportTotals { paths, size_old: self.size_old, size_new: self.size_new },
        }
    }
}

// ---------------------------------------------------------------------------
// The bundled demo report
// ---------------------------------------------------------------------------

fn sample_version(name: &str, amount: Option<i64>) -> (v: DixVersion)
    ensures
        v@ == (DixVersionView { name: name@, amount }),
{
    DixVersion { name: copy_str(name), amount }
}

fn sample_entry(kind: &str, version: Option<DixVersion>, old: Option<DixVersion>, new: Option<DixVersion>) -> (e: DixVersionDiff)
    ensures
        e@ == (DixVersionDiffView {
            kind: kind@,
            version: opt_version_view(version),
            old: opt_version_view(old),
            new: opt_version_view(new),
            old_amount: None,
            new_amount: None,
        }),
{
    DixVersionDiff { kind: copy_str(kind), version, old, new, old_amount: None, new_amount: None }
}

fn sample_diff(name: &str, versions: Vec<DixVersionDiff>, status: &str, size_delta: i64) -> (d: DixDiff)
    ensures
        d@ == (DixDiffView {
            name: name@,
            versions: version_diffs_view(versions@),
            status: status@,
            has_omitted_versions: false,
            size_delta,
        }),
{
    DixDiff {
        name: copy_str(name),
        versions,
        status: copy_str(status),
        has_omitted_versions: false,
        size_delta,
    }
}

pub open spec fn sample_version_spec(name: Seq<char>, amount: Option<i64>) -> DixVersionView {
    DixVersionView { name, amount }
}

/// A sample version entry with a single version (`added`, `removed`).
pub open spec fn single_entry(kind: Seq<char>, name: Seq<char>) -> DixVersionDiffView {
    DixVersionDiffView {
        kind,
        version: Some(sample_version_spec(name, Some(1))),
        old: None,
        new: None,
        old_amount: None,
        new_amount: None,
    }
}

/// A sample `changed` entry.
pub open spec fn changed_entry(old: Seq<char>, new: Seq<char>) -> DixVersionDiffView {
    DixVersionDiffView {
        kind: "changed"@,
        version: None,
        old: Some(sample_version_spec(old, Some(1))),
        new: Some(sample_version_spec(new, Some(1))),
        old_amount: None,
        new_amount: None,
    }
}

pub open spec fn sample_diff_spec(
    name: Seq<char>,
    versions: Seq<DixVersionDiffView>,
    status: Seq<char>,
    size_delta: i64,
) -> DixDiffView {
    DixDiffView { name, versions, status, has_omitted_versions: false, size_delta }
}

/// The diffs of the demo report.
pub open spec fn demo_diffs() -> Seq<DixDiffView> {
    seq![
        sample_diff_spec("ripgrep"@, seq![single_entry("added"@, "14.1.1"@)], "Added"@, 5347737),
        sample_diff_spec(
            "linux"@,
            seq![
                changed_entry("6.12.1"@, "6.12.2"@),
                changed_entry("6.12.1-modules"@, "6.12.2-modules"@),
            ],
            "Upgraded"@,
            14680064,
        ),
        sample_diff_spec(
            "gcc"@,
            seq![changed_entry("14.2.1.20250322-lib"@, "14.3.0-lib"@)],
            "Upgraded"@,
            -10519768i64,
        ),
        sample_diff_spec(
            "curl"@,
            seq![single_entry("removed"@, "8.13.0"@), single_entry("added"@, "8.12.1"@)],
            "Downgraded"@,
            -1099464i64,
        ),
        sample_diff_spec("nano"@, seq![single_entry("removed"@, "8.2"@)], "Removed"@, -2936012i64),
        sample_diff_spec(
            "python3"@,
            seq![
                DixVersionDiffView {
                    kind: "amount_changed"@,
                    version: Some(sample_version_spec("3.12.8"@, None)),
                    old: None,
                    new: None,
                    old_amount: Some(2),
                    new_amount: Some(3),
                },
            ],
            "Changed"@,
            104857,
        ),
    ]
}

/// The path totals of the demo report.
pub open spec fn demo_paths() -> DixPaths {
    DixPaths { old: 3021, new: 3040, added: 25, removed: 6 }
}

pub open spec fn demo_size_old() -> i64 {
    12884901888
}

pub open spec fn demo_size_new() -> i64 {
    12891439104
}

/// The sample diff the demo report is made of.
pub fn demo_dix_report() -> (r: DixReport)
    ensures
        diffs_view(r.diffs@) == demo_diffs(),
        r.paths == Some(demo_paths()),
        r.size_old == Some(demo_size_old()),
        r.size_new == Some(demo_size_new()),
{
    let mut diffs: Vec<DixDiff> = Vec::new();
    let mut v: Vec<DixVersionDiff> = Vec::new();
    v.push(sample_entry("added", Some(sample_version("14.1.1", Some(1))), None, None));
    assert(version_diffs_view(v@) =~= seq![single_entry("added"@, "14.1.1"@)]);
    diffs.push(sample_diff("ripgrep", v, "Added", 5347737));

    let mut v: Vec<DixVersionDiff> = Vec::new();
    v.push(sample_entry(
        "changed",
        None,
        Some(sample_version("6.12.1", Some(1))),
        Some(sample_version("6.12.2", Some(1))),
    ));
    v.push(sample_entry(
        "changed",
        None,
        Some(sample_version("6.12.1-modules", Some(1))),
        Some(sample_version("6.12.2-modules", Some(1))),
    ));
    assert(version_diffs_view(v@) =~= seq![
        changed_entry("6.12.1"@, "6.12.2"@),
        changed_entry("6.12.1-modules"@, "6.12.2-modules"@),
    ]);
    diffs.push(sample_diff("linux", v, "Upgraded", 14680064));

    let mut v: Vec<DixVersionDiff> = Vec::new();
    v.push(sample_entry(
        "changed",
        None,
        Some(sample_version("14.2.1.20250322-lib", Some(1))),
        Some(sample_version("14.3.0-lib", Some(1))),
    ));
    assert(version_diffs_view(v@) =~= seq![changed_entry("14.2.1.20250322-lib"@, "14.3.0-lib"@)]);
    diffs.push(sample_diff("gcc", v, "Upgraded", -10519768));

    let mut v: Vec<DixVersionDiff> = Vec::new();
    v.push(sample_entry("removed", Some(sample_version("8.13.0", Some(1))), None, None));
    v.push(sample_entry("added", Some(sample_version("8.12.1", Some(1))), None, None));
    assert(version_diffs_view(v@) =~= seq![
        single_entry("removed"@, "8.13.0"@),
        single_entry("added"@, "8.12.1"@),
    ]);
    diffs.push(sample_diff("curl", v, "Downgraded", -1099464));

    let mut v: Vec<DixVersionDiff> = Vec::new();
    v.push(sample_entry("removed", Some(sample_version("8.2", Some(1))), None, None));
    assert(version_diffs_view(v@) =~= seq![single_entry("removed"@, "8.2"@)]);
    diffs.push(sample_diff("nano", v, "Removed", -2936012));

    let mut v: Vec<DixVersionDiff> = Vec::new();
    v.push(
        DixVersionDiff {
            kind: copy_str("amount_changed"),
            version: Some(sample_version("3.12.8", None)),
            old: None,
            new: None,
            old_amount: Some(2),
            new_amount: Some(3),
        },
    );
    assert(version_diffs_view(v@) =~= seq![
        DixVersionDiffView {
            kind: "amount_changed"@,
            version: Some(sample_version_spec("3.12.8"@, None)),
            old: None,
            new: None,
            old_amount: Some(2),
            new_amount: Some(3),
        },
    ]);
    diffs.push(sample_diff("python3", v, "Changed", 104857));

    assert(diffs_view(diffs@) =~= demo_diffs());
    DixReport {
        diffs,
        paths: Some(DixPaths { old: 3021, new: 3040, added: 25, removed: 6 }),
        size_old: Some(12884901888),
        size_new: Some(12891439104),
    }
}

/// The report the demo shows: the sample diffs grouped, with the sample's totals.
pub fn demo_report() -> (r: UpdateReport)
    ensures
        r@.flake == "demo"@,
        r@.groups == report_groups(demo_diffs()),
        r.totals.paths == paths_summary(Some(demo_paths())),
        r.totals.size_old == Some(demo_size_old()),
        r.totals.size_new == Some(demo_size_new()),
        r@.groups.len() > 0,
{
    let sample = demo_dix_report();
    proof {
        let ds = demo_diffs();
        assert(sizes_showable(ds));
        lemma_report_groups_wellformed(ds);
        assert(ds[0] == ds[0]);
    }
    sample.into_update_report("demo")
}

// ---------------------------------------------------------------------------
// Building a report
// ---------------------------------------------------------------------------

/// The flake attribute built for a Home Manager configuration.
pub open spec fn home_manager_attr_spec(flake: Seq<char>) -> Seq<char> {
    ".#homeConfigurations."@ + flake + ".activationPackage"@
}

/// The flake attribute built for a NixOS configuration.
pub open spec fn nixos_attr_spec(flake: Seq<char>) -> Seq<char> {
    ".#nixosConfigurations."@ + flake + ".config.system.build.toplevel"@
}

pub fn home_manager_attr(flake: &str) -> (r: String)
    ensures
        r@ == home_manager_attr_spec(flake@),
{
    let mut s = copy_str(".#homeConfigurations.");
    s.append(flake);
    s.append(".activationPackage");
    s
}

pub fn nixos_attr(flake: &str) -> (r: String)
    ensures
        r@ == nixos_attr_spec(flake@),
{
    let mut s = copy_str(".#nixosConfigurations.");
    s.append(flake);
    s.append(".config.system.build.toplevel");
    s
}

/// The system NixOS is compared against.
pub fn nixos_current_system() -> (r: &'static str)
    ensures
        r@ == "/run/current-system/"@,
{
    "/run/current-system/"
}

/// The `dix` binary to run: the configured one, or `dix` from the path.
pub fn dix_binary(config: &SunixConfig) -> (r: &str)
    ensures
        r@ == match config.dix_binary {
            Some(b) => b@,
            None => "dix"@,
        },
{
    match &config.dix_binary {
        Some(b) => b.as_str(),
        None => "dix",
    }
}

pub fn nix_build_description(attr: &str, flake_dir: &str) -> (r: String)
    ensures
        r@ == "nix build "@ + attr@ + " in "@ + flake_dir@,
{
    let mut s = copy_str("nix build ");
    s.append(attr);
    s.append(" in ");
    s.append(flake_dir);
    s
}

pub fn dix_description(dix: &str, old_path: &str, flake_dir: &str) -> (r: String)
    ensures
        r@ == dix@ + " --output=json "@ + old_path@ + " in "@ + flake_dir@,
{
    let mut s = copy_str(dix);
    s.append(" --output=json ");
    s.append(old_path);
    s.append(" in ");
    s.append(flake_dir);
    s
}

/// How the source of a `dix` report is named in a parse error.
pub fn dix_source_label(flake: &str) -> (r: String)
    ensures
        r@ == "dix output for `"@ + flake@ + "`"@,
{
    let mut s = copy_str("dix output for `");
    s.append(flake);
    s.append("`");
    s
}

/// `str::split_whitespace`: the maximal runs of non-whitespace characters.
pub open spec fn words(s: Seq<char>) -> Seq<Seq<char>>
    decreases s.len(),
{
    if s.len() == 0 {
        Seq::<Seq<char>>::empty()
    } else {
        let rest = words(s.drop_last());
        let c = s.last();
        if is_space(c) {
            rest
        } else if s.len() >= 2 && !is_space(s[s.len() - 2]) {
            rest.update(rest.len() - 1, rest.last().push(c))
        } else {
            rest.push(seq![c])
        }
    }
}

proof fn lemma_words_last(s: Seq<char>)
    ensures
        s.len() > 0 && !is_space(s.last()) ==> words(s).len() > 0,
    decreases s.len(),
{
    if s.len() > 0 {
        lemma_words_last(s.drop_last());
    }
}

/// The output paths `nix build` printed, or the error when it printed none.
pub open spec fn output_paths_spec(stdout: Seq<char>, attr: Seq<char>, flake_dir: Seq<char>) -> Result<
    Seq<Seq<char>>,
    Seq<char>,
> {
    let ws = words(stdout);
    if ws.len() == 0 {
        Err("nix build "@ + attr + " in "@ + flake_dir + " did not print an output path"@)
    } else {
        Ok(ws)
    }
}

pub fn parse_output_paths(stdout: &str, attr: &str, flake_dir: &str) -> (r: Result<Vec<String>, String>)
    ensures
        match r {
            Ok(ps) => output_paths_spec(stdout@, attr@, flake_dir@) == Ok::<
                Seq<Seq<char>>,
                Seq<char>,
            >(ps@.map_values(|p: String| p@)),
            Err(e) => output_paths_spec(stdout@, attr@, flake_dir@) == Err::<
                Seq<Seq<char>>,
                Seq<char>,
            >(e@),
        },
{
    let v = chars_of(stdout);
    let mut out: Vec<String> = Vec::new();
    let mut i: usize = 0;
    let mut start: usize = 0;
    let mut in_word = false;
    assert(v@.subrange(0, 0) =~= Seq::<char>::empty());
    while i < v.len()
        invariant
            i <= v.len(),
            v@ == stdout@,
            start <= i,
            in_word ==> i > 0 && !is_space(v@[i - 1]),
            !in_word ==> (i == 0 || is_space(v@[i - 1])),
            in_word ==> out@.map_values(|p: String| p@).push(v@.subrange(start as int, i as int))
                == words(v@.subrange(0, i as int)),
            in_word ==> start < i,
            !in_word ==> out@.map_values(|p: String| p@) == words(v@.subrange(0, i as int)),
        decreases v.len() - i,
    {
        let ghost pre = v@.subrange(0, i as int);
        assert(v@.subrange(0, i + 1).drop_last() =~= pre);
        let c = v[i];
        if space_test(c) {
            if in_word {
                let w = range_string(&v, start, i);
                out.push(w);
                assert(out@.map_values(|p: String| p@) =~= words(v@.subrange(0, i as int)));
            }
            in_word = false;
        } else {
            if in_word {
                assert(v@.subrange(start as int, i + 1) =~= v@.subrange(start as int, i as int).push(c));
                assert(v@.subrange(0, i + 1)[i - 1] == v@[i - 1]);
            } else {
                start = i;
                assert(v@.subrange(start as int, i + 1) =~= seq![c]);
                if i > 0 {
                    assert(v@.subrange(0, i + 1)[i - 1] == v@[i - 1]);
                }
            }
            in_word = true;
        }
        i = i + 1;
    }
    if in_word {
        let w = range_string(&v, start, i);
        out.push(w);
    }
    assert(v@.subrange(0, v.len() as int) =~= v@);
    assert(out@.map_values(|p: String| p@) =~= words(stdout@));
    if out.len() == 0 {
        let mut e = nix_build_description(attr, flake_dir);
        e.append(" did not print an output path");
        return Err(e);
    }
    Ok(out)
}

/// The Home Manager profile links to try, in order.
pub open spec fn profile_candidates_spec(
    xdg_state_home: Option<Seq<char>>,
    home: Option<Seq<char>>,
    user: Option<Seq<char>>,
    logname: Option<Seq<char>>,
) -> Seq<Seq<char>> {
    let state = match xdg_state_home {
        Some(x) if x.len() > 0 => Some(x),
        _ => match home {
            Some(h) if h.len() > 0 => Some(path_join(h, ".local/state"@)),
            _ => None,
        },
    };
    let who = match user {
        Some(u) if u.len() > 0 => Some(u),
        _ => match logname {
            Some(l) if l.len() > 0 => Some(l),
            _ => None,
        },
    };
    let first = match state {
        Some(s) => seq![path_join(s, "nix/profiles/home-manager"@)],
        None => Seq::<Seq<char>>::empty(),
    };
    let second = match who {
        Some(w) => seq![path_join(path_join("/nix/var/nix/profiles/per-user"@, w), "home-manager"@)],
        None => Seq::<Seq<char>>::empty(),
    };
    first + second
}

fn non_empty(o: &Option<String>) -> (r: Option<&str>)
    ensures
        match r {
            Some(s) => opt_view(*o) == Some(s@) && s@.len() > 0,
            None => !(opt_view(*o) matches Some(x) && x.len() > 0),
        },
{
    match o {
        Some(s) => if s.as_str().is_empty() {
            None
        } else {
            Some(s.as_str())
        },
        None => None,
    }
}

/// The Home Manager profile links to try, from the environment values
/// `XDG_STATE_HOME`, `HOME`, `USER` and `LOGNAME`; an error when none is set.
pub fn home_manager_profile_candidates(
    xdg_state_home: &Option<String>,
    home: &Option<String>,
    user: &Option<String>,
    logname: &Option<String>,
) -> (r: Result<Vec<String>, String>)
    ensures
        match r {
            Ok(cs) => cs@.map_values(|c: String| c@) == profile_candidates_spec(
                opt_view(*xdg_state_home),
                opt_view(*home),
                opt_view(*user),
                opt_view(*logname),
            ) && cs@.len() > 0,
            Err(e) => profile_candidates_spec(
                opt_view(*xdg_state_home),
                opt_view(*home),
                opt_view(*user),
                opt_view(*logname),
            ).len() == 0 && e@
                == "XDG_STATE_HOME, HOME, USER, and LOGNAME are unset; cannot locate Home Manager profile"@,
        },
{
    let mut candidates: Vec<String> = Vec::new();
    let state: Option<String> = match non_empty(xdg_state_home) {
        Some(x) => Some(copy_str(x)),
        None => match non_empty(home) {
            Some(h) => Some(join_path(h, ".local/state")),
            None => None,
        },
    };
    match &state {
        Some(s) => candidates.push(join_path(s.as_str(), "nix/profiles/home-manager")),
        None => {},
    }
    let who: Option<&str> = match non_empty(user) {
        Some(u) => Some(u),
        None => non_empty(logname),
    };
    match who {
        Some(w) => {
            let base = join_path("/nix/var/nix/profiles/per-user", w);
            candidates.push(join_path(base.as_str(), "home-manager"));
        },
        None => {},
    }
    assert(candidates@.map_values(|c: String| c@) =~= profile_candidates_spec(
        opt_view(*xdg_state_home),
        opt_view(*home),
        opt_view(*user),
        opt_view(*logname),
    ));
    if candidates.len() == 0 {
        return Err(
            copy_str(
                "XDG_STATE_HOME, HOME, USER, and LOGNAME are unset; cannot locate Home Manager profile",
            ),
        );
    }
    Ok(candidates)
}

/// The error when no profile link resolves.
pub fn missing_profile_message(candidates: &Vec<String>) -> (r: String)
    ensures
        r@ == "could not find active Home Manager profile; tried "@ + join(
            candidates@.map_values(|c: String| c@),
            ", "@,
        ),
{
    let mut s = copy_str("could not find active Home Manager profile; tried ");
    let tried = join_strings(candidates, ", ");
    s.append(tried.as_str());
    s
}

// ---------------------------------------------------------------------------
// The shape of the grouped report
// ---------------------------------------------------------------------------

pub open spec fn no_dups(s: Seq<StatusView>) -> bool {
    forall|a: int, b: int| 0 <= a < b < s.len() ==> s[a] != s[b]
}

proof fn lemma_statuses_in_order(ds: Seq<DixDiffView>)
    ensures
        forall|i: int| 0 <= i < ds.len() ==> statuses_in_order(ds).contains(#[trigger] diff_status(ds[i])),
        forall|j: int|
            0 <= j < statuses_in_order(ds).len() ==> exists|i: int|
                0 <= i < ds.len() && #[trigger] diff_status(ds[i]) == #[trigger] statuses_in_order(ds)[j],
        no_dups(statuses_in_order(ds)),
    decreases ds.len(),
{
    if ds.len() > 0 {
        let rest = ds.drop_last();
        lemma_statuses_in_order(rest);
        let prev = statuses_in_order(rest);
        let ss = statuses_in_order(ds);
        assert forall|i: int| 0 <= i < ds.len() implies ss.contains(#[trigger] diff_status(ds[i])) by {
            if i < ds.len() - 1 {
                assert(rest[i] == ds[i]);
                assert(prev.contains(diff_status(rest[i])));
                if !prev.contains(diff_status(ds.last())) {
                    let k = choose|k: int| 0 <= k < prev.len() && prev[k] == diff_status(rest[i]);
                    assert(ss[k] == prev[k]);
                }
            } else {
                if !prev.contains(diff_status(ds.last())) {
                    assert(ss[prev.len() as int] == diff_status(ds.last()));
                }
            }
        }
        assert forall|j: int| 0 <= j < ss.len() implies exists|i: int|
            0 <= i < ds.len() && #[trigger] diff_status(ds[i]) == #[trigger] ss[j] by {
            if j < prev.len() {
                let i = choose|i: int| 0 <= i < rest.len() && #[trigger] diff_status(rest[i]) == prev[j];
                assert(ds[i] == rest[i]);
            } else {
                assert(diff_status(ds[ds.len() - 1]) == ss[j]);
            }
        }
    }
}

proof fn lemma_with_order(ss: Seq<StatusView>, o: nat)
    ensures
        forall|i: int| 0 <= i < with_order(ss, o).len() ==> order_of(#[trigger] with_order(ss, o)[i]) == o
            && ss.contains(with_order(ss, o)[i]),
        forall|x: StatusView| #[trigger] ss.contains(x) && order_of(x) == o ==> with_order(ss, o).contains(x),
        no_dups(ss) ==> no_dups(with_order(ss, o)),
    decreases ss.len(),
{
    reveal(Seq::filter);
    if ss.len() > 0 {
        let rest = ss.drop_last();
        lemma_with_order(rest, o);
        assert(rest.push(ss.last()) =~= ss);
        lemma_with_order_push(rest, ss.last(), o);
        let w = with_order(ss, o);
        let wr = with_order(rest, o);
        assert forall|i: int| 0 <= i < w.len() implies order_of(#[trigger] w[i]) == o && ss.contains(w[i]) by {
            if i < wr.len() {
                assert(w[i] == wr[i]);
                let k = choose|k: int| 0 <= k < rest.len() && rest[k] == wr[i];
                assert(ss[k] == rest[k]);
            } else {
                assert(w[i] == ss.last());
                assert(ss[ss.len() - 1] == ss.last());
            }
        }
        assert forall|x: StatusView| #[trigger] ss.contains(x) && order_of(x) == o implies w.contains(x) by {
            let k = choose|k: int| 0 <= k < ss.len() && ss[k] == x;
            if k < ss.len() - 1 {
                assert(rest[k] == x);
                assert(rest.contains(x));
                let m = choose|m: int| 0 <= m < wr.len() && wr[m] == x;
                assert(w[m] == wr[m]);
            } else {
                assert(w[w.len() - 1] == x);
            }
        }
        if no_dups(ss) {
            assert(no_dups(rest)) by {
                assert forall|a: int, b: int| 0 <= a < b < rest.len() implies rest[a] != rest[b] by {
                    assert(ss[a] == rest[a] && ss[b] == rest[b]);
                }
            }
            if order_of(ss.last()) == o {
                assert forall|a: int, b: int| 0 <= a < b < w.len() implies w[a] != w[b] by {
                    if b == w.len() - 1 {
                        assert(w[a] == wr[a]);
                        let k = choose|k: int| 0 <= k < rest.len() && rest[k] == wr[a];
                        assert(ss[k] == rest[k]);
                        assert(ss[ss.len() - 1] == ss.last());
                    } else {
                        assert(w[a] == wr[a] && w[b] == wr[b]);
                    }
                }
            }
        }
    }
}

proof fn lemma_concat_orders(ss: Seq<StatusView>, o: nat)
    requires
        no_dups(ss),
    ensures
        forall|i: int| 0 <= i < concat_orders(ss, o).len() ==> order_of(#[trigger] concat_orders(ss, o)[i]) < o
            && ss.contains(concat_orders(ss, o)[i]),
        forall|x: StatusView| #[trigger] ss.contains(x) && order_of(x) < o ==> concat_orders(ss, o).contains(x),
        no_dups(concat_orders(ss, o)),
        forall|a: int, b: int|
            0 <= a < b < concat_orders(ss, o).len() ==> order_of(#[trigger] concat_orders(ss, o)[a])
                <= order_of(#[trigger] concat_orders(ss, o)[b]),
    decreases o,
{
    if o > 0 {
        let p = (o - 1) as nat;
        lemma_concat_orders(ss, p);
        lemma_with_order(ss, p);
        let c = concat_orders(ss, p);
        let w = with_order(ss, p);
        let r = concat_orders(ss, o);
        assert(r == c + w);
        assert forall|i: int| 0 <= i < r.len() implies order_of(#[trigger] r[i]) < o && ss.contains(r[i]) by {
            if i < c.len() {
                assert(r[i] == c[i]);
            } else {
                assert(r[i] == w[i - c.len()]);
            }
        }
        assert forall|x: StatusView| #[trigger] ss.contains(x) && order_of(x) < o implies r.contains(x) by {
            if order_of(x) < p {
                let k = choose|k: int| 0 <= k < c.len() && c[k] == x;
                assert(r[k] == x);
            } else {
                let k = choose|k: int| 0 <= k < w.len() && w[k] == x;
                assert(r[c.len() + k] == x);
            }
        }
        assert forall|a: int, b: int| 0 <= a < b < r.len() implies r[a] != r[b] by {
            if b < c.len() {
                assert(r[a] == c[a] && r[b] == c[b]);
            } else if a >= c.len() {
                assert(r[a] == w[a - c.len()] && r[b] == w[b - c.len()]);
            } else {
                assert(r[a] == c[a] && r[b] == w[b - c.len()]);
            }
        }
        assert forall|a: int, b: int| 0 <= a < b < r.len() implies order_of(#[trigger] r[a]) <= order_of(#[trigger] r[b]) by {
            if b < c.len() {
                assert(r[a] == c[a] && r[b] == c[b]);
            } else if a >= c.len() {
                assert(r[a] == w[a - c.len()] && r[b] == w[b - c.len()]);
            } else {
                assert(r[a] == c[a] && r[b] == w[b - c.len()]);
            }
        }
    }
}

/// The grouped report is a partition by status: every diff has the group
/// of its status, the groups have distinct statuses, none is empty, and
/// they come in status order.
pub proof fn lemma_report_groups_wellformed(ds: Seq<DixDiffView>)
    ensures
        forall|i: int|
            0 <= i < ds.len() ==> exists|j: int|
                0 <= j < report_groups(ds).len() && #[trigger] report_groups(ds)[j].status
                    == diff_status(#[trigger] ds[i]),
        forall|j: int| 0 <= j < report_groups(ds).len() ==> #[trigger] report_groups(ds)[j].items.len() > 0,
        forall|a: int, b: int|
            0 <= a < b < report_groups(ds).len() ==> #[trigger] report_groups(ds)[a].status
                != #[trigger] report_groups(ds)[b].status,
        forall|a: int, b: int|
            0 <= a < b < report_groups(ds).len() ==> order_of(#[trigger] report_groups(ds)[a].status)
                <= order_of(#[trigger] report_groups(ds)[b].status),
        ds.len() > 0 ==> report_groups(ds).len() > 0,
{
    let ss = statuses_in_order(ds);
    lemma_statuses_in_order(ds);
    lemma_concat_orders(ss, 6);
    let sorted = sorted_statuses(ds);
    let g = report_groups(ds);
    assert(g.len() == sorted.len());
    assert forall|j: int| 0 <= j < g.len() implies #[trigger] g[j].status == sorted[j] by {}
    assert forall|i: int| 0 <= i < ds.len() implies exists|j: int|
        0 <= j < g.len() && #[trigger] g[j].status == diff_status(#[trigger] ds[i]) by {
        let s = diff_status(ds[i]);
        assert(ss.contains(s));
        assert(order_of(s) < 6);
        assert(sorted.contains(s));
        let j = choose|j: int| 0 <= j < sorted.len() && sorted[j] == s;
        assert(g[j].status == s);
    }
    assert forall|j: int| 0 <= j < g.len() implies #[trigger] g[j].items.len() > 0 by {
        let s = sorted[j];
        assert(ss.contains(s));
        let k = choose|k: int| 0 <= k < ss.len() && ss[k] == s;
        let i = choose|i: int| 0 <= i < ds.len() && #[trigger] diff_status(ds[i]) == ss[k];
        ds.lemma_filter_contains(|d: DixDiffView| diff_status(d) == s, i);
        assert(diffs_with_status(ds, s).len() > 0);
    }
    if ds.len() > 0 {
        let s = diff_status(ds[0]);
        assert(ss.contains(s));
        assert(sorted.contains(s));
    }
}

/// How many changes the groups hold together.
pub open spec fn items_total(gs: Seq<ChangeGroupView>) -> nat
    decreases gs.len(),
{
    if gs.len() == 0 {
        0
    } else {
        items_total(gs.drop_last()) + gs.last().items.len()
    }
}

spec fn status_total(ss: Seq<StatusView>, ds: Seq<DixDiffView>) -> nat
    decreases ss.len(),
{
    if ss.len() == 0 {
        0
    } else {
        status_total(ss.drop_last(), ds) + diffs_with_status(ds, ss.last()).len()
    }
}

proof fn lemma_status_total_empty(ss: Seq<StatusView>)
    ensures
        status_total(ss, Seq::<DixDiffView>::empty()) == 0,
    decreases ss.len(),
{
    if ss.len() > 0 {
        lemma_status_total_empty(ss.drop_last());
        assert(diffs_with_status(Seq::<DixDiffView>::empty(), ss.last()) =~= Seq::<DixDiffView>::empty()) by {
            reveal(Seq::filter);
        }
    }
}

proof fn lemma_status_total_push(ss: Seq<StatusView>, ds: Seq<DixDiffView>, d: DixDiffView)
    requires
        no_dups(ss),
    ensures
        status_total(ss, ds.push(d)) == status_total(ss, ds) + if ss.contains(diff_status(d)) {
            1nat
        } else {
            0nat
        },
    decreases ss.len(),
{
    if ss.len() > 0 {
        let p = ss.drop_last();
        let x = ss.last();
        assert(no_dups(p)) by {
            assert forall|a: int, b: int| 0 <= a < b < p.len() implies p[a] != p[b] by {
                assert(ss[a] == p[a] && ss[b] == p[b]);
            }
        }
        lemma_status_total_push(p, ds, d);
        lemma_group_items_push(ds, d, x);
        let t = diff_status(d);
        if x == t {
            assert(ss[ss.len() - 1] == t);
            assert(ss.contains(t));
            if p.contains(t) {
                let k = choose|k: int| 0 <= k < p.len() && p[k] == t;
                assert(ss[k] == t);
            }
        } else {
            if ss.contains(t) {
                let k = choose|k: int| 0 <= k < ss.len() && ss[k] == t;
                assert(k < ss.len() - 1);
                assert(p[k] == t);
            }
            if p.contains(t) {
                let k = choose|k: int| 0 <= k < p.len() && p[k] == t;
                assert(ss[k] == t);
            }
        }
    }
}

proof fn lemma_status_total_covers(ss: Seq<StatusView>, ds: Seq<DixDiffView>)
    requires
        no_dups(ss),
        forall|i: int| 0 <= i < ds.len() ==> ss.contains(#[trigger] diff_status(ds[i])),
    ensures
        status_total(ss, ds) == ds.len(),
    decreases ds.len(),
{
    if ds.len() == 0 {
        assert(ds =~= Seq::<DixDiffView>::empty());
        lemma_status_total_empty(ss);
    } else {
        let rest = ds.drop_last();
        assert forall|i: int| 0 <= i < rest.len() implies ss.contains(#[trigger] diff_status(rest[i])) by {
            assert(rest[i] == ds[i]);
        }
        lemma_status_total_covers(ss, rest);
        assert(rest.push(ds.last()) =~= ds);
        assert(ds.last() == ds[ds.len() - 1]);
        lemma_status_total_push(ss, rest, ds.last());
    }
}

proof fn lemma_items_total_of_groups(ss: Seq<StatusView>, ds: Seq<DixDiffView>)
    ensures
        items_total(ss.map_values(|s: StatusView| group_spec(ds, s))) == status_total(ss, ds),
    decreases ss.len(),
{
    if ss.len() > 0 {
        lemma_items_total_of_groups(ss.drop_last(), ds);
        assert(ss.map_values(|s: StatusView| group_spec(ds, s)).drop_last() =~= ss.drop_last().map_values(
            |s: StatusView| group_spec(ds, s),
        ));
    }
}

/// Every diff lands in exactly one group: the group sizes add up to the
/// number of diffs.
pub proof fn lemma_report_groups_cover_diffs(ds: Seq<DixDiffView>)
    ensures
        items_total(report_groups(ds)) == ds.len(),
{
    let ss = statuses_in_order(ds);
    lemma_statuses_in_order(ds);
    lemma_concat_orders(ss, 6);
    let sorted = sorted_statuses(ds);
    assert forall|i: int| 0 <= i < ds.len() implies sorted.contains(#[trigger] diff_status(ds[i])) by {
        assert(ss.contains(diff_status(ds[i])));
        assert(order_of(diff_status(ds[i])) < 6);
    }
    lemma_status_total_covers(sorted, ds);
    lemma_items_total_of_groups(sorted, ds);
}

} // verus!
