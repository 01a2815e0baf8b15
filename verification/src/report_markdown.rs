//! The update report as GitHub-flavoured Markdown: a title, a summary line,
//! the totals, and one collapsible table per non-empty group.
use vstd::prelude::*;
use crate::bytes::{bytes_text, format_bytes, format_signed_bytes, has_abs, signed_bytes_text};
use crate::model::{
    ChangeGroupView, PackageChange, PackageChangeView, ReportTotals, UpdateReport,
    UpdateReportView, heading_of, marker_of, or_dash, shows_old_new, summary_label_of,
};
use crate::text::{chars_of, decimal, int_decimal, join, join_strings, push_char, push_decimal, push_int};

verus! {

// ---------------------------------------------------------------------------
// Escaping
// ---------------------------------------------------------------------------

/// `s.replace(c, t)` for a single character `c`.
pub open spec fn replace_char(s: Seq<char>, c: char, t: Seq<char>) -> Seq<char>
    decreases s.len(),
{
    if s.len() == 0 {
        Seq::<char>::empty()
    } else {
        replace_char(s.drop_last(), c, t) + if s.last() == c {
            t
        } else {
            seq![s.last()]
        }
    }
}

/// Backslashes and pipes escaped for a Markdown table.
pub open spec fn escape_text_spec(s: Seq<char>) -> Seq<char> {
    replace_char(replace_char(s, '\\', "\\\\"@), '|', "\\|"@)
}

/// A table cell: escaped, with line breaks as `<br>`.
pub open spec fn table_cell_spec(s: Seq<char>) -> Seq<char> {
    replace_char(escape_text_spec(s), '\n', "<br>"@)
}

/// `&`, `<` and `>` as HTML entities.
pub open spec fn escape_html_spec(s: Seq<char>) -> Seq<char> {
    replace_char(replace_char(replace_char(s, '&', "&amp;"@), '<', "&lt;"@), '>', "&gt;"@)
}

pub fn replace_chars(s: &str, c: char, t: &str) -> (r: String)
    ensures
        r@ == replace_char(s@, c, t@),
{
    let v = chars_of(s);
    let mut out = String::new();
    let mut i: usize = 0;
    assert(v@.subrange(0, 0) =~= Seq::<char>::empty());
    while i < v.len()
        invariant
            i <= v.len(),
            v@ == s@,
            out@ == replace_char(v@.subrange(0, i as int), c, t@),
        decreases v.len() - i,
    {
        assert(v@.subrange(0, i + 1).drop_last() =~= v@.subrange(0, i as int));
        if v[i] == c {
            out.append(t);
        } else {
            push_char(&mut out, v[i]);
            assert(out@ =~= replace_char(v@.subrange(0, i as int), c, t@) + seq![v@[i as int]]);
        }
        i = i + 1;
    }
    assert(v@.subrange(0, v.len() as int) =~= v@);
    out
}

pub fn escape_text(value: &str) -> (r: String)
    ensures
        r@ == escape_text_spec(value@),
{
    let a = replace_chars(value, '\\', "\\\\");
    replace_chars(a.as_str(), '|', "\\|")
}

pub fn table_cell(value: &str) -> (r: String)
    ensures
        r@ == table_cell_spec(value@),
{
    let a = escape_text(value);
    replace_chars(a.as_str(), '\n', "<br>")
}

pub fn escape_html(value: &str) -> (r: String)
    ensures
        r@ == escape_html_spec(value@),
{
    let a = replace_chars(value, '&', "&amp;");
    let b = replace_chars(a.as_str(), '<', "&lt;");
    replace_chars(b.as_str(), '>', "&gt;")
}

proof fn lemma_replace_avoids(s: Seq<char>, c: char, t: Seq<char>, d: char)
    requires
        d == c || !s.contains(d),
        !t.contains(d),
    ensures
        !replace_char(s, c, t).contains(d),
    decreases s.len(),
{
    if s.len() > 0 {
        let prev = s.drop_last();
        assert(!prev.contains(d) || d == c) by {
            if prev.contains(d) {
                let i = choose|i: int| 0 <= i < prev.len() && prev[i] == d;
                assert(s[i] == d);
            }
        }
        lemma_replace_avoids(prev, c, t, d);
        let tail = if s.last() == c {
            t
        } else {
            seq![s.last()]
        };
        assert(!tail.contains(d)) by {
            if s.last() != c && tail.contains(d) {
                assert(tail[0] == d);
                assert(s[s.len() - 1] == d);
            }
        }
        let whole = replace_char(prev, c, t) + tail;
        assert forall|i: int| 0 <= i < whole.len() implies whole[i] != d by {
            if i < replace_char(prev, c, t).len() {
                assert(whole[i] == replace_char(prev, c, t)[i]);
            } else {
                assert(whole[i] == tail[i - replace_char(prev, c, t).len()]);
            }
        }
    }
}

/// A table cell never holds a line break, so every row stays on one line.
pub proof fn lemma_table_cell_single_line(s: Seq<char>)
    ensures
        !table_cell_spec(s).contains('\n'),
{
    reveal_strlit("<br>");
    lemma_replace_avoids(escape_text_spec(s), '\n', "<br>"@, '\n');
}

/// Escaped for HTML, a text holds no `<` or `>`, so it cannot open or close a tag.
pub proof fn lemma_escape_html_has_no_tags(s: Seq<char>)
    ensures
        !escape_html_spec(s).contains('<'),
        !escape_html_spec(s).contains('>'),
{
    reveal_strlit("&amp;");
    reveal_strlit("&lt;");
    reveal_strlit("&gt;");
    let a = replace_char(s, '&', "&amp;"@);
    let b = replace_char(a, '<', "&lt;"@);
    lemma_replace_avoids(a, '<', "&lt;"@, '<');
    lemma_replace_avoids(b, '>', "&gt;"@, '<');
    lemma_replace_avoids(b, '>', "&gt;"@, '>');
}

// ---------------------------------------------------------------------------
// The document
// ---------------------------------------------------------------------------

/// "N label" for every non-empty group.
pub open spec fn summary_counts(gs: Seq<ChangeGroupView>) -> Seq<Seq<char>>
    decreases gs.len(),
{
    if gs.len() == 0 {
        Seq::<Seq<char>>::empty()
    } else {
        let g = gs.last();
        summary_counts(gs.drop_last()) + if g.items.len() > 0 {
            seq![decimal(g.items.len()) + " "@ + summary_label_of(g.status)]
        } else {
            Seq::<Seq<char>>::empty()
        }
    }
}

pub open spec fn summary_spec(gs: Seq<ChangeGroupView>) -> Seq<char> {
    let counts = summary_counts(gs);
    if counts.len() == 0 {
        "No changes"@
    } else {
        escape_text_spec(join(counts, ", "@))
    }
}

/// Sizes whose difference, and each of them, `format_signed_bytes` can show.
pub open spec fn totals_showable(t: ReportTotals) -> bool {
    match (t.size_old, t.size_new) {
        (Some(o), Some(n)) => has_abs(o as int) && has_abs(n as int) && i64::MIN < n - o
            <= i64::MAX,
        _ => true,
    }
}

pub open spec fn paths_line(t: ReportTotals) -> Seq<Seq<char>> {
    match t.paths {
        Some(p) => seq![
            "- **Paths:** "@ + int_decimal(p.old as int) + " -> "@ + int_decimal(p.new as int)
                + " (+"@ + int_decimal(p.added as int) + ", -"@ + int_decimal(p.removed as int)
                + ")"@,
        ],
        None => Seq::<Seq<char>>::empty(),
    }
}

pub open spec fn size_line(t: ReportTotals) -> Seq<Seq<char>> {
    match (t.size_old, t.size_new) {
        (Some(o), Some(n)) => seq![
            "- **Size:** "@ + bytes_text(o as int) + " -> "@ + bytes_text(n as int) + " ("@
                + signed_bytes_text(n - o) + ")"@,
        ],
        _ => Seq::<Seq<char>>::empty(),
    }
}

/// The totals block, when there is anything to show.
pub open spec fn metrics_spec(t: ReportTotals) -> Option<Seq<char>> {
    let lines = paths_line(t) + size_line(t);
    if lines.len() == 0 {
        None
    } else {
        Some(join(lines, "\n"@) + "\n"@)
    }
}

pub open spec fn old_new_row_spec(item: PackageChangeView, marker: Seq<char>) -> Seq<char> {
    "| "@ + table_cell_spec(marker) + " | "@ + table_cell_spec(item.name) + " | "@ + table_cell_spec(
        or_dash(item.old_version),
    ) + " | "@ + table_cell_spec(or_dash(item.new_version)) + " | "@ + table_cell_spec(item.size)
        + " |\n"@
}

pub open spec fn version_row_spec(item: PackageChangeView, marker: Seq<char>) -> Seq<char> {
    "| "@ + table_cell_spec(marker) + " | "@ + table_cell_spec(item.name) + " | "@ + table_cell_spec(
        item.version,
    ) + " | "@ + table_cell_spec(item.size) + " |\n"@
}

pub open spec fn rows_spec(items: Seq<PackageChangeView>, marker: Seq<char>, old_new: bool) -> Seq<
    char,
>
    decreases items.len(),
{
    if items.len() == 0 {
        Seq::<char>::empty()
    } else {
        rows_spec(items.drop_last(), marker, old_new) + if old_new {
            old_new_row_spec(items.last(), marker)
        } else {
            version_row_spec(items.last(), marker)
        }
    }
}

pub open spec fn table_head(old_new: bool) -> Seq<char> {
    if old_new {
        "| Category | Name | Old Version | New Version | Size |\n"@
            + "| --- | --- | --- | --- | --- |\n"@
    } else {
        "| Category | Name | Version | Size |\n"@ + "| --- | --- | --- | --- |\n"@
    }
}

/// The opening of a group's collapsible section, up to its table rows.
pub open spec fn group_head(g: ChangeGroupView) -> Seq<char> {
    "\n"@ + "<details>\n"@ + "<summary><strong>"@ + escape_html_spec(heading_of(g.status))
        + "</strong> ("@ + decimal(g.items.len()) + ")</summary>\n\n"@ + table_head(
        shows_old_new(g.status),
    )
}

/// The collapsible section of one group.
pub open spec fn group_block(g: ChangeGroupView) -> Seq<char> {
    group_head(g) + rows_spec(g.items, marker_of(g.status), shows_old_new(g.status))
        + "\n</details>\n"@
}

pub open spec fn blocks(gs: Seq<ChangeGroupView>) -> Seq<char>
    decreases gs.len(),
{
    if gs.len() == 0 {
        Seq::<char>::empty()
    } else {
        blocks(gs.drop_last()) + if gs.last().items.len() > 0 {
            group_block(gs.last())
        } else {
            Seq::<char>::empty()
        }
    }
}

/// The whole Markdown document for `report` under `title`.
pub open spec fn markdown_spec(report: UpdateReportView, title: Seq<char>) -> Seq<char> {
    "## SUNix Report: "@ + escape_text_spec(title) + "\n\n"@ + "**Summary:** "@ + summary_spec(
        report.groups,
    ) + "\n"@ + match metrics_spec(report.totals) {
        Some(m) => "\n"@ + m,
        None => Seq::<char>::empty(),
    } + blocks(report.groups)
}

/// The title the viewer gives a report of `source_label`.
pub open spec fn default_title(source_label: Seq<char>, flake: Seq<char>) -> Seq<char> {
    source_label + " #"@ + flake + " :rocket:"@
}

// ---------------------------------------------------------------------------

fn summary(report: &UpdateReport) -> (r: String)
    ensures
        r@ == summary_spec(report@.groups),
{
    let ghost gs = report@.groups;
    let mut counts: Vec<String> = Vec::new();
    let mut i: usize = 0;
    assert(gs.take(0) =~= Seq::<ChangeGroupView>::empty());
    while i < report.groups.len()
        invariant
            i <= report.groups@.len(),
            gs == report@.groups,
            counts@.map_values(|s: String| s@) == summary_counts(gs.take(i as int)),
        decreases report.groups.len() - i,
    {
        assert(gs.take(i + 1).drop_last() =~= gs.take(i as int));
        assert(gs[i as int] == report.groups@[i as int]@);
        let group = &report.groups[i];
        if group.items.len() > 0 {
            let mut s = String::new();
            push_decimal(&mut s, group.items.len() as u128);
            s.append(" ");
            s.append(group.status.summary_label());
            let ghost before = counts@;
            counts.push(s);
            assert(counts@.map_values(|s: String| s@) =~= before.map_values(|s: String| s@).push(
                s@,
            ));
        }
        assert(counts@.map_values(|s: String| s@) =~= summary_counts(gs.take(i + 1)));
        i = i + 1;
    }
    assert(gs.take(report.groups@.len() as int) =~= gs);
    if counts.len() == 0 {
        let mut s = String::new();
        s.append("No changes");
        s
    } else {
        let joined = join_strings(&counts, ", ");
        escape_text(joined.as_str())
    }
}

fn metrics(totals: &ReportTotals) -> (r: Option<String>)
    requires
        totals_showable(*totals),
    ensures
        match r {
            Some(s) => metrics_spec(*totals) == Some(s@),
            None => metrics_spec(*totals) is None,
        },
{
    let mut lines: Vec<String> = Vec::new();
    match &totals.paths {
        Some(p) => {
            let mut s = String::new();
            s.append("- **Paths:** ");
            push_int(&mut s, p.old);
            s.append(" -> ");
            push_int(&mut s, p.new);
            s.append(" (+");
            push_int(&mut s, p.added);
            s.append(", -");
            push_int(&mut s, p.removed);
            s.append(")");
            lines.push(s);
        },
        None => {},
    }
    match size_metrics(totals) {
        Some(s) => lines.push(s),
        None => {},
    }
    assert(lines@.map_values(|s: String| s@) =~= paths_line(*totals) + size_line(*totals));
    if lines.len() == 0 {
        None
    } else {
        let mut s = join_strings(&lines, "\n");
        s.append("\n");
        Some(s)
    }
}

fn size_metrics(totals: &ReportTotals) -> (r: Option<String>)
    requires
        totals_showable(*totals),
    ensures
        match r {
            Some(s) => size_line(*totals) == seq![s@],
            None => size_line(*totals).len() == 0,
        },
{
    match (totals.size_old, totals.size_new) {
        (Some(size_old), Some(size_new)) => {
            let mut s = String::new();
            s.append("- **Size:** ");
            let a = format_bytes(size_old);
            s.append(a.as_str());
            s.append(" -> ");
            let b = format_bytes(size_new);
            s.append(b.as_str());
            s.append(" (");
            let d = format_signed_bytes(size_new - size_old);
            s.append(d.as_str());
            s.append(")");
            Some(s)
        },
        _ => None,
    }
}

fn opt_or_dash(o: &Option<String>) -> (r: &str)
    ensures
        r@ == or_dash(crate::model::opt_view(*o)),
{
    match o {
        Some(s) => s.as_str(),
        None => "-",
    }
}

fn push_cell(out: &mut String, value: &str)
    ensures
        final(out)@ == old(out)@ + table_cell_spec(value@),
{
    let c = table_cell(value);
    out.append(c.as_str());
}

fn old_new_row(item: &PackageChange, marker: &str) -> (r: String)
    ensures
        r@ == old_new_row_spec(item@, marker@),
{
    let mut s = String::new();
    s.append("| ");
    push_cell(&mut s, marker);
    s.append(" | ");
    push_cell(&mut s, item.name.as_str());
    s.append(" | ");
    push_cell(&mut s, opt_or_dash(&item.old_version));
    s.append(" | ");
    push_cell(&mut s, opt_or_dash(&item.new_version));
    s.append(" | ");
    push_cell(&mut s, item.size.as_str());
    s.append(" |\n");
    s
}

fn version_row(item: &PackageChange, marker: &str) -> (r: String)
    ensures
        r@ == version_row_spec(item@, marker@),
{
    let mut s = String::new();
    s.append("| ");
    push_cell(&mut s, marker);
    s.append(" | ");
    push_cell(&mut s, item.name.as_str());
    s.append(" | ");
    push_cell(&mut s, item.version.as_str());
    s.append(" | ");
    push_cell(&mut s, item.size.as_str());
    s.append(" |\n");
    s
}

fn group_head_text(group: &crate::model::ChangeGroup) -> (r: String)
    ensures
        r@ == group_head(group@),
{
    let mut out = String::new();
    out.append("\n");
    out.append("<details>\n");
    out.append("<summary><strong>");
    let heading = escape_html(group.status.heading());
    out.append(heading.as_str());
    out.append("</strong> (");
    push_decimal(&mut out, group.items.len() as u128);
    out.append(")</summary>\n\n");
    if group.status.has_old_new_versions() {
        out.append("| Category | Name | Old Version | New Version | Size |\n");
        out.append("| --- | --- | --- | --- | --- |\n");
    } else {
        out.append("| Category | Name | Version | Size |\n");
        out.append("| --- | --- | --- | --- |\n");
    }
    out
}

fn group_rows(group: &crate::model::ChangeGroup) -> (r: String)
    ensures
        r@ == rows_spec(group@.items, marker_of(group@.status), shows_old_new(group@.status)),
{
    let old_new = group.status.has_old_new_versions();
    let marker = group.status.default_marker();
    let ghost items = group@.items;
    let mut out = String::new();
    let mut i: usize = 0;
    assert(items.take(0) =~= Seq::<PackageChangeView>::empty());
    while i < group.items.len()
        invariant
            i <= group.items@.len(),
            items == group@.items,
            old_new == shows_old_new(group@.status),
            marker@ == marker_of(group@.status),
            out@ == rows_spec(items.take(i as int), marker@, old_new),
        decreases group.items.len() - i,
    {
        assert(items.take(i + 1).drop_last() =~= items.take(i as int));
        assert(items[i as int] == group.items@[i as int]@);
        let row = if old_new {
            old_new_row(&group.items[i], marker)
        } else {
            version_row(&group.items[i], marker)
        };
        out.append(row.as_str());
        i = i + 1;
    }
    assert(items.take(group.items@.len() as int) =~= items);
    out
}

fn push_group(out: &mut String, group: &crate::model::ChangeGroup)
    ensures
        final(out)@ == old(out)@ + group_block(group@),
{
    let head = group_head_text(group);
    let rows = group_rows(group);
    out.append(head.as_str());
    out.append(rows.as_str());
    out.append("\n</details>\n");
}

/// Renders the report under the viewer's title for `source_label`.
pub fn render_report(report: &UpdateReport, source_label: &str) -> (r: String)
    requires
        totals_showable(report.totals),
    ensures
        r@ == markdown_spec(report@, default_title(source_label@, report@.flake)),
{
    let mut title = String::new();
    title.append(source_label);
    title.append(" #");
    title.append(report.flake.as_str());
    title.append(" :rocket:");
    render_report_with_title(report, title.as_str())
}

/// Renders the report under `title`.
pub fn render_report_with_title(report: &UpdateReport, title: &str) -> (r: String)
    requires
        totals_showable(report.totals),
    ensures
        r@ == markdown_spec(report@, title@),
{
    let mut markdown = String::new();
    markdown.append("## SUNix Report: ");
    let t = escape_text(title);
    markdown.append(t.as_str());
    markdown.append("\n\n");
    markdown.append("**Summary:** ");
    let s = summary(report);
    markdown.append(s.as_str());
    markdown.append("\n");
    match metrics(&report.totals) {
        Some(m) => {
            markdown.append("\n");
            markdown.append(m.as_str());
        },
        None => {},
    }
    let ghost gs = report@.groups;
    let ghost head = markdown@;
    let mut i: usize = 0;
    assert(gs.take(0) =~= Seq::<ChangeGroupView>::empty());
    while i < report.groups.len()
        invariant
            i <= report.groups@.len(),
            gs == report@.groups,
            markdown@ == head + blocks(gs.take(i as int)),
        decreases report.groups.len() - i,
    {
        assert(gs.take(i + 1).drop_last() =~= gs.take(i as int));
        assert(gs[i as int] == report.groups@[i as int]@);
        let group = &report.groups[i];
        if group.items.len() > 0 {
            push_group(&mut markdown, group);
        }
        i = i + 1;
    }
    assert(gs.take(report.groups@.len() as int) =~= gs);
    markdown
}

// ---------------------------------------------------------------------------
// One row per item
// ---------------------------------------------------------------------------

/// The number of line breaks in a text.
pub open spec fn line_breaks(s: Seq<char>) -> nat
    decreases s.len(),
{
    if s.len() == 0 {
        0
    } else {
        line_breaks(s.drop_last()) + if s.last() == '\n' {
            1nat
        } else {
            0nat
        }
    }
}

/// The table row of one item in a section of the given kind.
pub open spec fn item_row(item: PackageChangeView, marker: Seq<char>, old_new: bool) -> Seq<char> {
    if old_new {
        old_new_row_spec(item, marker)
    } else {
        version_row_spec(item, marker)
    }
}

proof fn lemma_line_breaks_concat(a: Seq<char>, b: Seq<char>)
    ensures
        line_breaks(a + b) == line_breaks(a) + line_breaks(b),
    decreases b.len(),
{
    if b.len() == 0 {
        assert(a + b =~= a);
    } else {
        lemma_line_breaks_concat(a, b.drop_last());
        assert((a + b).drop_last() =~= a + b.drop_last());
        assert((a + b).last() == b.last());
    }
}

proof fn lemma_line_breaks_concat_all()
    ensures
        forall|a: Seq<char>, b: Seq<char>| #[trigger] line_breaks(a + b) == line_breaks(a) + line_breaks(b),
{
    assert forall|a: Seq<char>, b: Seq<char>| #[trigger] line_breaks(a + b) == line_breaks(a) + line_breaks(b) by {
        lemma_line_breaks_concat(a, b);
    }
}

proof fn lemma_line_breaks_none(s: Seq<char>)
    requires
        !s.contains('\n'),
    ensures
        line_breaks(s) == 0,
    decreases s.len(),
{
    if s.len() > 0 {
        assert(s[s.len() - 1] == s.last());
        assert(!s.drop_last().contains('\n')) by {
            if s.drop_last().contains('\n') {
                let k = choose|k: int| 0 <= k < s.drop_last().len() && s.drop_last()[k] == '\n';
                assert(s[k] == '\n');
            }
        }
        lemma_line_breaks_none(s.drop_last());
    }
}

proof fn lemma_cell_line_breaks(s: Seq<char>)
    ensures
        line_breaks(table_cell_spec(s)) == 0,
{
    lemma_table_cell_single_line(s);
    lemma_line_breaks_none(table_cell_spec(s));
}

proof fn lemma_literal_breaks()
    ensures
        line_breaks("| "@) == 0,
        line_breaks(" | "@) == 0,
        line_breaks(" |\n"@) == 1,
{
    reveal_strlit("| ");
    reveal_strlit(" | ");
    reveal_strlit(" |\n");
    lemma_line_breaks_none("| "@);
    lemma_line_breaks_none(" | "@);
    assert(" |\n"@ =~= " |"@.push('\n')) by {
        reveal_strlit(" |");
    }
    reveal_strlit(" |");
    lemma_line_breaks_none(" |"@);
    assert((" |"@.push('\n')).drop_last() =~= " |"@);
}

/// Every item row is exactly one line.
pub proof fn lemma_item_row_is_one_line(item: PackageChangeView, marker: Seq<char>, old_new: bool)
    ensures
        line_breaks(item_row(item, marker, old_new)) == 1,
        item_row(item, marker, old_new).last() == '\n',
{
    lemma_line_breaks_concat_all();
    lemma_literal_breaks();
    lemma_cell_line_breaks(marker);
    lemma_cell_line_breaks(item.name);
    lemma_cell_line_breaks(or_dash(item.old_version));
    lemma_cell_line_breaks(or_dash(item.new_version));
    lemma_cell_line_breaks(item.version);
    lemma_cell_line_breaks(item.size);
    reveal_strlit(" |\n");
}

/// The rows of two runs of items are the rows of the first, then those of the second.
pub proof fn lemma_rows_concat(a: Seq<PackageChangeView>, b: Seq<PackageChangeView>, marker: Seq<char>, old_new: bool)
    ensures
        rows_spec(a + b, marker, old_new) == rows_spec(a, marker, old_new) + rows_spec(b, marker, old_new),
    decreases b.len(),
{
    if b.len() == 0 {
        assert(a + b =~= a);
        assert(rows_spec(a, marker, old_new) + Seq::<char>::empty() =~= rows_spec(a, marker, old_new));
    } else {
        lemma_rows_concat(a, b.drop_last(), marker, old_new);
        assert((a + b).drop_last() =~= a + b.drop_last());
        assert((a + b).last() == b.last());
        let ra = rows_spec(a, marker, old_new);
        let rb = rows_spec(b.drop_last(), marker, old_new);
        let x = item_row(b.last(), marker, old_new);
        assert(ra + rb + x =~= ra + (rb + x));
    }
}

/// A section's table has one row per item, in item order: the rows are
/// those before item `k`, the row of item `k`, then those after it.
pub proof fn lemma_rows_in_item_order(items: Seq<PackageChangeView>, marker: Seq<char>, old_new: bool, k: int)
    requires
        0 <= k < items.len(),
    ensures
        rows_spec(items, marker, old_new) == rows_spec(items.take(k), marker, old_new) + item_row(
            items[k],
            marker,
            old_new,
        ) + rows_spec(items.skip(k + 1), marker, old_new),
{
    let one = seq![items[k]];
    assert(items =~= items.take(k) + one + items.skip(k + 1));
    lemma_rows_concat(items.take(k) + one, items.skip(k + 1), marker, old_new);
    lemma_rows_concat(items.take(k), one, marker, old_new);
    assert(one.drop_last() =~= Seq::<PackageChangeView>::empty());
    assert(rows_spec(one.drop_last(), marker, old_new) == Seq::<char>::empty());
    assert(one.last() == items[k]);
    assert(Seq::<char>::empty() + item_row(items[k], marker, old_new) =~= item_row(items[k], marker, old_new));
    assert(rows_spec(one, marker, old_new) =~= item_row(items[k], marker, old_new));
}

/// A section's table has exactly as many row lines as the group has items.
pub proof fn lemma_rows_line_count(items: Seq<PackageChangeView>, marker: Seq<char>, old_new: bool)
    ensures
        line_breaks(rows_spec(items, marker, old_new)) == items.len(),
    decreases items.len(),
{
    if items.len() > 0 {
        lemma_rows_line_count(items.drop_last(), marker, old_new);
        lemma_item_row_is_one_line(items.last(), marker, old_new);
        lemma_line_breaks_concat(
            rows_spec(items.drop_last(), marker, old_new),
            item_row(items.last(), marker, old_new),
        );
    }
}

} // verus!
