//! The text of the PDF report's header and totals; the drawing itself is
//! floating-point page layout and stays with the renderer.
use vstd::prelude::*;
use crate::bytes::{bytes_text, format_bytes, format_signed_bytes, signed_bytes_text};
use crate::model::{ChangeStatus, ReportTotals, StatusView, heading_of};
use crate::report_markdown::totals_showable;
use crate::text::{copy_str, int_decimal, join, join_strings, push_int};

verus! {

/// The entries of the totals line: paths, then size and difference.
pub open spec fn metric_entries(t: ReportTotals) -> Seq<Seq<char>> {
    let paths = match t.paths {
        Some(p) => seq![
            "PATHS: "@ + int_decimal(p.old as int) + " -> "@ + int_decimal(p.new as int) + " (+"@
                + int_decimal(p.added as int) + ", -"@ + int_decimal(p.removed as int) + ")"@,
        ],
        None => Seq::<Seq<char>>::empty(),
    };
    let sizes = match (t.size_old, t.size_new) {
        (Some(o), Some(n)) => seq![
            "SIZE: "@ + bytes_text(o as int) + " -> "@ + bytes_text(n as int),
            "DIFF: "@ + signed_bytes_text(n - o),
        ],
        _ => Seq::<Seq<char>>::empty(),
    };
    paths + sizes
}

/// The totals line under the summary, when there is anything to show.
pub open spec fn metrics_line_spec(t: ReportTotals) -> Option<Seq<char>> {
    let entries = metric_entries(t);
    if entries.len() == 0 {
        None
    } else {
        Some(join(entries, "    "@))
    }
}

pub fn metrics_line(totals: &ReportTotals) -> (r: Option<String>)
    requires
        totals_showable(*totals),
    ensures
        match r {
            Some(s) => metrics_line_spec(*totals) == Some(s@),
            None => metrics_line_spec(*totals) is None,
        },
{
    let mut metrics: Vec<String> = Vec::new();
    match &totals.paths {
        Some(p) => {
            let mut s = copy_str("PATHS: ");
            push_int(&mut s, p.old);
            s.append(" -> ");
            push_int(&mut s, p.new);
            s.append(" (+");
            push_int(&mut s, p.added);
            s.append(", -");
            push_int(&mut s, p.removed);
            s.append(")");
            metrics.push(s);
        },
        None => {},
    }
    match (totals.size_old, totals.size_new) {
        (Some(size_old), Some(size_new)) => {
            let mut s = copy_str("SIZE: ");
            let a = format_bytes(size_old);
            s.append(a.as_str());
            s.append(" -> ");
            let b = format_bytes(size_new);
            s.append(b.as_str());
            metrics.push(s);
            let mut d = copy_str("DIFF: ");
            let delta = format_signed_bytes(size_new - size_old);
            d.append(delta.as_str());
            metrics.push(d);
        },
        _ => {},
    }
    assert(metrics@.map_values(|s: String| s@) =~= metric_entries(*totals));
    if metrics.len() == 0 {
        None
    } else {
        Some(join_strings(&metrics, "    "))
    }
}

/// The subtitle of a report written for the command line.
pub fn report_subtitle(title: &str) -> (r: String)
    ensures
        r@ == "SUNix Report: "@ + title@,
{
    let mut s = copy_str("SUNix Report: ");
    s.append(title);
    s
}

/// The title of a section, or of its continuation on a new page.
pub open spec fn section_title_spec(status: StatusView, continued: bool) -> Seq<char> {
    if continued {
        heading_of(status) + " (continued)"@
    } else {
        heading_of(status)
    }
}

pub fn section_title(status: &ChangeStatus, continued: bool) -> (r: String)
    ensures
        r@ == section_title_spec(status@, continued),
{
    let mut s = copy_str(status.heading());
    if continued {
        s.append(" (continued)");
    }
    s
}

} // verus!
