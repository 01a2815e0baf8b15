//! The text the popup shows around a report.
use vstd::prelude::*;
use crate::bytes::{bytes_text, format_bytes, format_signed_bytes, signed_bytes_text};
use crate::model::{ChangeGroup, ReportTotals, UpdateReport, summary_label_of};
use crate::report_markdown::totals_showable;
use crate::text::{copy_str, decimal, int_decimal, push_decimal, push_int};
use crate::ui::state::{ReportSource, source_label};

verus! {

/// Every group is empty.
pub open spec fn report_is_empty(r: crate::model::UpdateReportView) -> bool {
    forall|i: int| 0 <= i < r.groups.len() ==> #[trigger] r.groups[i].items.len() == 0
}

pub fn is_empty_report(report: &UpdateReport) -> (r: bool)
    ensures
        r == report_is_empty(report@),
{
    let mut i: usize = 0;
    while i < report.groups.len()
        invariant
            i <= report.groups@.len(),
            forall|k: int| 0 <= k < i ==> #[trigger] report@.groups[k].items.len() == 0,
        decreases report.groups.len() - i,
    {
        assert(report@.groups[i as int] == report.groups@[i as int]@);
        assert(report@.groups[i as int].items.len() == report.groups@[i as int].items@.len());
        if report.groups[i].items.len() > 0 {
            return false;
        }
        i = i + 1;
    }
    true
}

/// "N label" for a group.
pub fn summary_count_text(group: &ChangeGroup) -> (r: String)
    ensures
        r@ == decimal(group@.items.len()) + " "@ + summary_label_of(group@.status),
{
    let mut s = String::new();
    push_decimal(&mut s, group.items.len() as u128);
    s.append(" ");
    s.append(group.status.summary_label());
    s
}

/// The subtitle under the report title, in three parts: before the flake
/// tag, the tag, and after it.
pub open spec fn subtitle_parts_spec(source: ReportSource, flake: Seq<char>) -> (Seq<char>, Seq<char>, Seq<char>) {
    if source == ReportSource::Demo {
        ("Showing "@, "#"@ + flake, " sample"@)
    } else {
        (source_label(source) + " "@, "#"@ + flake, " flake"@)
    }
}

pub fn subtitle_parts(source: ReportSource, flake: &str) -> (r: (String, String, String))
    ensures
        (r.0@, r.1@, r.2@) == subtitle_parts_spec(source, flake@),
{
    let mut tag = copy_str("#");
    tag.append(flake);
    match source {
        ReportSource::Demo => (copy_str("Showing "), tag, copy_str(" sample")),
        _ => {
            let mut prefix = copy_str(source.label());
            prefix.append(" ");
            (prefix, tag, copy_str(" flake"))
        },
    }
}

/// The loading message while a report is built, in three parts.
pub fn loading_parts(source: ReportSource, flake: &str) -> (r: (String, String, String))
    ensures
        r.0@ == "Building "@,
        r.1@ == "#"@ + flake@,
        r.2@ == " "@ + source_label(source) + " configuration..."@,
{
    let mut tag = copy_str("#");
    tag.append(flake);
    let mut suffix = copy_str(" ");
    suffix.append(source.label());
    suffix.append(" configuration...");
    (copy_str("Building "), tag, suffix)
}

/// The totals shown under the summary, as label and value.
pub open spec fn metric_pairs_spec(t: ReportTotals) -> Seq<(Seq<char>, Seq<char>)> {
    let paths = match t.paths {
        Some(p) => seq![
            (
                "PATHS:"@,
                int_decimal(p.old as int) + " -> "@ + int_decimal(p.new as int) + " (+"@
                    + int_decimal(p.added as int) + ", -"@ + int_decimal(p.removed as int) + ")"@,
            ),
        ],
        None => Seq::<(Seq<char>, Seq<char>)>::empty(),
    };
    let sizes = match (t.size_old, t.size_new) {
        (Some(o), Some(n)) => seq![
            ("SIZE:"@, bytes_text(o as int) + " -> "@ + bytes_text(n as int)),
            ("DIFF:"@, signed_bytes_text(n - o)),
        ],
        _ => Seq::<(Seq<char>, Seq<char>)>::empty(),
    };
    paths + sizes
}

pub fn metric_pairs(totals: &ReportTotals) -> (r: Vec<(String, String)>)
    requires
        totals_showable(*totals),
    ensures
        r@.map_values(|p: (String, String)| (p.0@, p.1@)) == metric_pairs_spec(*totals),
{
    let mut out: Vec<(String, String)> = Vec::new();
    match &totals.paths {
        Some(p) => {
            let mut v = String::new();
            push_int(&mut v, p.old);
            v.append(" -> ");
            push_int(&mut v, p.new);
            v.append(" (+");
            push_int(&mut v, p.added);
            v.append(", -");
            push_int(&mut v, p.removed);
            v.append(")");
            out.push((copy_str("PATHS:"), v));
        },
        None => {},
    }
    match (totals.size_old, totals.size_new) {
        (Some(size_old), Some(size_new)) => {
            let mut v = format_bytes(size_old);
            v.append(" -> ");
            let b = format_bytes(size_new);
            v.append(b.as_str());
            out.push((copy_str("SIZE:"), v));
            out.push((copy_str("DIFF:"), format_signed_bytes(size_new - size_old)));
        },
        _ => {},
    }
    assert(out@.map_values(|p: (String, String)| (p.0@, p.1@)) =~= metric_pairs_spec(*totals));
    out
}

/// The key hints of the chooser.
pub fn chooser_key_hints(show_demo: bool) -> (r: Vec<(&'static str, &'static str)>)
    ensures
        r@.len() == if show_demo {
            4nat
        } else {
            3nat
        },
        r@[0].0@ == "M"@ && r@[0].1@ == "Home Manager"@,
        r@[1].0@ == "N"@ && r@[1].1@ == "NixOS"@,
        show_demo ==> r@[2].0@ == "D"@ && r@[2].1@ == "Demo"@,
        r@.last().0@ == "Esc"@ && r@.last().1@ == "Close"@,
{
    let mut hints = vec![("M", "Home Manager"), ("N", "NixOS")];
    if show_demo {
        hints.push(("D", "Demo"));
    }
    hints.push(("Esc", "Close"));
    hints
}

/// The key hints under a report or a message.
pub fn report_key_hints(show_demo: bool) -> (r: Vec<(&'static str, &'static str)>)
    ensures
        r@.len() == if show_demo {
            7nat
        } else {
            6nat
        },
        r@[0].0@ == "↑ / K"@ && r@[0].1@ == "Scroll Up"@,
        r@[1].0@ == "↓ / J"@ && r@[1].1@ == "Scroll Down"@,
        r@[2].0@ == "M"@ && r@[2].1@ == "Home Manager"@,
        r@[3].0@ == "N"@ && r@[3].1@ == "NixOS"@,
        show_demo ==> r@[4].0@ == "D"@ && r@[4].1@ == "Demo"@,
        r@[r@.len() - 2].0@ == "← / H"@ && r@[r@.len() - 2].1@ == "Back"@,
        r@.last().0@ == "Esc"@ && r@.last().1@ == "Close"@,
{
    let mut hints = vec![
        ("↑ / K", "Scroll Up"),
        ("↓ / J", "Scroll Down"),
        ("M", "Home Manager"),
        ("N", "NixOS"),
    ];
    if show_demo {
        hints.push(("D", "Demo"));
    }
    hints.push(("← / H", "Back"));
    hints.push(("Esc", "Close"));
    hints
}

} // verus!
