use sunix::model::{ChangeStatus, PackageChange, PathSummary, ReportTotals};
use sunix::model::{column_headings, row_cells};
use sunix::report_pdf::{metrics_line, report_subtitle, section_title};

fn upgraded_item() -> PackageChange {
    PackageChange {
        name: "linux".to_owned(),
        version: "6.12.1 -> 6.12.2".to_owned(),
        old_version: Some("6.12.1".to_owned()),
        new_version: Some("6.12.2".to_owned()),
        size: "+14 MiB".to_owned(),
    }
}

#[test]
fn pdf_metrics_line_lists_paths_sizes_and_difference() {
    let totals = ReportTotals {
        paths: Some(PathSummary {
            old: 10,
            new: 12,
            added: 3,
            removed: 1,
        }),
        size_old: Some(1024),
        size_new: Some(3072),
    };
    assert_eq!(
        metrics_line(&totals).as_deref(),
        Some("PATHS: 10 -> 12 (+3, -1)    SIZE: 1 KiB -> 3 KiB    DIFF: +2 KiB")
    );
}

#[test]
fn pdf_metrics_line_is_absent_without_totals() {
    assert_eq!(metrics_line(&ReportTotals::default()), None);
    let only_old = ReportTotals {
        paths: None,
        size_old: Some(5),
        size_new: None,
    };
    assert_eq!(metrics_line(&only_old), None);
}

#[test]
fn pdf_subtitle_and_section_titles() {
    assert_eq!(report_subtitle("NixOS .#aorus"), "SUNix Report: NixOS .#aorus");
    assert_eq!(section_title(&ChangeStatus::Upgraded, false), "Upgraded");
    assert_eq!(
        section_title(&ChangeStatus::Added, true),
        "Added (continued)"
    );
}

#[test]
fn pdf_columns_split_versions_only_for_old_new_statuses() {
    assert_eq!(
        column_headings(&ChangeStatus::Upgraded),
        vec!["Category", "Name", "Old Version", "New Version", "Size"]
    );
    assert_eq!(
        column_headings(&ChangeStatus::Added),
        vec!["Category", "Name", "Version", "Size"]
    );
}

#[test]
fn pdf_row_cells_follow_the_columns() {
    let item = upgraded_item();
    assert_eq!(
        row_cells(&ChangeStatus::Upgraded, &item),
        vec!["[U.]", "linux", "6.12.1", "6.12.2", "+14 MiB"]
    );
    assert_eq!(
        row_cells(&ChangeStatus::Added, &item),
        vec!["[A+]", "linux", "6.12.1 -> 6.12.2", "+14 MiB"]
    );
    let missing = PackageChange {
        old_version: None,
        ..upgraded_item()
    };
    assert_eq!(
        row_cells(&ChangeStatus::Downgraded, &missing),
        vec!["[D]", "linux", "-", "6.12.2", "+14 MiB"]
    );
    for status in [
        ChangeStatus::Added,
        ChangeStatus::Removed,
        ChangeStatus::Upgraded,
        ChangeStatus::Downgraded,
        ChangeStatus::Changed,
        ChangeStatus::Other("odd".to_owned()),
    ] {
        assert_eq!(row_cells(&status, &item).len(), column_headings(&status).len());
    }
}
