use sunix::model::{ChangeGroup, ChangeStatus, PackageChange, PathSummary, ReportTotals, UpdateReport};
use sunix::report_markdown::{escape_html, escape_text, render_report, render_report_with_title, table_cell};

fn sample_report() -> UpdateReport {
    UpdateReport {
        flake: "aorus".to_owned(),
        groups: vec![
            ChangeGroup {
                status: ChangeStatus::Added,
                items: vec![PackageChange {
                    name: "ripgrep".to_owned(),
                    version: "14.1.1".to_owned(),
                    old_version: None,
                    new_version: None,
                    size: "+5.1 MiB".to_owned(),
                }],
            },
            ChangeGroup {
                status: ChangeStatus::Upgraded,
                items: vec![PackageChange {
                    name: "linux".to_owned(),
                    version: "6.12.1 -> 6.12.2".to_owned(),
                    old_version: Some("6.12.1".to_owned()),
                    new_version: Some("6.12.2".to_owned()),
                    size: "+14 MiB".to_owned(),
                }],
            },
        ],
        totals: ReportTotals {
            paths: Some(PathSummary {
                old: 10,
                new: 12,
                added: 3,
                removed: 1,
            }),
            size_old: Some(2048),
            size_new: Some(3072),
        },
    }
}

#[test]
fn renders_report_as_github_markdown() {
    let report = sample_report();

    let markdown = render_report(&report, "NixOS");

    assert!(markdown.starts_with("## SUNix Report: NixOS #aorus :rocket:\n\n"));
    assert!(markdown.contains("**Summary:** 1 added, 1 upgraded"));
    assert!(markdown.contains("- **Paths:** 10 -> 12 (+3, -1)"));
    assert!(markdown.contains("- **Size:** 2 KiB -> 3 KiB (+1 KiB)"));
    let visible = markdown
        .split("<details>")
        .next()
        .expect("report should have visible content before details");
    assert!(visible.contains("## SUNix Report: NixOS #aorus :rocket:"));
    assert!(visible.contains("**Summary:** 1 added, 1 upgraded"));
    assert!(visible.contains("- **Paths:** 10 -> 12 (+3, -1)"));
    assert!(visible.contains("- **Size:** 2 KiB -> 3 KiB (+1 KiB)"));
    assert!(markdown.contains("<summary><strong>Added</strong> (1)</summary>"));
    assert!(markdown.contains("<summary><strong>Upgraded</strong> (1)</summary>"));
    assert!(markdown.contains("| Category | Name | Version | Size |"));
    assert!(markdown.contains("| [A+] | ripgrep | 14.1.1 | +5.1 MiB |"));
    assert!(markdown.contains("| Category | Name | Old Version | New Version | Size |"));
    assert!(markdown.contains("| [U.] | linux | 6.12.1 | 6.12.2 | +14 MiB |"));
    assert_eq!(markdown.matches("<details>").count(), 2);
    assert_eq!(markdown.matches("</details>").count(), 2);
}

#[test]
fn renders_empty_reports_without_tables() {
    let report = UpdateReport {
        flake: "empty".to_owned(),
        groups: Vec::new(),
        totals: ReportTotals::default(),
    };

    let markdown = render_report(&report, "Demo");

    assert!(markdown.contains("**Summary:** No changes"));
    assert!(!markdown.contains("| Category |"));
}

#[test]
fn renders_report_with_cli_title() {
    let report = sample_report();

    let markdown = render_report_with_title(&report, "NixOS .#aorus");

    assert!(markdown.starts_with("## SUNix Report: NixOS .#aorus\n\n"));
    assert!(!markdown.contains(":rocket:"));
}

#[test]
fn escapes_table_cells() {
    let report = UpdateReport {
        flake: "flake`name".to_owned(),
        groups: vec![ChangeGroup {
            status: ChangeStatus::Changed,
            items: vec![PackageChange {
                name: "pkg|name".to_owned(),
                version: "1\\2\n3".to_owned(),
                old_version: None,
                new_version: None,
                size: "+1 B".to_owned(),
            }],
        }],
        totals: ReportTotals::default(),
    };

    let markdown = render_report(&report, "Demo");

    assert!(markdown.contains("## SUNix Report: Demo #flake`name :rocket:"));
    assert!(markdown.contains("| [C] | pkg\\|name | 1\\\\2<br>3 | +1 B |"));
}

#[test]
fn renders_the_whole_document() {
    let report = UpdateReport {
        flake: "f".to_owned(),
        groups: vec![
            ChangeGroup {
                status: ChangeStatus::Other("A<b>".to_owned()),
                items: vec![],
            },
            ChangeGroup {
                status: ChangeStatus::Downgraded,
                items: vec![PackageChange {
                    name: "x".to_owned(),
                    version: "2 -> 1".to_owned(),
                    old_version: Some("2".to_owned()),
                    new_version: None,
                    size: "-1 B".to_owned(),
                }],
            },
        ],
        totals: ReportTotals {
            paths: None,
            size_old: Some(5),
            size_new: Some(1),
        },
    };
    assert_eq!(
        render_report_with_title(&report, "T|t"),
        "## SUNix Report: T\\|t\n\n**Summary:** 1 downgraded\n\n- **Size:** 5 B -> 1 B (-4 B)\n\n<details>\n<summary><strong>Downgraded</strong> (1)</summary>\n\n| Category | Name | Old Version | New Version | Size |\n| --- | --- | --- | --- | --- |\n| [D] | x | 2 | - | -1 B |\n\n</details>\n"
    );
}

#[test]
fn escapes_text_and_html() {
    assert_eq!(escape_text("a\\|b"), "a\\\\\\|b");
    assert_eq!(table_cell("x\ny|"), "x<br>y\\|");
    assert_eq!(escape_html("<a & b>"), "&lt;a &amp; b&gt;");
}

#[test]
fn table_cells_stay_on_one_line() {
    let cell = table_cell("first\nsecond\r\nthird\n");
    assert_eq!(cell, "first<br>second\r<br>third<br>");
    assert!(!cell.contains('\n'));
}

#[test]
fn escaped_html_holds_no_tags() {
    let text = escape_html("<details>a & b</details>");
    assert_eq!(text, "&lt;details&gt;a &amp; b&lt;/details&gt;");
    assert!(!text.contains('<'));
    assert!(!text.contains('>'));
}
