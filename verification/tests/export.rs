use sunix::ui::export::{
    default_file_name, export_path_for, export_subtitle, export_target, sanitize_file_part,
    with_extension, ExportFormat,
};
use sunix::ui::state::ReportSource;

#[test]
fn sanitizes_file_parts() {
    assert_eq!(sanitize_file_part("niri-hdmi"), "niri-hdmi");
    assert_eq!(sanitize_file_part("nixos/aorus"), "nixos-aorus");
    assert_eq!(sanitize_file_part(""), "report");
}

#[test]
fn replaces_missing_or_mismatched_extensions() {
    assert_eq!(
        std::path::PathBuf::from(with_extension("report.txt", ExportFormat::Pdf)),
        std::path::PathBuf::from("report.pdf")
    );
    assert_eq!(
        std::path::PathBuf::from(with_extension("report.PDF", ExportFormat::Pdf)),
        std::path::PathBuf::from("report.PDF")
    );
    assert_eq!(
        std::path::PathBuf::from(with_extension("report.txt", ExportFormat::Markdown)),
        std::path::PathBuf::from("report.md")
    );
}

#[test]
fn uses_sunix_report_file_name_defaults() {
    assert_eq!(
        default_file_name("sample", ExportFormat::Markdown),
        "sunix-report-sample.md"
    );
    assert_eq!(
        default_file_name("nixos/aorus", ExportFormat::Pdf),
        "sunix-report-nixos-aorus.pdf"
    );
}

#[test]
fn rejects_empty_export_paths() {
    assert_eq!(
        export_target("  ", &None),
        Err("Enter an export path".to_owned())
    );
}

#[test]
fn resolves_export_path_extensions() {
    let target = export_target("report.txt", &None).expect("path should resolve");
    assert_eq!(
        std::path::PathBuf::from(export_path_for(&target, false, "sample", ExportFormat::Pdf)),
        std::path::PathBuf::from("report.pdf")
    );
}

#[test]
fn places_exports_in_directories() {
    assert_eq!(
        export_path_for("/tmp", true, "sample/report", ExportFormat::Pdf),
        "/tmp/sunix-report-sample-report.pdf"
    );
    assert_eq!(
        export_path_for("/tmp/", true, "sample/report", ExportFormat::Markdown),
        "/tmp/sunix-report-sample-report.md"
    );
    assert_eq!(
        export_target(" ~/out.md ", &Some("/home/u".to_string())).unwrap(),
        "/home/u/out.md"
    );
    assert_eq!(with_extension("notes", ExportFormat::Markdown), "notes.md");
}

#[test]
fn names_export_subtitles() {
    assert_eq!(export_subtitle(ReportSource::Demo, "demo"), "Showing #demo sample");
    assert_eq!(export_subtitle(ReportSource::NixOS, "aorus"), "NixOS #aorus flake");
    assert_eq!(ExportFormat::Pdf.label(), "PDF");
}

#[test]
fn resolves_directory_export_paths() {
    let dir = "/tmp";
    let target = export_target(dir, &None).expect("directory should resolve");
    assert_eq!(
        std::path::PathBuf::from(export_path_for(&target, true, "sample/report", ExportFormat::Pdf)),
        std::path::PathBuf::from(dir).join("sunix-report-sample-report.pdf")
    );
    assert_eq!(
        std::path::PathBuf::from(export_path_for(
            &target,
            true,
            "sample/report",
            ExportFormat::Markdown
        )),
        std::path::PathBuf::from(dir).join("sunix-report-sample-report.md")
    );
}
