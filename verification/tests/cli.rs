use sunix::cli::{usage, CliOptions, CliReport, CliReportFormat};

#[test]
fn parses_no_options() {
    assert_eq!(
        CliOptions::parse(vec![]).unwrap(),
        CliOptions {
            demo: false,
            help: false,
            report: None,
        }
    );
}

#[test]
fn parses_demo_option() {
    assert_eq!(
        CliOptions::parse(vec!["--demo".to_string()]).unwrap(),
        CliOptions {
            demo: true,
            help: false,
            report: None,
        }
    );
}

#[test]
fn parses_help_options() {
    assert_eq!(
        CliOptions::parse(vec!["--help".to_string()]).unwrap(),
        CliOptions {
            demo: false,
            help: true,
            report: None,
        }
    );
    assert_eq!(
        CliOptions::parse(vec!["-h".to_string()]).unwrap(),
        CliOptions {
            demo: false,
            help: true,
            report: None,
        }
    );
}

#[test]
fn parses_markdown_report_option() {
    assert_eq!(
        CliOptions::parse(vec!["--markdown-report".to_string(), "NixOS .#aorus".to_string()])
            .unwrap(),
        CliOptions {
            demo: false,
            help: false,
            report: Some(CliReport {
                format: CliReportFormat::Markdown,
                title: "NixOS .#aorus".to_owned(),
            }),
        }
    );
}

#[test]
fn parses_pdf_report_option() {
    assert_eq!(
        CliOptions::parse(vec![
            "--pdf-report".to_string(),
            "Home Manager .#niri".to_string()
        ])
        .unwrap(),
        CliOptions {
            demo: false,
            help: false,
            report: Some(CliReport {
                format: CliReportFormat::Pdf,
                title: "Home Manager .#niri".to_owned(),
            }),
        }
    );
}

#[test]
fn rejects_report_without_title() {
    assert!(CliOptions::parse(vec!["--markdown-report".to_string()]).is_err());
    assert!(CliOptions::parse(vec!["--pdf-report".to_string()]).is_err());
    assert!(
        CliOptions::parse(vec!["--markdown-report".to_string(), "--demo".to_string()]).is_err()
    );
}

#[test]
fn rejects_multiple_report_output_flags() {
    assert!(
        CliOptions::parse(vec![
            "--markdown-report".to_string(),
            "NixOS".to_string(),
            "--pdf-report".to_string(),
            "NixOS".to_string(),
        ])
        .is_err()
    );
}

#[test]
fn rejects_demo_with_report_output() {
    assert!(
        CliOptions::parse(vec![
            "--demo".to_string(),
            "--markdown-report".to_string(),
            "NixOS".to_string(),
        ])
        .is_err()
    );
}

#[test]
fn rejects_unknown_options() {
    assert!(CliOptions::parse(vec!["--toggle".to_string()]).is_err());
}

#[test]
fn documents_demo_usage() {
    assert!(usage().contains("--demo"));
    assert!(usage().contains("--markdown-report"));
    assert!(usage().contains("--pdf-report"));
}

#[test]
fn reports_each_refusal_with_its_message() {
    assert_eq!(
        CliOptions::parse(vec!["--toggle".to_string()]).unwrap_err(),
        "sunix: unsupported argument `--toggle`"
    );
    assert_eq!(
        CliOptions::parse(vec!["--pdf-report".to_string()]).unwrap_err(),
        "sunix: --pdf-report requires a report title argument"
    );
    assert_eq!(
        CliOptions::parse(vec!["--markdown-report".to_string(), "-x".to_string()]).unwrap_err(),
        "sunix: --markdown-report requires a report title argument"
    );
    assert_eq!(
        CliOptions::parse(vec!["--markdown-report".to_string(), "  ".to_string()]).unwrap_err(),
        "sunix: --markdown-report requires a non-empty report title"
    );
    assert_eq!(
        CliOptions::parse(vec![
            "--markdown-report".to_string(),
            "a".to_string(),
            "--markdown-report".to_string(),
            "b".to_string(),
        ])
        .unwrap_err(),
        "sunix: only one report output flag can be used"
    );
    assert_eq!(
        CliOptions::parse(vec![
            "--pdf-report".to_string(),
            "a".to_string(),
            "--demo".to_string(),
        ])
        .unwrap_err(),
        "sunix: --demo cannot be used with report output flags"
    );
}

#[test]
fn accepts_demo_and_help_together() {
    let options = CliOptions::parse(vec!["--demo".to_string(), "-h".to_string()]).unwrap();
    assert!(options.demo && options.help && options.report.is_none());
}
