use sunix::dix::demo_report;
use sunix::ui::navigation::{
    export_key_action, report_step, shortcut_action, ExportKeyAction, KeyPress, ReportStep,
    ShortcutAction,
};
use sunix::ui::report::{chooser_key_hints, is_empty_report, loading_parts, metric_pairs, subtitle_parts};
use sunix::ui::state::{ReportCache, ReportSource};

#[test]
fn maps_keys_to_shortcuts() {
    assert_eq!(shortcut_action(KeyPress::Escape, false, false), ShortcutAction::Close);
    assert_eq!(shortcut_action(KeyPress::Char('H'), false, false), ShortcutAction::Back);
    assert_eq!(shortcut_action(KeyPress::Char('k'), true, false), ShortcutAction::ScrollUp);
    assert_eq!(shortcut_action(KeyPress::Char('k'), false, false), ShortcutAction::Ignore);
    assert_eq!(shortcut_action(KeyPress::Down, true, false), ShortcutAction::ScrollDown);
    assert_eq!(
        shortcut_action(KeyPress::Char('M'), false, false),
        ShortcutAction::Open(ReportSource::HomeManager)
    );
    assert_eq!(shortcut_action(KeyPress::Char('d'), false, false), ShortcutAction::Ignore);
    assert_eq!(
        shortcut_action(KeyPress::Char('d'), false, true),
        ShortcutAction::Open(ReportSource::Demo)
    );
    assert_eq!(export_key_action(KeyPress::Char('p'), true), ExportKeyAction::SavePdf);
    assert_eq!(export_key_action(KeyPress::Char('p'), false), ExportKeyAction::Ignore);
    assert_eq!(export_key_action(KeyPress::Escape, false), ExportKeyAction::Close);
}

#[test]
fn decides_how_to_open_reports() {
    assert_eq!(report_step(ReportSource::Demo, true, false), ReportStep::ShowDemo);
    assert_eq!(report_step(ReportSource::NixOS, true, false), ReportStep::ShowCached);
    assert_eq!(report_step(ReportSource::NixOS, false, true), ReportStep::Build);
    assert_eq!(report_step(ReportSource::HomeManager, false, false), ReportStep::ShowConfigError);
}

#[test]
fn caches_reports_per_source() {
    let mut cache = ReportCache::new();
    assert!(cache.cached_report(ReportSource::NixOS).is_none());
    cache.cache_report(ReportSource::NixOS, demo_report());
    cache.cache_report(ReportSource::Demo, demo_report());
    assert_eq!(cache.cached_report(ReportSource::NixOS).unwrap().flake, "demo");
    assert!(cache.cached_report(ReportSource::HomeManager).is_none());
    assert!(cache.cached_report(ReportSource::Demo).is_none());
}

#[test]
fn describes_report_views() {
    let report = demo_report();
    assert!(!is_empty_report(&report));
    let (a, b, c) = subtitle_parts(ReportSource::HomeManager, "niri");
    assert_eq!(format!("{a}{b}{c}"), "Home Manager #niri flake");
    let (a, b, c) = loading_parts(ReportSource::NixOS, "aorus");
    assert_eq!(format!("{a}{b}{c}"), "Building #aorus NixOS configuration...");
    let pairs = metric_pairs(&report.totals);
    assert_eq!(pairs.len(), 3);
    assert_eq!(pairs[0].0, "PATHS:");
    assert_eq!(chooser_key_hints(true).len(), 4);
}

#[test]
fn cached_reports_are_shown_again_without_building() {
    let mut cache = ReportCache::new();
    for source in [ReportSource::HomeManager, ReportSource::NixOS] {
        assert_eq!(
            report_step(source, cache.cached_report(source).is_some(), true),
            ReportStep::Build
        );
        cache.cache_report(source, demo_report());
        assert_eq!(
            report_step(source, cache.cached_report(source).is_some(), true),
            ReportStep::ShowCached
        );
    }
    cache.cache_report(ReportSource::Demo, demo_report());
    assert_eq!(
        report_step(ReportSource::Demo, cache.cached_report(ReportSource::Demo).is_some(), true),
        ReportStep::ShowDemo
    );
}
