//! What a key press, a button or a finished build leads to.
use vstd::prelude::*;
use crate::ui::state::{lemma_demo_never_cached, ReportCache, ReportSource, ViewState};

verus! {

/// A key as the popup reads it.
#[derive(Clone, Copy, Debug, PartialEq, Eq, Structural)]
pub enum KeyPress {
    Escape,
    Left,
    Up,
    Down,
    Char(char),
    Other,
}

/// What a key press asks of the popup.
#[derive(Clone, Copy, Debug, PartialEq, Eq, Structural)]
pub enum ShortcutAction {
    Close,
    Back,
    ScrollUp,
    ScrollDown,
    Open(ReportSource),
    Ignore,
}

/// What a key press asks of the export popover.
#[derive(Clone, Copy, Debug, PartialEq, Eq, Structural)]
pub enum ExportKeyAction {
    Close,
    SavePdf,
    SaveMarkdown,
    Ignore,
}

/// The next step of opening a report.
#[derive(Clone, Copy, Debug, PartialEq, Eq, Structural)]
pub enum ReportStep {
    ShowDemo,
    ShowCached,
    Build,
    ShowConfigError,
}

/// The code of a character with ASCII letters lowered.
pub open spec fn lower(c: char) -> u32 {
    if 'A' <= c && c <= 'Z' {
        (c as u32 + 32) as u32
    } else {
        c as u32
    }
}

/// The key is the character `expected`, ignoring ASCII case.
pub open spec fn key_is(key: KeyPress, expected: char) -> bool {
    match key {
        KeyPress::Char(c) => lower(c) == lower(expected),
        _ => false,
    }
}

fn lower_exec(c: char) -> (r: u32)
    ensures
        r == lower(c),
{
    if 'A' <= c && c <= 'Z' {
        (c as u32) + 32
    } else {
        c as u32
    }
}

pub fn key_matches(key: KeyPress, expected: char) -> (r: bool)
    ensures
        r == key_is(key, expected),
{
    match key {
        KeyPress::Char(c) => lower_exec(c) == lower_exec(expected),
        _ => false,
    }
}

/// Views that scroll.
pub open spec fn scrolls(view: ViewState) -> bool {
    view == ViewState::Report || view == ViewState::Message
}

pub fn is_scrollable(view: ViewState) -> (r: bool)
    ensures
        r == scrolls(view),
{
    view == ViewState::Report || view == ViewState::Message
}

/// Back leads to the chooser only from a report or a message.
pub fn can_navigate_back(view: ViewState) -> (r: bool)
    ensures
        r == scrolls(view),
{
    is_scrollable(view)
}

/// A report can be opened unless one is being built.
pub fn can_open_report(view: ViewState) -> (r: bool)
    ensures
        r == (view != ViewState::Loading),
{
    view != ViewState::Loading
}

/// The popup's keyboard shortcuts; `can_scroll` is whether the view has
/// something to scroll.
pub open spec fn shortcut_spec(key: KeyPress, can_scroll: bool, show_demo: bool) -> ShortcutAction {
    if key == KeyPress::Escape {
        ShortcutAction::Close
    } else if key == KeyPress::Left || key_is(key, 'h') {
        ShortcutAction::Back
    } else if (key == KeyPress::Up || key_is(key, 'k')) && can_scroll {
        ShortcutAction::ScrollUp
    } else if (key == KeyPress::Down || key_is(key, 'j')) && can_scroll {
        ShortcutAction::ScrollDown
    } else if key_is(key, 'm') {
        ShortcutAction::Open(ReportSource::HomeManager)
    } else if key_is(key, 'n') {
        ShortcutAction::Open(ReportSource::NixOS)
    } else if show_demo && key_is(key, 'd') {
        ShortcutAction::Open(ReportSource::Demo)
    } else {
        ShortcutAction::Ignore
    }
}

pub fn shortcut_action(key: KeyPress, can_scroll: bool, show_demo: bool) -> (r: ShortcutAction)
    ensures
        r == shortcut_spec(key, can_scroll, show_demo),
{
    if key == KeyPress::Escape {
        ShortcutAction::Close
    } else if key == KeyPress::Left || key_matches(key, 'h') {
        ShortcutAction::Back
    } else if (key == KeyPress::Up || key_matches(key, 'k')) && can_scroll {
        ShortcutAction::ScrollUp
    } else if (key == KeyPress::Down || key_matches(key, 'j')) && can_scroll {
        ShortcutAction::ScrollDown
    } else if key_matches(key, 'm') {
        ShortcutAction::Open(ReportSource::HomeManager)
    } else if key_matches(key, 'n') {
        ShortcutAction::Open(ReportSource::NixOS)
    } else if show_demo && key_matches(key, 'd') {
        ShortcutAction::Open(ReportSource::Demo)
    } else {
        ShortcutAction::Ignore
    }
}

pub open spec fn export_key_spec(key: KeyPress, alt: bool) -> ExportKeyAction {
    if key == KeyPress::Escape {
        ExportKeyAction::Close
    } else if !alt {
        ExportKeyAction::Ignore
    } else if key_is(key, 'p') {
        ExportKeyAction::SavePdf
    } else if key_is(key, 'm') {
        ExportKeyAction::SaveMarkdown
    } else {
        ExportKeyAction::Ignore
    }
}

/// The export popover's keys: Escape closes it, Alt+P and Alt+M save.
pub fn export_key_action(key: KeyPress, alt: bool) -> (r: ExportKeyAction)
    ensures
        r == export_key_spec(key, alt),
{
    if key == KeyPress::Escape {
        ExportKeyAction::Close
    } else if !alt {
        ExportKeyAction::Ignore
    } else if key_matches(key, 'p') {
        ExportKeyAction::SavePdf
    } else if key_matches(key, 'm') {
        ExportKeyAction::SaveMarkdown
    } else {
        ExportKeyAction::Ignore
    }
}

pub open spec fn report_step_spec(source: ReportSource, has_cached: bool, config_ok: bool) -> ReportStep {
    if source == ReportSource::Demo {
        ReportStep::ShowDemo
    } else if has_cached {
        ReportStep::ShowCached
    } else if config_ok {
        ReportStep::Build
    } else {
        ReportStep::ShowConfigError
    }
}

/// Opening a report: the demo is shown at once, a cached report is shown
/// again, otherwise it is built when the configuration loaded.
pub fn report_step(source: ReportSource, has_cached: bool, config_ok: bool) -> (r: ReportStep)
    ensures
        r == report_step_spec(source, has_cached, config_ok),
{
    if source == ReportSource::Demo {
        ReportStep::ShowDemo
    } else if has_cached {
        ReportStep::ShowCached
    } else if config_ok {
        ReportStep::Build
    } else {
        ReportStep::ShowConfigError
    }
}

/// Escape always closes the popup, whatever the view.
pub proof fn lemma_escape_closes(can_scroll: bool, show_demo: bool)
    ensures
        shortcut_spec(KeyPress::Escape, can_scroll, show_demo) == ShortcutAction::Close,
        export_key_spec(KeyPress::Escape, show_demo) == ExportKeyAction::Close,
{
}

/// The demo can only be opened by key when it is enabled.
pub proof fn lemma_demo_key_needs_demo(key: KeyPress, can_scroll: bool)
    ensures
        shortcut_spec(key, can_scroll, false) != ShortcutAction::Open(ReportSource::Demo),
{
}

/// Reports are kept for the session: once a report for `source` is in the
/// cache, opening `source` shows that report and never builds it again.
pub proof fn lemma_cached_reports_are_reused(cache: ReportCache, source: ReportSource, config_ok: bool)
    requires
        cache.cached(source) is Some,
    ensures
        report_step_spec(source, cache.cached(source) is Some, config_ok) == ReportStep::ShowCached,
{
    lemma_demo_never_cached(cache);
}

/// The README's shortcuts, in either case: M opens the Home Manager report
/// and N the NixOS report in every view; D opens the demo when it is
/// enabled; each of these opens its own source.
pub proof fn lemma_report_keys(can_scroll: bool, show_demo: bool)
    ensures
        shortcut_spec(KeyPress::Char('m'), can_scroll, show_demo) == ShortcutAction::Open(
            ReportSource::HomeManager,
        ),
        shortcut_spec(KeyPress::Char('M'), can_scroll, show_demo) == ShortcutAction::Open(
            ReportSource::HomeManager,
        ),
        shortcut_spec(KeyPress::Char('n'), can_scroll, show_demo) == ShortcutAction::Open(
            ReportSource::NixOS,
        ),
        shortcut_spec(KeyPress::Char('N'), can_scroll, show_demo) == ShortcutAction::Open(
            ReportSource::NixOS,
        ),
        show_demo ==> shortcut_spec(KeyPress::Char('d'), can_scroll, show_demo)
            == ShortcutAction::Open(ReportSource::Demo),
        show_demo ==> shortcut_spec(KeyPress::Char('D'), can_scroll, show_demo)
            == ShortcutAction::Open(ReportSource::Demo),
{
}

/// The other keys of the README: Left or H goes back, Up or K and Down or J
/// scroll when the view scrolls; a key that opens a report opens exactly the
/// source its letter names.
pub proof fn lemma_navigation_keys(key: KeyPress, can_scroll: bool, show_demo: bool)
    ensures
        shortcut_spec(KeyPress::Left, can_scroll, show_demo) == ShortcutAction::Back,
        shortcut_spec(KeyPress::Char('h'), can_scroll, show_demo) == ShortcutAction::Back,
        can_scroll ==> shortcut_spec(KeyPress::Up, can_scroll, show_demo) == ShortcutAction::ScrollUp,
        can_scroll ==> shortcut_spec(KeyPress::Char('k'), can_scroll, show_demo)
            == ShortcutAction::ScrollUp,
        can_scroll ==> shortcut_spec(KeyPress::Down, can_scroll, show_demo)
            == ShortcutAction::ScrollDown,
        can_scroll ==> shortcut_spec(KeyPress::Char('J'), can_scroll, show_demo)
            == ShortcutAction::ScrollDown,
        shortcut_spec(key, can_scroll, show_demo) == ShortcutAction::Open(ReportSource::HomeManager)
            ==> key_is(key, 'm'),
        shortcut_spec(key, can_scroll, show_demo) == ShortcutAction::Open(ReportSource::NixOS)
            ==> key_is(key, 'n'),
        shortcut_spec(key, can_scroll, show_demo) == ShortcutAction::Open(ReportSource::Demo)
            ==> key_is(key, 'd') && show_demo,
{
}

} // verus!
