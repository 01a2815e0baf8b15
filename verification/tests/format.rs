use sunix::dix::{DixVersion, DixVersionDiff};
use sunix::format::{
    compact_single_version, format_version, format_version_change, format_versions,
    strip_common_output_suffix,
};
use sunix::model::ChangeStatus;
use sunix::version_order::{compare_versions, numeric_version_parts, VersionOrder};

fn named(kind: &str, name: &str) -> DixVersionDiff {
    DixVersionDiff {
        kind: kind.to_string(),
        version: Some(DixVersion { name: name.to_string(), amount: Some(1) }),
        old: None,
        new: None,
        old_amount: None,
        new_amount: None,
    }
}

fn changed(old: &str, new: &str) -> DixVersionDiff {
    DixVersionDiff {
        kind: "changed".to_string(),
        version: None,
        old: Some(DixVersion { name: old.to_string(), amount: Some(1) }),
        new: Some(DixVersion { name: new.to_string(), amount: Some(2) }),
        old_amount: None,
        new_amount: None,
    }
}

#[test]
fn formats_version_lists() {
    assert_eq!(format_versions(&[], false), "-");
    assert_eq!(format_versions(&[], true), "...");
    assert_eq!(
        format_versions(&[changed("1", "2"), named("added", "3")], true),
        "1 -> 2 x2, 3, ..."
    );
    let mut odd = named("weird", "x");
    odd.version = None;
    assert_eq!(format_version(&odd), "<weird>");
    odd.old = Some(DixVersion { name: "a".to_string(), amount: None });
    odd.new = Some(DixVersion { name: "b".to_string(), amount: Some(-3) });
    assert_eq!(format_version(&odd), "a -> b");
}

#[test]
fn compacts_output_suffixes() {
    assert_eq!(compact_single_version("1.2.3-dev"), "1.2.3");
    assert_eq!(compact_single_version("abc-dev"), "abc-dev");
    assert_eq!(compact_single_version("2.0-fhsenv-rootfs"), "2.0");
    assert_eq!(
        strip_common_output_suffix("1.0-lib-dev", "2.0-lib-dev"),
        Some(("1.0".to_string(), "2.0".to_string()))
    );
    assert_eq!(strip_common_output_suffix("1.0-lib", "2.0-bin"), None);
    assert_eq!(strip_common_output_suffix("lib-x", "lib-x"), None);
    assert_eq!(strip_common_output_suffix("1.0", "2.0"), None);
}

#[test]
fn orders_versions_numerically() {
    assert_eq!(compare_versions("1.10", "1.9"), VersionOrder::Greater);
    assert_eq!(compare_versions("1.0", "1"), VersionOrder::Greater);
    assert_eq!(compare_versions("1.2", "1.2"), VersionOrder::Equal);
    assert_eq!(compare_versions("2.0-rc1", "2.0"), VersionOrder::Greater);
    assert_eq!(numeric_version_parts("a12b3c99999999999999999999"), vec![12, 3, u64::MAX]);
}

#[test]
fn picks_downgrade_versions() {
    let versions = [named("added", "1.9"), named("removed", "1.10"), named("added", "1.2")];
    let change = format_version_change(&ChangeStatus::Downgraded, &versions, false);
    assert_eq!(change.old.as_deref(), Some("1.10"));
    assert_eq!(change.new.as_deref(), Some("1.2"));
    let swapped = format_version_change(&ChangeStatus::Downgraded, &[changed("1.0", "2.0")], false);
    assert_eq!(swapped.old.as_deref(), Some("2.0"));
    assert_eq!(swapped.new.as_deref(), Some("1.0"));
    let upgraded = format_version_change(&ChangeStatus::Upgraded, &[named("added", "2.0")], true);
    assert_eq!(upgraded.old.as_deref(), Some("..."));
    assert_eq!(upgraded.new.as_deref(), Some("2.0"));
}

#[test]
fn downgrade_fallback_never_goes_up() {
    let versions = [named("removed", "1.0-bin"), named("added", "1.0")];
    let change = format_version_change(&ChangeStatus::Downgraded, &versions, false);
    assert_eq!(change.old.as_deref(), Some("1.0"));
    assert_eq!(change.new.as_deref(), Some("1.0"));
    let omitted = format_version_change(&ChangeStatus::Downgraded, &[named("removed", "2.0")], true);
    assert_eq!(omitted.old.as_deref(), Some("2.0"));
    assert_eq!(omitted.new.as_deref(), Some("..."));
}
