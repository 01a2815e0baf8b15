use sunix::dix::{
    demo_dix_report, demo_report, dix_binary, home_manager_attr, home_manager_profile_candidates,
    missing_profile_message, nixos_attr, parse_output_paths, DixDiff, DixPaths, DixReport,
    DixVersion, DixVersionDiff,
};
use sunix::model::{ChangeGroup, ChangeStatus, PackageChange, UpdateReport};

fn version(name: &str, amount: Option<i64>) -> Option<DixVersion> {
    Some(DixVersion {
        name: name.to_string(),
        amount,
    })
}

fn entry(
    kind: &str,
    version: Option<DixVersion>,
    old: Option<DixVersion>,
    new: Option<DixVersion>,
    amounts: Option<(i64, i64)>,
) -> DixVersionDiff {
    DixVersionDiff {
        kind: kind.to_string(),
        version,
        old,
        new,
        old_amount: amounts.map(|a| a.0),
        new_amount: amounts.map(|a| a.1),
    }
}

fn diff(
    name: &str,
    versions: Vec<DixVersionDiff>,
    status: &str,
    has_omitted_versions: bool,
    size_delta: i64,
) -> DixDiff {
    DixDiff {
        name: name.to_string(),
        versions,
        status: status.to_string(),
        has_omitted_versions,
        size_delta,
    }
}

fn group<'a>(report: &'a UpdateReport, status: &ChangeStatus) -> &'a ChangeGroup {
    report
        .groups
        .iter()
        .find(|group| group.status == *status)
        .unwrap()
}

fn item<'a>(group: &'a ChangeGroup, name: &str) -> &'a PackageChange {
    group.items.iter().find(|item| item.name == name).unwrap()
}

#[test]
fn parses_dix_sample_report() {
    let report = demo_dix_report().into_update_report("aorus");

    assert_eq!(report.flake, "aorus");
    assert!(report.totals.paths.is_some());
    assert!(report.totals.size_old.is_some());
    assert!(report.totals.size_new.is_some());
    assert!(!report.groups.is_empty());
    assert!(report.groups.iter().all(|group| !group.items.is_empty()));
}

#[test]
fn builds_demo_report_from_sample_json() {
    let report = demo_report();

    assert_eq!(report.flake, "demo");
    assert!(report.totals.paths.is_some());
    assert!(!report.groups.is_empty());
}

#[test]
fn reports_missing_home_manager_profile_candidates() {
    let err = missing_profile_message(&vec![
        "/missing-home-manager-profile-one".to_string(),
        "/missing-home-manager-profile-two".to_string(),
    ]);

    assert!(err.contains("could not find active Home Manager profile"));
    assert!(err.contains("/missing-home-manager-profile-one"));
    assert!(err.contains("/missing-home-manager-profile-two"));
}

#[test]
fn parses_all_known_dix_version_entry_shapes() {
    let report = DixReport {
        diffs: vec![
            diff(
                "bazecor",
                vec![
                    entry(
                        "changed",
                        None,
                        version("1.6.5-bwrap", Some(1)),
                        version("1.8.3-bwrap", Some(1)),
                        None,
                    ),
                    entry("added", version("1.8.3-patched", Some(1)), None, None, None),
                ],
                "Upgraded",
                false,
                20408,
            ),
            diff(
                "gcc",
                vec![
                    entry(
                        "changed",
                        None,
                        version("14.2.1.20250322-lib", Some(1)),
                        version("14.3.0-lib", Some(1)),
                        None,
                    ),
                    entry(
                        "changed",
                        None,
                        version("14.2.1.20250322-libgcc", Some(1)),
                        version("14.3.0-libgcc", Some(1)),
                        None,
                    ),
                ],
                "Upgraded",
                true,
                -10519768,
            ),
            diff(
                "curl",
                vec![entry("removed", version("8.13.0", Some(1)), None, None, None)],
                "Downgraded",
                true,
                -1099464,
            ),
            diff(
                "libffi",
                vec![
                    entry("removed", version("3.4.8", Some(1)), None, None, None),
                    entry("amount_changed", version("3.5.2", None), None, None, Some((4, 3))),
                ],
                "Downgraded",
                true,
                -147424,
            ),
            diff(
                "libxml2",
                vec![
                    entry("removed", version("2.15.2", Some(1)), None, None, None),
                    entry("amount_changed", version("2.15.1", None), None, None, Some((1, 2))),
                ],
                "Downgraded",
                true,
                -8400,
            ),
            diff(
                "ada",
                vec![entry("amount_changed", version("3.4.4", None), None, None, Some((2, 1)))],
                "Changed",
                false,
                -1368176,
            ),
            diff(
                "60-dygma.rules",
                vec![entry("added", version("<none>", Some(1)), None, None, None)],
                "Added",
                false,
                216,
            ),
        ],
        paths: Some(DixPaths {
            old: 1,
            new: 2,
            added: 1,
            removed: 0,
        }),
        size_old: Some(1000),
        size_new: Some(2000),
    }
    .into_update_report("aorus");

    let upgraded = group(&report, &ChangeStatus::Upgraded);
    let downgraded = group(&report, &ChangeStatus::Downgraded);
    let changed = group(&report, &ChangeStatus::Changed);
    let added = group(&report, &ChangeStatus::Added);

    let bazecor = item(upgraded, "bazecor");
    assert_eq!(bazecor.version, "1.6.5-bwrap -> 1.8.3-bwrap, 1.8.3-patched");
    assert_eq!(bazecor.old_version.as_deref(), Some("1.6.5"));
    assert_eq!(bazecor.new_version.as_deref(), Some("1.8.3"));
    assert_eq!(bazecor.size, "+19.9 KiB");

    let gcc = item(upgraded, "gcc");
    assert_eq!(gcc.old_version.as_deref(), Some("14.2.1.20250322"));
    assert_eq!(gcc.new_version.as_deref(), Some("14.3.0"));
    assert_eq!(gcc.size, "-10 MiB");

    let curl = item(downgraded, "curl");
    assert_eq!(curl.old_version.as_deref(), Some("8.13.0"));
    assert_eq!(curl.new_version.as_deref(), Some("..."));
    assert_eq!(curl.size, "-1.05 MiB");

    let libffi = item(downgraded, "libffi");
    assert_eq!(libffi.old_version.as_deref(), Some("3.5.2"));
    assert_eq!(libffi.new_version.as_deref(), Some("3.4.8"));
    assert_eq!(libffi.size, "-144 KiB");

    let libxml2 = item(downgraded, "libxml2");
    assert_eq!(libxml2.old_version.as_deref(), Some("2.15.2"));
    assert_eq!(libxml2.new_version.as_deref(), Some("2.15.1"));
    assert_eq!(libxml2.size, "-8.2 KiB");

    let ada = item(changed, "ada");
    assert_eq!(ada.version, "3.4.4 (2 -> 1)");
    assert_eq!(ada.old_version, None);
    assert_eq!(ada.new_version, None);
    assert_eq!(ada.size, "-1.3 MiB");

    let dygma_rules = item(added, "60-dygma.rules");
    assert_eq!(dygma_rules.version, "<none>");
    assert_eq!(dygma_rules.size, "+216 B");
}

#[test]
fn sorts_groups_by_status_order_keeping_first_appearance() {
    let report = DixReport {
        diffs: vec![
            diff("a", vec![], "Mystery", false, 1),
            diff("b", vec![], "Changed", false, 1),
            diff("c", vec![], "Added", false, 1),
            diff("d", vec![], "Other", false, 1),
            diff("e", vec![], "Mystery", false, 1),
            diff("f", vec![], "Added", false, 1),
        ],
        paths: None,
        size_old: None,
        size_new: None,
    }
    .into_update_report("x");
    let statuses: Vec<ChangeStatus> = report.groups.iter().map(|g| g.status.clone()).collect();
    assert_eq!(
        statuses,
        vec![
            ChangeStatus::Added,
            ChangeStatus::Changed,
            ChangeStatus::Other("Mystery".to_string()),
            ChangeStatus::Other("Other".to_string()),
        ]
    );
    let names: Vec<&str> = report.groups[0].items.iter().map(|i| i.name.as_str()).collect();
    assert_eq!(names, vec!["c", "f"]);
    let names: Vec<&str> = report.groups[2].items.iter().map(|i| i.name.as_str()).collect();
    assert_eq!(names, vec!["a", "e"]);
    assert_eq!(report.groups[1].items[0].version, "-");
}

#[test]
fn names_the_build_attributes() {
    assert_eq!(home_manager_attr("niri"), ".#homeConfigurations.niri.activationPackage");
    assert_eq!(nixos_attr("aorus"), ".#nixosConfigurations.aorus.config.system.build.toplevel");
}

#[test]
fn reads_build_output_paths() {
    assert_eq!(
        parse_output_paths(" /nix/store/a\n/nix/store/b \n", "attr", "/f").unwrap(),
        vec!["/nix/store/a".to_string(), "/nix/store/b".to_string()]
    );
    assert_eq!(
        parse_output_paths(" \n\t", "attr", "/f").unwrap_err(),
        "nix build attr in /f did not print an output path"
    );
}

#[test]
fn lists_home_manager_profile_candidates() {
    let some = |s: &str| Some(s.to_string());
    assert_eq!(
        home_manager_profile_candidates(&None, &some("/home/u"), &some("u"), &None).unwrap(),
        vec![
            "/home/u/.local/state/nix/profiles/home-manager".to_string(),
            "/nix/var/nix/profiles/per-user/u/home-manager".to_string(),
        ]
    );
    assert_eq!(
        home_manager_profile_candidates(&some("/state"), &some("/home/u"), &some(""), &some("l"))
            .unwrap(),
        vec![
            "/state/nix/profiles/home-manager".to_string(),
            "/nix/var/nix/profiles/per-user/l/home-manager".to_string(),
        ]
    );
    assert!(home_manager_profile_candidates(&None, &some(""), &None, &None).is_err());
}

#[test]
fn picks_the_dix_binary() {
    let config = sunix::config::parse_config(
        "flake_dir=/f\nhome_flake=h\nnixos_flake=n\n",
        "t",
        &None,
    )
    .unwrap();
    assert_eq!(dix_binary(&config), "dix");
}

#[test]
fn demo_report_groups_the_sample_diffs() {
    let sample = demo_dix_report();
    let count = sample.diffs.len();
    let report = demo_report();
    assert_eq!(count, 6);
    assert_eq!(report.groups.iter().map(|g| g.items.len()).sum::<usize>(), count);
    let statuses: Vec<&ChangeStatus> = report.groups.iter().map(|g| &g.status).collect();
    assert_eq!(
        statuses,
        vec![
            &ChangeStatus::Added,
            &ChangeStatus::Removed,
            &ChangeStatus::Upgraded,
            &ChangeStatus::Downgraded,
            &ChangeStatus::Changed
        ]
    );
    assert_eq!(group(&report, &ChangeStatus::Upgraded).items.len(), 2);
    let curl = item(group(&report, &ChangeStatus::Downgraded), "curl");
    assert_eq!(curl.old_version.as_deref(), Some("8.13.0"));
    assert_eq!(curl.new_version.as_deref(), Some("8.12.1"));
    assert_eq!(report.totals.size_old, Some(12884901888));
    assert_eq!(report.totals.size_new, Some(12891439104));
    assert_eq!(report.totals.paths.map(|p| (p.old, p.new, p.added, p.removed)), Some((3021, 3040, 25, 6)));
}

#[test]
fn package_change_follows_the_given_status() {
    let d = diff(
        "linux",
        vec![entry("changed", None, version("6.12.1", Some(1)), version("6.12.2", Some(1)), None)],
        "Upgraded",
        false,
        1024,
    );
    let shown = d.into_package_change(&ChangeStatus::Added);
    assert_eq!(shown.version, "6.12.1 -> 6.12.2");
    assert_eq!(shown.old_version, None);
    assert_eq!(shown.new_version, None);
    let upgraded = d.into_package_change(&ChangeStatus::Upgraded);
    assert_eq!(upgraded.old_version.as_deref(), Some("6.12.1"));
    assert_eq!(upgraded.size, "+1 KiB");
}

#[test]
fn group_sizes_add_up_to_the_diffs() {
    let report = DixReport {
        diffs: vec![
            diff("a", vec![], "Added", false, 1),
            diff("b", vec![], "weird", false, 2),
            diff("c", vec![], "Added", false, 3),
            diff("d", vec![], "Removed", false, -4),
        ],
        paths: None,
        size_old: None,
        size_new: None,
    }
    .into_update_report("x");
    assert_eq!(report.groups.iter().map(|g| g.items.len()).sum::<usize>(), 4);
}
