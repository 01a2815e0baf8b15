use sunix::model::ChangeStatus;

#[test]
fn reads_dix_statuses() {
    assert_eq!(ChangeStatus::from_dix("Added".to_string()), ChangeStatus::Added);
    assert_eq!(ChangeStatus::from_dix("Downgraded".to_string()), ChangeStatus::Downgraded);
    assert_eq!(
        ChangeStatus::from_dix("added".to_string()),
        ChangeStatus::Other("added".to_string())
    );
}

#[test]
fn describes_statuses() {
    let other = ChangeStatus::Other("Renamed".to_string());
    assert_eq!(other.heading(), "Renamed");
    assert_eq!(other.css_class(), "other");
    assert_eq!(other.default_marker(), "[?]");
    assert_eq!(other.order(), 5);
    assert_eq!(ChangeStatus::Upgraded.default_marker(), "[U.]");
    assert_eq!(ChangeStatus::Removed.summary_label(), "removed");
    assert!(ChangeStatus::Downgraded.has_old_new_versions());
    assert!(!ChangeStatus::Changed.has_old_new_versions());
    assert_eq!(ChangeStatus::Changed.order(), 4);
}
