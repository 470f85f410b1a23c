use portal_setting::{SettingValue, SettingsStore};

#[test]
fn filter_of_one_namespace_gives_that_namespace_alone() {
    let store = SettingsStore::new();
    let result = store.read_all(vec!["org.freedesktop.appearance".to_string()]);
    assert_eq!(result.len(), 1);
    assert!(result.contains_key("org.freedesktop.appearance"));
    assert!(!result.contains_key("org.gnome.desktop.interface"));
    assert!(!result.contains_key("org.gnome.desktop.privacy"));
    let group = result.get("org.freedesktop.appearance").unwrap();
    assert_eq!(group.namespace(), "org.freedesktop.appearance");
    assert_eq!(group.len(), 3);
    assert_eq!(group.get("color-scheme"), Some(&SettingValue::U32(0)));
    assert_eq!(group.get("accent-color"), Some(&SettingValue::F64Triple(0, 0, 0)));
    assert_eq!(group.get("contrast"), Some(&SettingValue::U32(0)));
    assert_eq!(group.get("gtk-theme"), None);
    assert!(group.contains_key("contrast"));
    assert!(!group.contains_key("clock-format"));
    assert!(result.get("org.gnome.desktop.privacy").is_none());
}

#[test]
fn no_filter_gives_all_seeded_namespaces() {
    let store = SettingsStore::new();
    let result = store.read_all(vec![]);
    assert_eq!(result.len(), 3);
    assert_eq!(result.get("org.freedesktop.appearance").unwrap().len(), 3);
    assert_eq!(result.get("org.gnome.desktop.interface").unwrap().len(), 6);
    assert_eq!(result.get("org.gnome.desktop.privacy").unwrap().len(), 2);
    assert_eq!(
        result.get("org.gnome.desktop.interface").unwrap().get("monospace-font-name"),
        Some(&SettingValue::Str("Source Code Pro 10".to_string()))
    );
    assert_eq!(
        result.get("org.gnome.desktop.privacy").unwrap().get("remember-recent-files"),
        Some(&SettingValue::Bool(true))
    );
}

#[test]
fn filter_of_two_namespaces() {
    let store = SettingsStore::new();
    let result = store.read_all(vec![
        "org.gnome.desktop.privacy".to_string(),
        "org.freedesktop.appearance".to_string(),
    ]);
    assert_eq!(result.len(), 2);
    assert!(result.contains_key("org.freedesktop.appearance"));
    assert!(result.contains_key("org.gnome.desktop.privacy"));
    assert!(!result.contains_key("org.gnome.desktop.interface"));
}

#[test]
fn namespace_without_settings_is_left_out() {
    let store = SettingsStore::new();
    let result = store.read_all(vec!["com.example.none".to_string()]);
    assert_eq!(result.len(), 0);
    assert!(!result.contains_key("com.example.none"));
    assert!(result.get("com.example.none").is_none());

    let result = store.read_all(vec![
        "com.example.none".to_string(),
        "org.gnome.desktop.privacy".to_string(),
    ]);
    assert_eq!(result.len(), 1);
    assert!(result.contains_key("org.gnome.desktop.privacy"));
}

#[test]
fn repeated_filter_entry_changes_nothing() {
    let store = SettingsStore::new();
    let result = store.read_all(vec![
        "org.gnome.desktop.privacy".to_string(),
        "org.gnome.desktop.privacy".to_string(),
    ]);
    assert_eq!(result.len(), 1);
    assert_eq!(result.get("org.gnome.desktop.privacy").unwrap().len(), 2);
}

#[test]
fn snapshot_shows_written_values_once() {
    let mut store = SettingsStore::new();
    store.write("org.freedesktop.appearance", "color-scheme", SettingValue::U32(1)).unwrap();
    store.write("org.freedesktop.appearance", "color-scheme", SettingValue::U32(2)).unwrap();
    store.write("com.example.custom", "anything", SettingValue::Bool(true)).unwrap();
    let result = store.read_all(vec![]);
    assert_eq!(result.len(), 4);
    let appearance = result.get("org.freedesktop.appearance").unwrap();
    assert_eq!(appearance.len(), 3);
    assert_eq!(appearance.get("color-scheme"), Some(&SettingValue::U32(2)));
    assert_eq!(
        result.get("com.example.custom").unwrap().get("anything"),
        Some(&SettingValue::Bool(true))
    );
}

#[test]
fn snapshot_is_not_changed_by_later_writes() {
    let mut store = SettingsStore::new();
    let before = store.read_all(vec![]);
    store.write("org.freedesktop.appearance", "contrast", SettingValue::U32(1)).unwrap();
    store.write("com.example.custom", "late", SettingValue::U32(1)).unwrap();
    assert_eq!(
        before.get("org.freedesktop.appearance").unwrap().get("contrast"),
        Some(&SettingValue::U32(0))
    );
    assert!(!before.contains_key("com.example.custom"));
    assert_eq!(before.len(), 3);
}

#[test]
fn snapshot_taken_apart() {
    let store = SettingsStore::new();
    let groups = store.read_all(vec!["org.gnome.desktop.privacy".to_string()]).into_groups();
    assert_eq!(groups.len(), 1);
    let group = groups.into_iter().next().unwrap();
    assert_eq!(group.namespace(), "org.gnome.desktop.privacy");
    let mut values = group.into_values();
    values.sort_by(|a, b| a.0.cmp(&b.0));
    assert_eq!(
        values,
        vec![
            ("recent-files-max-age".to_string(), SettingValue::I32(30)),
            ("remember-recent-files".to_string(), SettingValue::Bool(true)),
        ]
    );
}
