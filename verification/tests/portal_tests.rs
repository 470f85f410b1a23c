use portal_setting::text::str_eq;
use portal_setting::{PortalError, SettingKey, SettingValue, SettingsPortal, SettingsStore};

#[test]
fn portal_reads_a_seeded_setting() {
    let portal = SettingsPortal::new();
    match portal.read("org.gnome.desktop.interface", "clock-format") {
        Ok(value) => assert_eq!(value, SettingValue::Str("24h".to_string())),
        Err(error) => panic!("unexpected failure: {:?}", error),
    }
}

#[test]
fn portal_reports_a_missing_setting() {
    let portal = SettingsPortal::default();
    match portal.read("com.example.custom", "anything") {
        Ok(value) => panic!("unexpected value: {:?}", value),
        Err(PortalError::Failed(text)) => assert_eq!(text, "Setting not found"),
    }
}

#[test]
fn portal_over_a_given_store() {
    let mut store = SettingsStore::new();
    store.write("com.example.custom", "anything", SettingValue::I32(-3)).unwrap();
    let portal = SettingsPortal::with_store(store);
    assert_eq!(portal.read("com.example.custom", "anything").unwrap(), SettingValue::I32(-3));
    assert_eq!(
        portal.store().read("com.example.custom", "anything"),
        Some(SettingValue::I32(-3))
    );
    let all = portal.read_all(vec![]);
    assert_eq!(all.len(), 4);
    let some = portal.read_all(vec!["org.freedesktop.appearance".to_string()]);
    assert_eq!(some.len(), 1);
    assert_eq!(some.get("org.freedesktop.appearance").unwrap().len(), 3);
}

#[test]
fn setting_key_holds_its_two_names() {
    let key = SettingKey::new("org.freedesktop.appearance", "color-scheme");
    assert_eq!(key.namespace, "org.freedesktop.appearance");
    assert_eq!(key.key, "color-scheme");
    assert!(key.names("org.freedesktop.appearance", "color-scheme"));
    assert!(!key.names("org.freedesktop.appearance", "contrast"));
    assert!(!key.names("color-scheme", "org.freedesktop.appearance"));
    let copy = key.clone();
    assert_eq!(copy, key);
    assert_ne!(key, SettingKey::new("org.freedesktop.appearance", "contrast"));
}

#[test]
fn texts_are_compared_by_content() {
    assert!(str_eq("", ""));
    assert!(str_eq("gtk-theme", "gtk-theme"));
    assert!(!str_eq("gtk-theme", "gtk-themes"));
    assert!(!str_eq("gtk-theme", "gtk-themE"));
    assert!(!str_eq("a", ""));
    assert!(str_eq("h\u{e9}llo \u{1f600}", "h\u{e9}llo \u{1f600}"));
    assert!(!str_eq("h\u{e9}llo", "hello"));
}

#[test]
fn values_are_equal_by_shape_and_content() {
    assert_eq!(SettingValue::U32(1), SettingValue::U32(1));
    assert_ne!(SettingValue::U32(1), SettingValue::U32(2));
    assert_ne!(SettingValue::U32(1), SettingValue::I32(1));
    assert_ne!(SettingValue::Bool(true), SettingValue::Bool(false));
    assert_eq!(SettingValue::Str("a".to_string()), SettingValue::Str("a".to_string()));
    assert_ne!(SettingValue::Str("a".to_string()), SettingValue::Str("b".to_string()));
    assert_eq!(SettingValue::F64Triple(1, 2, 3), SettingValue::F64Triple(1, 2, 3));
    assert_ne!(SettingValue::F64Triple(1, 2, 3), SettingValue::F64Triple(1, 2, 4));
    let raw = SettingValue::Other { signature: "ay".to_string(), bytes: vec![1, 2] };
    assert_eq!(raw.clone(), raw);
    assert_ne!(raw, SettingValue::Other { signature: "ay".to_string(), bytes: vec![1, 3] });
    assert_ne!(raw, SettingValue::Other { signature: "ay".to_string(), bytes: vec![1] });
    assert_ne!(raw, SettingValue::Other { signature: "an".to_string(), bytes: vec![1, 2] });
}

#[test]
fn portal_shows_what_is_written_to_its_store() {
    let mut portal = SettingsPortal::new();
    assert!(portal
        .store_mut()
        .write("org.freedesktop.appearance", "contrast", SettingValue::U32(1))
        .is_ok());
    assert!(portal
        .store_mut()
        .write("org.freedesktop.appearance", "contrast", SettingValue::U32(2))
        .is_err());
    assert_eq!(
        portal.read("org.freedesktop.appearance", "contrast").unwrap(),
        SettingValue::U32(1)
    );
    let all = portal.read_all(vec!["org.freedesktop.appearance".to_string()]);
    assert_eq!(
        all.get("org.freedesktop.appearance").unwrap().get("contrast"),
        Some(&SettingValue::U32(1))
    );
}
