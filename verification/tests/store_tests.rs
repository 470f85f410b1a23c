use portal_setting::{SettingValue, SettingsStore};

#[test]
fn test_settings_store_creation() {
    let store = SettingsStore::new();
    let value = store.read("org.freedesktop.appearance", "color-scheme");
    assert!(value.is_some());
}

#[test]
fn test_read_write_setting() {
    let mut store = SettingsStore::new();

    store
        .write("org.freedesktop.appearance", "color-scheme", SettingValue::U32(1))
        .unwrap();

    let value = store.read("org.freedesktop.appearance", "color-scheme");
    assert!(value.is_some());
    let val: u32 = match value.unwrap() {
        SettingValue::U32(n) => n,
        other => panic!("not an unsigned value: {:?}", other),
    };
    assert_eq!(val, 1);
}

#[test]
fn test_validation() {
    let mut store = SettingsStore::new();

    assert!(store
        .write("org.freedesktop.appearance", "color-scheme", SettingValue::U32(1))
        .is_ok());

    assert!(store
        .write("org.freedesktop.appearance", "color-scheme", SettingValue::U32(5))
        .is_err());

    assert!(store
        .write(
            "org.freedesktop.appearance",
            "color-scheme",
            SettingValue::Str(String::from("invalid"))
        )
        .is_err());
}

#[test]
fn test_read_all_with_filter() {
    let store = SettingsStore::new();

    let result = store.read_all(vec!["org.freedesktop.appearance".to_string()]);
    assert!(result.contains_key("org.freedesktop.appearance"));
    assert!(!result.contains_key("org.gnome.desktop.interface"));
}

#[test]
fn test_read_all_no_filter() {
    let store = SettingsStore::new();

    let result = store.read_all(vec![]);
    assert!(result.contains_key("org.freedesktop.appearance"));
    assert!(result.contains_key("org.gnome.desktop.interface"));
    assert!(result.contains_key("org.gnome.desktop.privacy"));
}

#[test]
fn new_store_holds_every_default() {
    let store = SettingsStore::new();
    let zero = 0.0f64.to_bits();
    let expected = vec![
        ("org.freedesktop.appearance", "color-scheme", SettingValue::U32(0)),
        (
            "org.freedesktop.appearance",
            "accent-color",
            SettingValue::F64Triple(zero, zero, zero),
        ),
        ("org.freedesktop.appearance", "contrast", SettingValue::U32(0)),
        ("org.gnome.desktop.interface", "gtk-theme", SettingValue::Str("Adwaita".to_string())),
        ("org.gnome.desktop.interface", "icon-theme", SettingValue::Str("Adwaita".to_string())),
        ("org.gnome.desktop.interface", "cursor-theme", SettingValue::Str("Adwaita".to_string())),
        (
            "org.gnome.desktop.interface",
            "font-name",
            SettingValue::Str("Cantarell 11".to_string()),
        ),
        (
            "org.gnome.desktop.interface",
            "monospace-font-name",
            SettingValue::Str("Source Code Pro 10".to_string()),
        ),
        ("org.gnome.desktop.interface", "clock-format", SettingValue::Str("24h".to_string())),
        ("org.gnome.desktop.privacy", "remember-recent-files", SettingValue::Bool(true)),
        ("org.gnome.desktop.privacy", "recent-files-max-age", SettingValue::I32(30)),
    ];
    assert_eq!(expected.len(), 11);
    for (namespace, key, value) in expected {
        assert_eq!(store.read(namespace, key), Some(value), "{}.{}", namespace, key);
    }
}

#[test]
fn default_store_is_the_new_store() {
    let store = SettingsStore::default();
    assert_eq!(
        store.read("org.gnome.desktop.privacy", "recent-files-max-age"),
        Some(SettingValue::I32(30))
    );
    assert_eq!(store.read_all(vec![]).len(), 3);
}

#[test]
fn unknown_setting_is_absent_until_written() {
    let store = SettingsStore::new();
    assert_eq!(store.read("com.example.custom", "anything"), None);
    assert_eq!(store.read("org.freedesktop.appearance", "no-such-key"), None);
    assert_eq!(store.read("", ""), None);
    assert_eq!(store.read("color-scheme", "org.freedesktop.appearance"), None);
}

#[test]
fn color_scheme_write_then_read_over_its_range() {
    for v in 0u32..=2 {
        let mut store = SettingsStore::new();
        assert!(store
            .write("org.freedesktop.appearance", "color-scheme", SettingValue::U32(v))
            .is_ok());
        assert_eq!(
            store.read("org.freedesktop.appearance", "color-scheme"),
            Some(SettingValue::U32(v))
        );
    }
}

#[test]
fn contrast_write_then_read_over_its_range() {
    for v in 0u32..=1 {
        let mut store = SettingsStore::new();
        assert!(store
            .write("org.freedesktop.appearance", "contrast", SettingValue::U32(v))
            .is_ok());
        assert_eq!(
            store.read("org.freedesktop.appearance", "contrast"),
            Some(SettingValue::U32(v))
        );
    }
}

#[test]
fn range_limits_are_exact() {
    let mut store = SettingsStore::new();
    assert!(store
        .write("org.freedesktop.appearance", "color-scheme", SettingValue::U32(3))
        .is_err());
    assert!(store
        .write("org.freedesktop.appearance", "color-scheme", SettingValue::U32(u32::MAX))
        .is_err());
    assert!(store
        .write("org.freedesktop.appearance", "contrast", SettingValue::U32(2))
        .is_err());
    assert!(store
        .write("org.freedesktop.appearance", "contrast", SettingValue::U32(1))
        .is_ok());
}

#[test]
fn rejected_write_out_of_range_leaves_the_value() {
    let mut store = SettingsStore::new();
    store
        .write("org.freedesktop.appearance", "color-scheme", SettingValue::U32(2))
        .unwrap();
    let before = store.read("org.freedesktop.appearance", "color-scheme");
    let outcome = store.write("org.freedesktop.appearance", "color-scheme", SettingValue::U32(5));
    assert!(outcome.is_err());
    assert_eq!(store.read("org.freedesktop.appearance", "color-scheme"), before);
    assert_eq!(
        store.read("org.freedesktop.appearance", "color-scheme"),
        Some(SettingValue::U32(2))
    );
}

#[test]
fn rejected_write_of_wrong_type_leaves_the_value() {
    let mut store = SettingsStore::new();
    let outcome = store.write(
        "org.freedesktop.appearance",
        "color-scheme",
        SettingValue::Str("dark".to_string()),
    );
    assert!(outcome.is_err());
    assert_eq!(
        store.read("org.freedesktop.appearance", "color-scheme"),
        Some(SettingValue::U32(0))
    );
}

#[test]
fn store_is_usable_after_a_rejected_write() {
    let mut store = SettingsStore::new();
    assert!(store
        .write("org.gnome.desktop.privacy", "remember-recent-files", SettingValue::U32(1))
        .is_err());
    assert!(store
        .write("org.gnome.desktop.privacy", "remember-recent-files", SettingValue::Bool(false))
        .is_ok());
    assert_eq!(
        store.read("org.gnome.desktop.privacy", "remember-recent-files"),
        Some(SettingValue::Bool(false))
    );
}

#[test]
fn unknown_setting_takes_every_shape() {
    let values = vec![
        SettingValue::U32(7),
        SettingValue::I32(-7),
        SettingValue::Bool(false),
        SettingValue::Str("anything at all".to_string()),
        SettingValue::F64Triple(1.5f64.to_bits(), (-2.25f64).to_bits(), f64::NAN.to_bits()),
        SettingValue::Other { signature: "as".to_string(), bytes: vec![0, 1, 2, 255] },
        SettingValue::Other { signature: String::new(), bytes: vec![] },
    ];
    for value in values {
        let mut store = SettingsStore::new();
        assert!(store.write("com.example.custom", "anything", value.clone()).is_ok());
        assert_eq!(store.read("com.example.custom", "anything"), Some(value));
    }
}

#[test]
fn unknown_key_in_a_known_namespace_is_open() {
    let mut store = SettingsStore::new();
    assert!(store
        .write("org.freedesktop.appearance", "color-scheme-2", SettingValue::U32(99))
        .is_ok());
    assert_eq!(
        store.read("org.freedesktop.appearance", "color-scheme-2"),
        Some(SettingValue::U32(99))
    );
    assert_eq!(
        store.read("org.freedesktop.appearance", "color-scheme"),
        Some(SettingValue::U32(0))
    );
}

#[test]
fn known_key_in_another_namespace_is_open() {
    let mut store = SettingsStore::new();
    assert!(store
        .write("org.gnome.desktop.interface", "color-scheme", SettingValue::U32(99))
        .is_ok());
    assert!(store
        .write("org.gnome.desktop.privacy", "gtk-theme", SettingValue::Bool(true))
        .is_ok());
}

#[test]
fn last_write_to_a_setting_wins() {
    let mut store = SettingsStore::new();
    store.write("com.example.custom", "k", SettingValue::U32(1)).unwrap();
    store.write("com.example.custom", "k", SettingValue::Str("two".to_string())).unwrap();
    assert_eq!(
        store.read("com.example.custom", "k"),
        Some(SettingValue::Str("two".to_string()))
    );
    let all = store.read_all(vec!["com.example.custom".to_string()]);
    assert_eq!(all.get("com.example.custom").unwrap().len(), 1);
}

#[test]
fn writes_to_distinct_settings_do_not_mix() {
    let mut store = SettingsStore::new();
    let n = 40u32;
    for i in 0..n {
        let key = format!("key-{}", i);
        store.write("com.example.many", &key, SettingValue::U32(i * 3 + 1)).unwrap();
    }
    for i in (0..n).rev() {
        let key = format!("key-{}", i);
        assert_eq!(store.read("com.example.many", &key), Some(SettingValue::U32(i * 3 + 1)));
    }
    assert_eq!(
        store.read("org.freedesktop.appearance", "contrast"),
        Some(SettingValue::U32(0))
    );
    let all = store.read_all(vec![]);
    assert_eq!(all.len(), 4);
    assert_eq!(all.get("com.example.many").unwrap().len(), 40);
}

#[test]
fn writes_to_distinct_settings_in_either_order() {
    let mut first = SettingsStore::new();
    first.write("a", "x", SettingValue::I32(1)).unwrap();
    first.write("b", "y", SettingValue::I32(2)).unwrap();
    let mut second = SettingsStore::new();
    second.write("b", "y", SettingValue::I32(2)).unwrap();
    second.write("a", "x", SettingValue::I32(1)).unwrap();
    for (namespace, key) in [("a", "x"), ("b", "y"), ("a", "y"), ("b", "x")] {
        assert_eq!(first.read(namespace, key), second.read(namespace, key));
    }
    assert_eq!(first.read("a", "x"), Some(SettingValue::I32(1)));
    assert_eq!(first.read("b", "y"), Some(SettingValue::I32(2)));
    assert_eq!(first.read("a", "y"), None);
}

#[test]
fn reads_return_independent_copies() {
    let mut store = SettingsStore::new();
    store
        .write("com.example.custom", "bytes", SettingValue::Other {
            signature: "ay".to_string(),
            bytes: vec![1, 2, 3],
        })
        .unwrap();
    let mut one = store.read("org.gnome.desktop.interface", "gtk-theme").unwrap();
    let two = store.read("org.gnome.desktop.interface", "gtk-theme").unwrap();
    if let SettingValue::Str(text) = &mut one {
        text.push_str(" changed");
    }
    assert_eq!(one, SettingValue::Str("Adwaita changed".to_string()));
    assert_eq!(two, SettingValue::Str("Adwaita".to_string()));
    assert_eq!(
        store.read("org.gnome.desktop.interface", "gtk-theme"),
        Some(SettingValue::Str("Adwaita".to_string()))
    );

    let mut raw = store.read("com.example.custom", "bytes").unwrap();
    if let SettingValue::Other { signature, bytes } = &mut raw {
        signature.push('y');
        bytes.push(4);
    }
    assert_eq!(
        store.read("com.example.custom", "bytes"),
        Some(SettingValue::Other { signature: "ay".to_string(), bytes: vec![1, 2, 3] })
    );
}

#[test]
fn written_value_is_owned_by_the_store() {
    let mut store = SettingsStore::new();
    let mut mine = SettingValue::Str("first".to_string());
    store.write("org.gnome.desktop.interface", "font-name", mine.clone()).unwrap();
    if let SettingValue::Str(text) = &mut mine {
        text.clear();
    }
    assert_eq!(
        store.read("org.gnome.desktop.interface", "font-name"),
        Some(SettingValue::Str("first".to_string()))
    );
}
