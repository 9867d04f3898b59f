use macos_trackpad_companion::toml_doc::{
    get_value, read_document, remove_value, set_value, DocumentError, TomlEntry, TomlValue,
};

fn path(keys: &[&str]) -> Vec<String> {
    keys.iter().map(|k| k.to_string()).collect()
}

fn table(entries: Vec<(&str, TomlValue)>) -> TomlValue {
    TomlValue::Table(entries.into_iter().map(|(k, v)| TomlEntry { key: k.to_string(), value: v }).collect())
}

#[test]
fn sets_dotted_paths() {
    let mut root = TomlValue::Table(Vec::new());
    set_value(&mut root, &path(&["cursor", "sensitivity"]), TomlValue::Float(30.0f64.to_bits()));
    assert_eq!(
        get_value(&root, &path(&["cursor", "sensitivity"])),
        Some(&TomlValue::Float(30.0f64.to_bits()))
    );
}

#[test]
fn set_value_creates_nested_tables() {
    let mut root = TomlValue::Table(Vec::new());
    set_value(&mut root, &path(&["scroll", "modifier_zoom_mask"]), TomlValue::Integer(262_144));
    assert_eq!(
        get_value(&root, &path(&["scroll", "modifier_zoom_mask"])),
        Some(&TomlValue::Integer(262_144))
    );
    assert!(matches!(get_value(&root, &path(&["scroll"])), Some(TomlValue::Table(_))));
}

#[test]
fn remove_value_clears_nested_leaf() {
    let mut root = table(vec![(
        "scroll",
        table(vec![
            ("sensitivity", TomlValue::Float(20.0f64.to_bits())),
            ("modifier_zoom_mask", TomlValue::Integer(262_144)),
        ]),
    )]);
    remove_value(&mut root, &path(&["scroll", "modifier_zoom_mask"]));
    assert!(get_value(&root, &path(&["scroll", "modifier_zoom_mask"])).is_none());
    assert_eq!(
        get_value(&root, &path(&["scroll", "sensitivity"])),
        Some(&TomlValue::Float(20.0f64.to_bits()))
    );
}

#[test]
fn writing_keeps_other_settings_and_replaces_scalars_on_the_way() {
    let mut root = table(vec![
        ("log", table(vec![("level", TomlValue::String("info".to_string()))])),
        ("scroll", TomlValue::Boolean(true)),
    ]);
    set_value(&mut root, &path(&["scroll", "natural"]), TomlValue::Boolean(false));
    assert_eq!(get_value(&root, &path(&["scroll", "natural"])), Some(&TomlValue::Boolean(false)));
    assert_eq!(get_value(&root, &path(&["log", "level"])), Some(&TomlValue::String("info".to_string())));
    set_value(&mut root, &path(&["log", "level"]), TomlValue::String("debug".to_string()));
    assert_eq!(get_value(&root, &path(&["log", "level"])), Some(&TomlValue::String("debug".to_string())));
    // Removing a path that is not there changes nothing.
    remove_value(&mut root, &path(&["overlay", "enable"]));
    assert!(get_value(&root, &path(&["overlay"])).is_none());
    // The empty path names the root.
    assert_eq!(get_value(&root, &Vec::new()), Some(&root));
}

#[test]
fn documents_are_read_from_toml_text() {
    assert_eq!(read_document(None), Ok(TomlValue::Table(Vec::new())));
    let doc = read_document(Some("[net]\nport = 5000\ntoken = \"s3cret\"\n[cursor]\nsensitivity = 28.5\n")).unwrap();
    assert_eq!(get_value(&doc, &path(&["net", "port"])), Some(&TomlValue::Integer(5000)));
    assert_eq!(get_value(&doc, &path(&["net", "token"])), Some(&TomlValue::String("s3cret".to_string())));
    assert_eq!(get_value(&doc, &path(&["cursor", "sensitivity"])), Some(&TomlValue::Float(28.5f64.to_bits())));
    assert_eq!(read_document(Some("[net\nport = ")), Err(DocumentError::Unparsable));
}
