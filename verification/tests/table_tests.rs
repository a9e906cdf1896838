use live_mix::script::ParsedSetting;
use live_mix::table::Table;

fn int_of(s: Option<&ParsedSetting>) -> Option<i64> {
    match s {
        Some(ParsedSetting::Int(i)) => Some(*i),
        _ => None,
    }
}

#[test]
fn a_new_table_is_empty() {
    let t: Table<ParsedSetting> = Table::new();
    assert_eq!(t.len(), 0);
    assert!(!t.contains_key("x"));
    assert!(t.get("x").is_none());
    assert_eq!(t.find("x"), 0);
}

#[test]
fn insert_adds_names_in_order() {
    let mut t: Table<ParsedSetting> = Table::new();
    t.insert("x".to_string(), ParsedSetting::Int(1));
    t.insert("y".to_string(), ParsedSetting::Int(2));
    assert_eq!(t.len(), 2);
    assert_eq!(t.key_at(0), "x");
    assert_eq!(t.key_at(1), "y");
    assert_eq!(int_of(t.get("y")), Some(2));
    assert_eq!(int_of(Some(t.value_at(0))), Some(1));
    assert_eq!(t.find("y"), 1);
    assert_eq!(t.find("z"), 2);
}

#[test]
fn insert_replaces_in_place() {
    let mut t: Table<ParsedSetting> = Table::new();
    t.insert("x".to_string(), ParsedSetting::Int(1));
    t.insert("y".to_string(), ParsedSetting::Int(2));
    t.insert("x".to_string(), ParsedSetting::Int(3));
    assert_eq!(t.len(), 2);
    assert_eq!(t.key_at(0), "x");
    assert_eq!(int_of(t.get("x")), Some(3));
    assert_eq!(int_of(t.get("y")), Some(2));
    assert!(t.contains_key("x"));
}
