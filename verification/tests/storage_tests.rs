use std::collections::HashMap;
use jas::storage::DbStorage;

#[test]
fn load_pattern_appends_wildcard() {
    assert_eq!(DbStorage::load_pattern("account-1"), "account-1%");
}

#[test]
fn scoped_key_joins_prefix_and_key() {
    let s = DbStorage::load("acct", vec![]);
    assert_eq!(s.scoped_key("token"), "acct/token");
}

#[test]
fn retrieve_after_store() {
    let mut s = DbStorage::load("acct", vec![]);
    let w = s.store("token", "abc");
    assert_eq!(w.key, "acct/token");
    assert_eq!(w.value.as_deref(), Some("abc"));
    assert_eq!(s.retrieve("token").as_deref(), Some("abc"));
    s.store("token", "def");
    assert_eq!(s.retrieve("token").as_deref(), Some("def"));
}

#[test]
fn retrieve_after_delete() {
    let mut s = DbStorage::load("acct", vec![("acct/token".to_string(), "abc".to_string())]);
    assert_eq!(s.retrieve("token").as_deref(), Some("abc"));
    let w = s.delete("token");
    assert_eq!(w.key, "acct/token");
    assert_eq!(w.value, None);
    assert_eq!(s.retrieve("token"), None);
}

#[test]
fn other_keys_are_untouched() {
    let mut s = DbStorage::load("acct", vec![]);
    s.store("a", "1");
    s.store("b", "2");
    s.delete("a");
    assert_eq!(s.retrieve("a"), None);
    assert_eq!(s.retrieve("b").as_deref(), Some("2"));
}

#[test]
fn load_keeps_last_row_per_key_and_scopes_reads() {
    let rows = vec![
        ("acct/x".to_string(), "old".to_string()),
        ("acct/y".to_string(), "y".to_string()),
        ("acct/x".to_string(), "new".to_string()),
        ("other/z".to_string(), "z".to_string()),
    ];
    let s = DbStorage::load("acct", rows);
    assert_eq!(s.retrieve("x").as_deref(), Some("new"));
    assert_eq!(s.retrieve("y").as_deref(), Some("y"));
    assert_eq!(s.retrieve("z"), None);
    assert_eq!(s.retrieve("missing"), None);
}

#[test]
fn cache_and_table_agree_over_a_run() {
    let mut table: HashMap<String, String> = HashMap::new();
    table.insert("acct/a".into(), "1".into());
    table.insert("other/a".into(), "x".into());
    let rows: Vec<(String, String)> = vec![("acct/a".into(), "1".into())];
    let mut s = DbStorage::load("acct", rows);
    let apply = |table: &mut HashMap<String, String>, w: jas::storage::WriteThrough| match w.value {
        Some(v) => {
            table.insert(w.key, v);
        }
        None => {
            table.remove(&w.key);
        }
    };
    apply(&mut table, s.store("b", "2"));
    apply(&mut table, s.delete("a"));
    apply(&mut table, s.store("b", "3"));
    apply(&mut table, s.store("c", "4"));
    apply(&mut table, s.delete("c"));
    for k in ["a", "b", "c", "d"] {
        assert_eq!(s.retrieve(k), table.get(&format!("acct/{k}")).cloned());
    }
    assert_eq!(s.retrieve("b").as_deref(), Some("3"));
    assert_eq!(table.get("other/a").map(String::as_str), Some("x"));
}
