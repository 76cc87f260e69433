use yobatis::mapper::YoSql;
use yobatis::table::Table;

fn sql(id: &str, text: &str) -> YoSql {
    YoSql { id: id.to_string(), text: text.to_string() }
}

#[test]
fn new_table_is_empty() {
    let table: Table<YoSql> = Table::new();
    assert_eq!(table.len(), 0);
    assert!(table.get("a").is_none());
    assert!(!table.contains_key("a"));
}

#[test]
fn entries_keep_the_order_of_insertion() {
    let mut table = Table::new();
    table.insert("b".to_string(), sql("b", "2"));
    table.insert("a".to_string(), sql("a", "1"));
    table.insert("c".to_string(), sql("c", "3"));
    assert_eq!(table.len(), 3);
    assert_eq!(table.key(0), "b");
    assert_eq!(table.key(1), "a");
    assert_eq!(table.key(2), "c");
    assert_eq!(table.value(1).text, "1");
    assert_eq!(table.get("c").unwrap().text, "3");
    assert!(table.contains_key("a"));
    assert!(!table.contains_key("d"));
    assert!(!table.contains_key("A"));
}

#[test]
fn inserting_a_taken_name_replaces_the_value_in_place() {
    let mut table = Table::new();
    table.insert("a".to_string(), sql("a", "1"));
    table.insert("b".to_string(), sql("b", "2"));
    table.insert("a".to_string(), sql("a", "3"));
    assert_eq!(table.len(), 2);
    assert_eq!(table.key(0), "a");
    assert_eq!(table.value(0).text, "3");
    assert_eq!(table.get("a").unwrap().text, "3");
    assert_eq!(table.get("b").unwrap().text, "2");
}

#[test]
fn empty_name_is_a_name() {
    let mut table = Table::new();
    table.insert(String::new(), sql("", "x"));
    assert_eq!(table.len(), 1);
    assert_eq!(table.get("").unwrap().text, "x");
}
