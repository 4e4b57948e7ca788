use cql_gateway::descriptors::{DeleteData, InsertData, RawData, SelectData, UpdateData};
use cql_gateway::queries::{delete_query, insert_query, map_to_keys, map_to_values, raw_query, select_query, update_query};
use cql_gateway::value::Value;
use indexmap::IndexMap;

#[test]
fn select_everything_when_descriptor_is_empty() {
    let data = SelectData { where_clause: IndexMap::new(), columns: Vec::new(), limit: 0 };
    let q = select_query(&"ks".to_string(), &"table".to_string(), &data);
    assert_eq!(q.query, "SELECT * FROM ks.table");
    assert_eq!(q.values.len(), 0);
    assert_eq!(q.map.len(), 0);
}

#[test]
fn select_with_predicate_columns_and_limit() {
    let mut where_clause = IndexMap::new();
    where_clause.insert("id".to_string(), Value::Str("5".to_string()));
    let data = SelectData { where_clause, columns: vec!["name".to_string()], limit: 10 };
    let q = select_query(&"ks".to_string(), &"table".to_string(), &data);
    assert_eq!(q.query, "SELECT name FROM ks.table WHERE id = ? LIMIT 10");
    assert_eq!(q.values, vec![Value::Str("5".to_string())]);
    assert_eq!(q.map, vec!["name".to_string()]);
}

#[test]
fn select_joins_predicates_in_insertion_order() {
    let mut where_clause = IndexMap::new();
    where_clause.insert("b".to_string(), Value::Num(2));
    where_clause.insert("a".to_string(), Value::Num(1));
    let data = SelectData {
        where_clause,
        columns: vec!["x".to_string(), "y".to_string()],
        limit: 0,
    };
    let q = select_query(&"ks".to_string(), &"t".to_string(), &data);
    assert_eq!(q.query, "SELECT x, y FROM ks.t WHERE b = ? AND a = ?");
    assert_eq!(q.values, vec![Value::Num(2), Value::Num(1)]);
}

#[test]
fn insert_with_guard_binds_in_insertion_order() {
    let mut columns = IndexMap::new();
    columns.insert("a".to_string(), Value::Num(1));
    columns.insert("b".to_string(), Value::Str("x".to_string()));
    let data = InsertData { columns, if_not_exists: Some(true) };
    let q = insert_query(&"ks".to_string(), &"table".to_string(), &data);
    assert_eq!(q.query, "INSERT INTO IF NOT EXISTS ks.table (a, b) VALUES (?, ?)");
    assert_eq!(q.values, vec![Value::Num(1), Value::Str("x".to_string())]);
    assert_eq!(q.map, vec!["a".to_string(), "b".to_string()]);
}

#[test]
fn insert_without_guard() {
    let mut columns = IndexMap::new();
    columns.insert("only".to_string(), Value::Bool(true));
    let data = InsertData { columns, if_not_exists: None };
    let q = insert_query(&"ks".to_string(), &"t".to_string(), &data);
    assert_eq!(q.query, "INSERT INTO ks.t (only) VALUES (?)");
    assert_eq!(q.values, vec![Value::Bool(true)]);
}

#[test]
fn insert_guard_false_is_no_guard() {
    let mut columns = IndexMap::new();
    columns.insert("c".to_string(), Value::Null);
    let data = InsertData { columns, if_not_exists: Some(false) };
    let q = insert_query(&"ks".to_string(), &"t".to_string(), &data);
    assert_eq!(q.query, "INSERT INTO ks.t (c) VALUES (?)");
}

#[test]
fn update_binds_set_values_before_predicate_values() {
    let mut primary = IndexMap::new();
    primary.insert("id".to_string(), Value::Str("7".to_string()));
    let mut values = IndexMap::new();
    values.insert("name".to_string(), Value::Str("n".to_string()));
    values.insert("flags".to_string(), Value::Num(3));
    let data = UpdateData { primary, values };
    let q = update_query(&"ks".to_string(), &"t".to_string(), &data);
    assert_eq!(q.query, "UPDATE ks.t SET name = ?, flags = ? WHERE id = ?");
    assert_eq!(
        q.values,
        vec![
            Value::Str("n".to_string()),
            Value::Num(3),
            Value::Str("7".to_string()),
        ]
    );
}

#[test]
fn delete_with_predicate() {
    let mut where_clause = IndexMap::new();
    where_clause.insert("id".to_string(), Value::Str("5".to_string()));
    where_clause.insert("bucket".to_string(), Value::Num(2));
    let data = DeleteData { where_clause };
    let q = delete_query(&"ks".to_string(), &"t".to_string(), &data);
    assert_eq!(q.query, "DELETE FROM ks.t WHERE id = ? AND bucket = ?");
    assert_eq!(q.values, vec![Value::Str("5".to_string()), Value::Num(2)]);
}

#[test]
fn delete_with_empty_predicate_has_no_where() {
    let data = DeleteData { where_clause: IndexMap::new() };
    let q = delete_query(&"ks".to_string(), &"t".to_string(), &data);
    assert_eq!(q.query, "DELETE FROM ks.t");
    assert_eq!(q.values.len(), 0);
}

#[test]
fn raw_passes_text_through_verbatim() {
    let q = raw_query(&"SELECT release_version FROM system.local".to_string(), 0);
    assert_eq!(q.query, "SELECT release_version FROM system.local");
    assert_eq!(q.values.len(), 0);
}

#[test]
fn raw_appends_positive_limit() {
    let q = raw_query(&"SELECT * FROM ks.t".to_string(), 25);
    assert_eq!(q.query, "SELECT * FROM ks.t LIMIT 25");
}

#[test]
fn raw_ignores_non_positive_limit() {
    let q = raw_query(&"SELECT * FROM ks.t".to_string(), -3);
    assert_eq!(q.query, "SELECT * FROM ks.t");
}

#[test]
fn map_to_keys_and_values_keep_insertion_order() {
    let mut m = IndexMap::new();
    m.insert("z".to_string(), Value::Num(1));
    m.insert("a".to_string(), Value::Num(2));
    m.insert("m".to_string(), Value::Num(3));
    assert_eq!(map_to_keys(&m), vec!["z".to_string(), "a".to_string(), "m".to_string()]);
    assert_eq!(
        map_to_values(&m),
        vec![Value::Num(1), Value::Num(2), Value::Num(3)]
    );
    // the same raw data also compiles the same statement twice
    let data = RawData { query: "q".to_string(), values: Vec::new(), limit: None };
    let q1 = raw_query(&data.query, 0);
    let q2 = raw_query(&data.query, 0);
    assert_eq!(q1.query, q2.query);
}
