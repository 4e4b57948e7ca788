//! The query compiler: pure functions from an operation descriptor to
//! statement text and ordered bound values. It never executes anything.
//!
//! Predicate and column iteration order is insertion order, and bound values
//! follow the same order. A zero select limit means "unbounded" and is left
//! off the statement; an empty predicate map drops the WHERE clause; an empty
//! column list selects `*`.

use vstd::prelude::*;

use indexmap::IndexMap;

use crate::decimal::{spec_udec, u64_to_dec};
use crate::descriptors::{
    entries, entry_keys, entry_values, index_entries, DeleteData, InsertData, SelectData,
    UpdateData,
};
use crate::value::Value;

verus! {

broadcast use vstd::std_specs::vec::group_vec_axioms, vstd::seq::group_seq_axioms;

/// A compiled statement: its text, its bound values in order, and the column
/// names it touches in order.
pub struct Query {
    pub query: String,
    pub values: Vec<Value>,
    pub map: Vec<String>,
}

/// Parts joined left to right with a separator between neighbours.
pub open spec fn joined(parts: Seq<Seq<char>>, sep: Seq<char>) -> Seq<char>
    decreases parts,
{
    if parts.len() == 0 {
        Seq::empty()
    } else if parts.len() == 1 {
        parts[0]
    } else {
        joined(parts.drop_last(), sep) + sep + parts.last()
    }
}

/// Joins strings with a separator.
#[verifier::loop_isolation(false)]
fn join_strings(parts: &Vec<String>, sep: &str) -> (r: String)
    ensures
        r@ == joined(parts@.map_values(|p: String| p@), sep@),
{
    let mut out = String::new();
    let mut i: usize = 0;
    while i < parts.len()
        invariant
            0 <= i <= parts@.len(),
            out@ == joined(parts@.map_values(|p: String| p@).take(i as int), sep@),
        decreases parts@.len() - i,
    {
        if i > 0 {
            out.append(sep);
        }
        out.append(parts[i].as_str());
        proof {
            let mapped = parts@.map_values(|p: String| p@);
            let taken = mapped.take(i + 1);
            assert(taken.drop_last() =~= mapped.take(i as int));
            assert(taken.last() == mapped[i as int]);
            assert(out@ =~= joined(taken, sep@));
        }
        i = i + 1;
    }
    proof {
        let mapped = parts@.map_values(|p: String| p@);
        assert(mapped.take(mapped.len() as int) =~= mapped);
    }
    out
}

/// The text of a select statement: the columns (or `*` when none are named),
/// the table, an equality predicate per key joined with AND (dropped when the
/// predicate map is empty), and a LIMIT only when the limit is positive.
pub open spec fn spec_select(
    ks: Seq<char>,
    tbl: Seq<char>,
    cols: Seq<Seq<char>>,
    where_keys: Seq<Seq<char>>,
    limit: u32,
) -> Seq<char> {
    "SELECT "@ + (if cols.len() == 0 {
        "*"@
    } else {
        Seq::<char>::empty()
    }) + joined(cols, ", "@) + " FROM "@ + ks + "."@ + tbl + (if where_keys.len() > 0 {
        " WHERE "@
    } else {
        Seq::<char>::empty()
    }) + joined(where_keys.map_values(|k: Seq<char>| k + " = ?"@), " AND "@) + (if limit > 0 {
        " LIMIT "@ + spec_udec(limit as nat)
    } else {
        Seq::<char>::empty()
    })
}

/// Compiles a select descriptor. The bound values are the predicate values in
/// insertion order; the column map is the named column list.
#[verifier::loop_isolation(false)]
pub fn select_query(keyspace: &String, table: &String, data: &SelectData) -> (q: Query)
    ensures
        q.query@ == spec_select(
            keyspace@,
            table@,
            data.columns@.map_values(|c: String| c@),
            entry_keys(index_entries(data.where_clause)).map_values(|k: String| k@),
            data.limit,
        ),
        q.values@ == entry_values(index_entries(data.where_clause)),
        q.map@ == data.columns@,
{
    let mut query = "SELECT ".to_owned();

    let mut columns: Vec<String> = Vec::new();
    let mut i: usize = 0;
    while i < data.columns.len()
        invariant
            0 <= i <= data.columns@.len(),
            columns@ == data.columns@.take(i as int),
        decreases data.columns@.len() - i,
    {
        columns.push(data.columns[i].clone());
        proof {
            assert(columns@ =~= data.columns@.take(i + 1));
        }
        i = i + 1;
    }
    proof {
        assert(data.columns@.take(data.columns@.len() as int) =~= data.columns@);
    }

    if columns.len() == 0 {
        query.append("*");
    }
    let joined_cols = join_strings(&columns, ", ");
    query.append(joined_cols.as_str());
    query.append(" FROM ");
    query.append(keyspace.as_str());
    query.append(".");
    query.append(table.as_str());

    let mut rest = entries(&data.where_clause);
    let ghost all = rest@;
    if rest.len() > 0 {
        query.append(" WHERE ");
    }
    let mut where_parts: Vec<String> = Vec::new();
    let mut values: Vec<Value> = Vec::new();
    while rest.len() > 0
        invariant
            values@.len() == where_parts@.len(),
            values@.len() + rest@.len() == all.len(),
            rest@ == all.subrange(values@.len() as int, all.len() as int),
            forall|j: int| 0 <= j < values@.len() ==> #[trigger] values@[j] == all[j].1,
            forall|j: int|
                0 <= j < where_parts@.len() ==> (#[trigger] where_parts@[j])@ == all[j].0@
                    + " = ?"@,
        decreases rest@.len(),
    {
        let ghost done = values@.len() as int;
        let (k, v) = rest.remove(0);
        proof {
            assert(k == all[done].0);
            assert(v == all[done].1);
            assert(rest@ =~= all.subrange(done + 1, all.len() as int));
        }
        let mut part = k;
        part.append(" = ?");
        where_parts.push(part);
        values.push(v);
    }
    query.append(join_strings(&where_parts, " AND ").as_str());

    if data.limit > 0 {
        query.append(" LIMIT ");
        query.append(u64_to_dec(data.limit as u64).as_str());
    }

    proof {
        assert(values@ =~= entry_values(all));
        assert(where_parts@.map_values(|p: String| p@) =~= entry_keys(all).map_values(
            |k: String| k@,
        ).map_values(|k: Seq<char>| k + " = ?"@));
        assert(query@ =~= spec_select(
            keyspace@,
            table@,
            data.columns@.map_values(|c: String| c@),
            entry_keys(all).map_values(|k: String| k@),
            data.limit,
        ));
    }

    Query { query, values, map: columns }
}

/// The keys of an insertion-ordered map, in order; a map holds each key
/// once, so they are pairwise distinct.
#[verifier::loop_isolation(false)]
pub fn map_to_keys(data: &IndexMap<String, Value>) -> (r: Vec<String>)
    ensures
        r@ == entry_keys(index_entries(*data)),
        forall|i: int, j: int|
            0 <= i < j < r@.len() ==> (#[trigger] r@[i])@ != (#[trigger] r@[j])@,
{
    let mut rest = entries(data);
    let ghost all = rest@;
    let mut out: Vec<String> = Vec::new();
    while rest.len() > 0
        invariant
            out@.len() + rest@.len() == all.len(),
            rest@ == all.subrange(out@.len() as int, all.len() as int),
            forall|j: int| 0 <= j < out@.len() ==> #[trigger] out@[j] == all[j].0,
        decreases rest@.len(),
    {
        let ghost done = out@.len() as int;
        let (k, _v) = rest.remove(0);
        proof {
            assert(k == all[done].0);
            assert(rest@ =~= all.subrange(done + 1, all.len() as int));
        }
        out.push(k);
    }
    proof {
        assert(out@ =~= entry_keys(all));
        assert forall|i: int, j: int|
            0 <= i < j < out@.len() implies (#[trigger] out@[i])@ != (#[trigger] out@[j])@ by {
            assert(all[i].0@ != all[j].0@);
        }
    }
    out
}

/// The values of an insertion-ordered map, in order.
#[verifier::loop_isolation(false)]
pub fn map_to_values(data: &IndexMap<String, Value>) -> (r: Vec<Value>)
    ensures
        r@ == entry_values(index_entries(*data)),
{
    let mut rest = entries(data);
    let ghost all = rest@;
    let mut out: Vec<Value> = Vec::new();
    while rest.len() > 0
        invariant
            out@.len() + rest@.len() == all.len(),
            rest@ == all.subrange(out@.len() as int, all.len() as int),
            forall|j: int| 0 <= j < out@.len() ==> #[trigger] out@[j] == all[j].1,
        decreases rest@.len(),
    {
        let ghost done = out@.len() as int;
        let (_k, v) = rest.remove(0);
        proof {
            assert(v == all[done].1);
            assert(rest@ =~= all.subrange(done + 1, all.len() as int));
        }
        out.push(v);
    }
    proof {
        assert(out@ =~= entry_values(all));
    }
    out
}

/// The equality-predicate fragments of an entry sequence, one "key = ?" per
/// entry, beside the entries' values.
pub open spec fn predicate_fragments(s: Seq<(String, Value)>) -> Seq<Seq<char>> {
    entry_keys(s).map_values(|k: String| k@).map_values(|k: Seq<char>| k + " = ?"@)
}

/// Builds one "key = ?" fragment per entry, handing back the values beside
/// them in the same order.
#[verifier::loop_isolation(false)]
fn split_predicates(rest: Vec<(String, Value)>) -> (r: (Vec<String>, Vec<Value>))
    ensures
        r.0@.map_values(|p: String| p@) == predicate_fragments(rest@),
        r.1@ == entry_values(rest@),
{
    let ghost all = rest@;
    let mut rest = rest;
    let mut parts: Vec<String> = Vec::new();
    let mut values: Vec<Value> = Vec::new();
    while rest.len() > 0
        invariant
            values@.len() == parts@.len(),
            values@.len() + rest@.len() == all.len(),
            rest@ == all.subrange(values@.len() as int, all.len() as int),
            forall|j: int| 0 <= j < values@.len() ==> #[trigger] values@[j] == all[j].1,
            forall|j: int|
                0 <= j < parts@.len() ==> (#[trigger] parts@[j])@ == all[j].0@ + " = ?"@,
        decreases rest@.len(),
    {
        let ghost done = values@.len() as int;
        let (k, v) = rest.remove(0);
        proof {
            assert(k == all[done].0);
            assert(v == all[done].1);
            assert(rest@ =~= all.subrange(done + 1, all.len() as int));
        }
        let mut part = k;
        part.append(" = ?");
        parts.push(part);
        values.push(v);
    }
    proof {
        assert(values@ =~= entry_values(all));
        assert(parts@.map_values(|p: String| p@) =~= predicate_fragments(all));
    }
    (parts, values)
}

/// `n` bound-value placeholders.
pub open spec fn placeholders(n: nat) -> Seq<Seq<char>> {
    Seq::new(n, |i: int| "?"@)
}

/// The text of an insert statement: the existence guard when asked for, the
/// table, the columns in insertion order, and one placeholder per column.
pub open spec fn spec_insert(
    ks: Seq<char>,
    tbl: Seq<char>,
    cols: Seq<Seq<char>>,
    if_not_exists: bool,
) -> Seq<char> {
    (if if_not_exists {
        "INSERT INTO IF NOT EXISTS "@
    } else {
        "INSERT INTO "@
    }) + ks + "."@ + tbl + " ("@ + joined(cols, ", "@) + ") VALUES ("@ + joined(
        placeholders(cols.len()),
        ", "@,
    ) + ")"@
}

/// Compiles an insert descriptor. The bound values are the column values in
/// insertion order; the column map is the key list in the same order. The
/// guard appears only when `if_not_exists` is set and true.
#[verifier::loop_isolation(false)]
pub fn insert_query(keyspace: &String, table: &String, data: &InsertData) -> (q: Query)
    ensures
        q.query@ == spec_insert(
            keyspace@,
            table@,
            entry_keys(index_entries(data.columns)).map_values(|k: String| k@),
            data.if_not_exists == Some(true),
        ),
        q.values@ == entry_values(index_entries(data.columns)),
        q.map@ == entry_keys(index_entries(data.columns)),
{
    let guarded = match data.if_not_exists {
        Some(b) => b,
        None => false,
    };
    let mut query = if guarded {
        "INSERT INTO IF NOT EXISTS ".to_owned()
    } else {
        "INSERT INTO ".to_owned()
    };

    let columns = map_to_keys(&data.columns);
    let values = map_to_values(&data.columns);

    query.append(keyspace.as_str());
    query.append(".");
    query.append(table.as_str());
    query.append(" (");
    query.append(join_strings(&columns, ", ").as_str());
    query.append(") VALUES (");

    let mut marks: Vec<String> = Vec::new();
    let mut i: usize = 0;
    while i < columns.len()
        invariant
            0 <= i <= columns@.len(),
            marks@.len() == i,
            forall|j: int| 0 <= j < i ==> (#[trigger] marks@[j])@ == "?"@,
        decreases columns@.len() - i,
    {
        marks.push("?".to_owned());
        i = i + 1;
    }
    query.append(join_strings(&marks, ", ").as_str());
    query.append(")");

    proof {
        assert(marks@.map_values(|p: String| p@) =~= placeholders(
            entry_keys(index_entries(data.columns)).map_values(|k: String| k@).len(),
        ));
        assert(query@ =~= spec_insert(
            keyspace@,
            table@,
            entry_keys(index_entries(data.columns)).map_values(|k: String| k@),
            data.if_not_exists == Some(true),
        ));
    }

    Query { query, values, map: columns }
}

/// The text of an update statement: the columns to set in insertion order,
/// then the primary-key predicate; each part dropped when its map is empty.
pub open spec fn spec_update(
    ks: Seq<char>,
    tbl: Seq<char>,
    set_keys: Seq<Seq<char>>,
    where_keys: Seq<Seq<char>>,
) -> Seq<char> {
    "UPDATE "@ + ks + "."@ + tbl + (if set_keys.len() > 0 {
        " SET "@
    } else {
        Seq::<char>::empty()
    }) + joined(set_keys.map_values(|k: Seq<char>| k + " = ?"@), ", "@) + (if where_keys.len()
        > 0 {
        " WHERE "@
    } else {
        Seq::<char>::empty()
    }) + joined(where_keys.map_values(|k: Seq<char>| k + " = ?"@), " AND "@)
}

/// Compiles an update descriptor. The bound values are the SET values in
/// insertion order, then the predicate values in insertion order.
#[verifier::loop_isolation(false)]
pub fn update_query(keyspace: &String, table: &String, data: &UpdateData) -> (q: Query)
    ensures
        q.query@ == spec_update(
            keyspace@,
            table@,
            entry_keys(index_entries(data.values)).map_values(|k: String| k@),
            entry_keys(index_entries(data.primary)).map_values(|k: String| k@),
        ),
        q.values@ == entry_values(index_entries(data.values)) + entry_values(
            index_entries(data.primary),
        ),
        q.map@ == entry_keys(index_entries(data.values)),
{
    let mut query = "UPDATE ".to_owned();
    query.append(keyspace.as_str());
    query.append(".");
    query.append(table.as_str());

    let columns = map_to_keys(&data.values);
    let set_entries = entries(&data.values);
    let has_set = set_entries.len() > 0;
    let (set_parts, mut values) = split_predicates(set_entries);
    if has_set {
        query.append(" SET ");
    }
    query.append(join_strings(&set_parts, ", ").as_str());

    let where_entries = entries(&data.primary);
    let has_where = where_entries.len() > 0;
    let (where_parts, mut where_values) = split_predicates(where_entries);
    if has_where {
        query.append(" WHERE ");
    }
    query.append(join_strings(&where_parts, " AND ").as_str());

    values.append(&mut where_values);

    proof {
        assert(query@ =~= spec_update(
            keyspace@,
            table@,
            entry_keys(index_entries(data.values)).map_values(|k: String| k@),
            entry_keys(index_entries(data.primary)).map_values(|k: String| k@),
        ));
    }

    Query { query, values, map: columns }
}

/// The text of a delete statement: the table and the equality predicate,
/// dropped when the predicate map is empty.
pub open spec fn spec_delete(ks: Seq<char>, tbl: Seq<char>, where_keys: Seq<Seq<char>>) -> Seq<
    char,
> {
    "DELETE FROM "@ + ks + "."@ + tbl + (if where_keys.len() > 0 {
        " WHERE "@
    } else {
        Seq::<char>::empty()
    }) + joined(where_keys.map_values(|k: Seq<char>| k + " = ?"@), " AND "@)
}

/// Compiles a delete descriptor. The bound values are the predicate values
/// in insertion order.
#[verifier::loop_isolation(false)]
pub fn delete_query(keyspace: &String, table: &String, data: &DeleteData) -> (q: Query)
    ensures
        q.query@ == spec_delete(
            keyspace@,
            table@,
            entry_keys(index_entries(data.where_clause)).map_values(|k: String| k@),
        ),
        q.values@ == entry_values(index_entries(data.where_clause)),
        q.map@ == Seq::<String>::empty(),
{
    let mut query = "DELETE FROM ".to_owned();
    query.append(keyspace.as_str());
    query.append(".");
    query.append(table.as_str());

    let where_entries = entries(&data.where_clause);
    let has_where = where_entries.len() > 0;
    let (where_parts, values) = split_predicates(where_entries);
    if has_where {
        query.append(" WHERE ");
    }
    query.append(join_strings(&where_parts, " AND ").as_str());

    proof {
        assert(query@ =~= spec_delete(
            keyspace@,
            table@,
            entry_keys(index_entries(data.where_clause)).map_values(|k: String| k@),
        ));
    }

    Query { query, values, map: Vec::new() }
}

/// The text of a raw statement: the client's text verbatim, suffixed with a
/// LIMIT only when the limit is positive.
pub open spec fn spec_raw(text: Seq<char>, limit: i32) -> Seq<char> {
    text + (if limit > 0 {
        " LIMIT "@ + spec_udec(limit as nat)
    } else {
        Seq::<char>::empty()
    })
}

/// Compiles a raw statement: the text passes through verbatim, never
/// interpolated; the caller binds its values separately.
pub fn raw_query(query: &String, limit: i32) -> (q: Query)
    ensures
        q.query@ == spec_raw(query@, limit),
        q.values@ == Seq::<Value>::empty(),
        q.map@ == Seq::<String>::empty(),
{
    let mut text = query.clone();
    if limit > 0 {
        text.append(" LIMIT ");
        text.append(u64_to_dec(limit as u64).as_str());
        proof {
            assert(text@ =~= spec_raw(query@, limit));
        }
    }
    Query { query: text, values: Vec::new(), map: Vec::new() }
}

} // verus!
