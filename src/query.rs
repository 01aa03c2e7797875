//! Text of the queries the extraction issues, and the names of the files it
//! writes.
use vstd::prelude::*;
use vstd::string::StringExecFns;
use crate::metadata::{ColumnMetadata, TableMetadata};
use crate::plan::Partition;
use crate::text::{decimal, integer_text, lower_of, lowercase, push_decimal, signed_decimal};

verus! {

/// Catalog query for the primary-key index of a table (by upper-case name).
pub const KEY_INDEX_SQL: &'static str = "SELECT ri.rdb$index_name FROM rdb$indices ri \
     WHERE ri.rdb$relation_name = ? AND ri.rdb$index_type = 1";

/// Catalog query for the columns of an index, in key order.
pub const KEY_COLUMNS_SQL: &'static str = "SELECT seg.rdb$field_name FROM rdb$index_segments seg \
     WHERE seg.rdb$index_name = ? ORDER BY seg.rdb$field_position";

/// Catalog query for the declared type code of one field of a table.
pub const KEY_TYPE_SQL: &'static str = "SELECT rdb$field_type FROM rdb$relation_fields \
     WHERE rdb$relation_name = ? AND rdb$field_name = ?";

/// Catalog query for the fields of a table, in declared order.
pub const FIELD_NAMES_SQL: &'static str = "SELECT rdb$field_name FROM rdb$relation_fields \
     WHERE rdb$relation_name = ? ORDER BY rdb$field_position";

/// Catalog query for the type code and subtype of one field of a table.
pub const FIELD_TYPE_SQL: &'static str = "SELECT f.rdb$field_type, f.rdb$field_sub_type FROM rdb$fields f \
     INNER JOIN rdb$relation_fields rf ON f.rdb$field_name = rf.rdb$field_source \
     WHERE rf.rdb$relation_name = ? AND rf.rdb$field_name = ?";

/// Names of the first `k` columns, separated by `", "`.
pub open spec fn column_list(columns: Seq<ColumnMetadata>, k: int) -> Seq<char>
    decreases k,
{
    if k <= 0 {
        Seq::empty()
    } else if k == 1 {
        columns[0].name@
    } else {
        column_list(columns, k - 1) + ", "@ + columns[k - 1].name@
    }
}

/// The select list naming every column, in order.
pub fn select_list(columns: &Vec<ColumnMetadata>) -> (r: String)
    ensures
        r@ == column_list(columns@, columns@.len() as int),
{
    let mut s = String::new();
    let mut i: usize = 0;
    while i < columns.len()
        invariant
            i <= columns@.len(),
            s@ == column_list(columns@, i as int),
        decreases columns@.len() - i,
    {
        if i > 0 {
            s.append(", ");
        }
        s.append(columns[i].name.as_str());
        i += 1;
    }
    s
}

pub open spec fn select_all(meta: TableMetadata) -> Seq<char> {
    "SELECT "@ + column_list(meta.columns@, meta.columns@.len() as int) + " FROM "@ + meta.table_name@
}

/// Query of one partition: every column of the rows whose leading key lies
/// in the partition, in no requested order.
pub open spec fn partition_query_text(meta: TableMetadata, key: Seq<char>, part: Partition) -> Seq<char> {
    select_all(meta) + " WHERE "@ + key + " >= "@ + signed_decimal(part.start as int) + " AND "@ + key
        + (if part.last { " <= "@ } else { " < "@ }) + signed_decimal(part.end as int)
}

pub fn partition_query(meta: &TableMetadata, key: &str, part: &Partition) -> (r: String)
    ensures
        r@ == partition_query_text(*meta, key@, *part),
{
    let mut s = String::new();
    s.append("SELECT ");
    s.append(select_list(&meta.columns).as_str());
    s.append(" FROM ");
    s.append(meta.table_name.as_str());
    s.append(" WHERE ");
    s.append(key);
    s.append(" >= ");
    s.append(integer_text(part.start).as_str());
    s.append(" AND ");
    s.append(key);
    if part.last {
        s.append(" <= ");
    } else {
        s.append(" < ");
    }
    s.append(integer_text(part.end).as_str());
    assert(s@ =~= partition_query_text(*meta, key@, *part));
    s
}

/// Query of one page of the sequential read: rows `first` to `last`,
/// one-based and inclusive, in no requested order.
pub open spec fn page_query_text(meta: TableMetadata, first: i64, last: i64) -> Seq<char> {
    select_all(meta) + " ROWS "@ + signed_decimal(first as int) + " TO "@ + signed_decimal(last as int)
}

pub fn page_query(meta: &TableMetadata, first: i64, last: i64) -> (r: String)
    ensures
        r@ == page_query_text(*meta, first, last),
{
    let mut s = String::new();
    s.append("SELECT ");
    s.append(select_list(&meta.columns).as_str());
    s.append(" FROM ");
    s.append(meta.table_name.as_str());
    s.append(" ROWS ");
    s.append(integer_text(first).as_str());
    s.append(" TO ");
    s.append(integer_text(last).as_str());
    assert(s@ =~= page_query_text(*meta, first, last));
    s
}

/// Query counting the rows of a table.
pub fn count_query(table: &str) -> (r: String)
    ensures
        r@ == "SELECT COUNT(*) FROM "@ + table@,
{
    let mut s = String::new();
    s.append("SELECT COUNT(*) FROM ");
    s.append(table);
    assert(s@ =~= "SELECT COUNT(*) FROM "@ + table@);
    s
}

/// Query for the smallest and largest value of the leading key column.
pub fn key_range_query(table: &str, key: &str) -> (r: String)
    ensures
        r@ == "SELECT MIN("@ + key@ + "), MAX("@ + key@ + ") FROM "@ + table@,
{
    let mut s = String::new();
    s.append("SELECT MIN(");
    s.append(key);
    s.append("), MAX(");
    s.append(key);
    s.append(") FROM ");
    s.append(table);
    assert(s@ =~= "SELECT MIN("@ + key@ + "), MAX("@ + key@ + ") FROM "@ + table@);
    s
}

/// Name of the table's output file: the lower-cased table name.
pub fn output_file_name(table: &str) -> (r: String)
    ensures
        r@ == lower_of(table@) + ".parquet"@,
{
    let mut s = lowercase(table);
    s.append(".parquet");
    s
}

/// Name of partition `index`'s temporary file.
pub fn partition_file_name(table: &str, index: usize) -> (r: String)
    ensures
        r@ == lower_of(table@) + "_part_"@ + decimal(index as nat) + ".parquet"@,
{
    let mut s = lowercase(table);
    s.append("_part_");
    push_decimal(&mut s, index as u64);
    s.append(".parquet");
    assert(s@ =~= lower_of(table@) + "_part_"@ + decimal(index as nat) + ".parquet"@);
    s
}

} // verus!
