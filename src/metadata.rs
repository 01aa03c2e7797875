//! Table, column and primary-key descriptions, and the decisions made from
//! the database catalog while building them.
use vstd::prelude::*;
use crate::text::{trim_text, trimmed};

verus! {

/// Columnar type that a source column is stored as.
#[derive(Clone, Copy, Debug, PartialEq, Eq, Structural)]
pub enum ColumnType {
    Int64,
    Float64,
    Utf8,
    Binary,
}

/// Catalog type code given to a field whose type could not be looked up
/// (variable-length text).
pub const DEFAULT_FIELD_TYPE: i16 = 37;

/// Columnar type and large-text flag for a catalog type code and subtype.
pub open spec fn catalog_type(code: i16, subtype: i16) -> (ColumnType, bool) {
    if code == 7 || code == 8 || code == 16 {
        (ColumnType::Int64, false)
    } else if code == 10 || code == 27 || code == 23 {
        (ColumnType::Float64, false)
    } else if code == 12 {
        if subtype == 1 { (ColumnType::Utf8, true) } else { (ColumnType::Binary, false) }
    } else {
        (ColumnType::Utf8, false)
    }
}

/// Maps a catalog type code and subtype to a columnar type, flagging
/// large-text blobs.
pub fn catalog_column_type(code: i16, subtype: i16) -> (r: (ColumnType, bool))
    ensures
        r == catalog_type(code, subtype),
{
    match code {
        7 | 8 | 16 => (ColumnType::Int64, false),
        10 | 27 | 23 => (ColumnType::Float64, false),
        12 => if subtype == 1 { (ColumnType::Utf8, true) } else { (ColumnType::Binary, false) },
        _ => (ColumnType::Utf8, false),
    }
}

#[derive(Clone, Debug)]
pub struct ColumnMetadata {
    pub name: String,
    pub data_type: ColumnType,
    pub is_text_blob: bool,
}

/// Describes one field from its catalog name and, when found, its type code
/// and subtype; a field whose type is not found is treated as text.
pub fn catalog_column(name: &str, types: Option<(i16, i16)>) -> (r: ColumnMetadata)
    ensures
        r.name@ == trimmed(name@),
        (r.data_type, r.is_text_blob) == (match types {
            Some((code, subtype)) => catalog_type(code, subtype),
            None => catalog_type(DEFAULT_FIELD_TYPE, 0),
        }),
{
    let (code, subtype) = match types {
        Some(t) => t,
        None => (DEFAULT_FIELD_TYPE, 0),
    };
    let (data_type, is_text_blob) = catalog_column_type(code, subtype);
    ColumnMetadata { name: trim_text(name), data_type, is_text_blob }
}

pub open spec fn is_large_text(c: ColumnMetadata) -> bool {
    c.data_type == ColumnType::Utf8 && c.is_text_blob
}

pub open spec fn any_large_text(columns: Seq<ColumnMetadata>) -> bool {
    exists|i: int| 0 <= i < columns.len() && is_large_text(#[trigger] columns[i])
}

/// Whether any of the columns is a large-text blob.
pub fn has_large_text(columns: &Vec<ColumnMetadata>) -> (r: bool)
    ensures
        r == any_large_text(columns@),
{
    let mut i: usize = 0;
    while i < columns.len()
        invariant
            i <= columns@.len(),
            forall|j: int| 0 <= j < i ==> !is_large_text(#[trigger] columns@[j]),
        decreases columns@.len() - i,
    {
        if columns[i].data_type == ColumnType::Utf8 && columns[i].is_text_blob {
            return true;
        }
        i += 1;
    }
    false
}

/// Row count above which the exact key range of a composite key is not
/// scanned for.
pub const KEY_SCAN_ROW_LIMIT: i64 = 10_000_000;

/// A primary key usable for range partitioning, with the range of its
/// leading column.
#[derive(Clone, Debug)]
pub struct PrimaryKeyInfo {
    pub columns: Vec<String>,
    pub min_value: i64,
    pub max_value: i64,
    pub row_count: i64,
}

pub open spec fn integral_type_code(t: Option<i16>) -> bool {
    t == Some(7i16) || t == Some(8i16) || t == Some(16i16)
}

/// Names of the key columns as the catalog lists them, each trimmed.
pub fn key_column_names(raw: &Vec<String>) -> (r: Vec<String>)
    ensures
        r@.len() == raw@.len(),
        forall|i: int| 0 <= i < raw@.len() ==> (#[trigger] r@[i])@ == trimmed(raw@[i]@),
{
    let mut names: Vec<String> = Vec::new();
    let mut i: usize = 0;
    while i < raw.len()
        invariant
            i <= raw@.len(),
            names@.len() == i,
            forall|j: int| 0 <= j < i ==> (#[trigger] names@[j])@ == trimmed(raw@[j]@),
        decreases raw@.len() - i,
    {
        names.push(trim_text(raw[i].as_str()));
        i += 1;
    }
    names
}

/// Name of the primary-key index: the first one the catalog lists, trimmed.
pub fn key_index_name(indices: &Vec<String>) -> (r: Option<String>)
    ensures
        indices@.len() == 0 <==> r is None,
        r matches Some(s) ==> s@ == trimmed(indices@[0]@),
{
    if indices.len() == 0 {
        None
    } else {
        Some(trim_text(indices[0].as_str()))
    }
}

/// A key can partition the table when it has at least one column and each
/// column's declared type is a small, regular or 64-bit integer.
pub open spec fn key_eligible(types: Seq<Option<i16>>) -> bool {
    &&& types.len() > 0
    &&& forall|i: int| 0 <= i < types.len() ==> integral_type_code(#[trigger] types[i])
}

/// Whether the key columns, with their looked-up type codes, are usable.
pub fn key_types_eligible(types: &Vec<Option<i16>>) -> (r: bool)
    ensures
        r == key_eligible(types@),
{
    if types.len() == 0 {
        return false;
    }
    let mut i: usize = 0;
    while i < types.len()
        invariant
            i <= types@.len(),
            forall|j: int| 0 <= j < i ==> integral_type_code(#[trigger] types@[j]),
        decreases types@.len() - i,
    {
        let t = types[i];
        if !(t == Some(7i16) || t == Some(8i16) || t == Some(16i16)) {
            return false;
        }
        i += 1;
    }
    true
}

/// A large table with a composite key gets a row-index range instead of a
/// scan for the minimum and maximum key.
pub open spec fn skips_key_scan(row_count: i64, key_columns: nat) -> bool {
    row_count > KEY_SCAN_ROW_LIMIT && key_columns > 1
}

/// Whether the minimum and maximum of the leading key column must be queried.
pub fn needs_key_scan(row_count: i64, key_columns: usize) -> (r: bool)
    ensures
        r == !skips_key_scan(row_count, key_columns as nat),
{
    !(row_count > KEY_SCAN_ROW_LIMIT && key_columns > 1)
}

/// Range of the leading key column: `[0, row_count]` when the scan is
/// skipped or returned no row (an approximation that need not match the
/// key values), else the scanned bounds, an absent bound counting as zero.
pub open spec fn key_range_of(
    row_count: i64,
    key_columns: nat,
    scanned: Option<(Option<i64>, Option<i64>)>,
) -> (i64, i64) {
    if skips_key_scan(row_count, key_columns) {
        (0, row_count)
    } else {
        match scanned {
            None => (0, row_count),
            Some((lo, hi)) => (
                match lo { Some(v) => v, None => 0 },
                match hi { Some(v) => v, None => 0 },
            ),
        }
    }
}

/// Builds the key description from the key columns, the table's row count
/// and, when it was queried, the first row of the minimum/maximum scan.
pub fn primary_key_info(
    columns: Vec<String>,
    row_count: i64,
    scanned: Option<(Option<i64>, Option<i64>)>,
) -> (r: PrimaryKeyInfo)
    ensures
        r.columns@ == columns@,
        (r.min_value, r.max_value) == key_range_of(row_count, columns@.len(), scanned),
        r.row_count == row_count,
{
    let (min_value, max_value) = if !needs_key_scan(row_count, columns.len()) {
        (0, row_count)
    } else {
        match scanned {
            None => (0, row_count),
            Some((lo, hi)) => (
                match lo { Some(v) => v, None => 0 },
                match hi { Some(v) => v, None => 0 },
            ),
        }
    };
    PrimaryKeyInfo { columns, min_value, max_value, row_count }
}

/// Everything known of a table before its rows are read.
#[derive(Clone, Debug)]
pub struct TableMetadata {
    pub table_name: String,
    pub columns: Vec<ColumnMetadata>,
    pub row_count: i64,
    pub has_blob: bool,
    pub pk: Option<PrimaryKeyInfo>,
}

impl TableMetadata {
    /// The blob flag agrees with the columns, and a key, when present, has at
    /// least one column.
    pub open spec fn wf(self) -> bool {
        &&& self.has_blob == any_large_text(self.columns@)
        &&& (self.pk matches Some(k) ==> k.columns@.len() > 0)
    }

    /// Assembles the description; a missing count is taken as zero rows.
    pub fn new(
        table_name: String,
        columns: Vec<ColumnMetadata>,
        counted: Option<i64>,
        pk: Option<PrimaryKeyInfo>,
    ) -> (r: TableMetadata)
        requires
            pk matches Some(k) ==> k.columns@.len() > 0,
        ensures
            r.wf(),
            r.table_name@ == table_name@,
            r.columns@ == columns@,
            r.row_count == (match counted { Some(n) => n, None => 0 }),
            r.pk == pk,
    {
        let has_blob = has_large_text(&columns);
        let row_count = match counted {
            Some(n) => n,
            None => 0,
        };
        TableMetadata { table_name, columns, row_count, has_blob, pk }
    }
}

} // verus!
