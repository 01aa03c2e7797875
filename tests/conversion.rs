use firebird_peregrine_falcon::convert::{
    build_batch, build_column, truncate_float_bits, Cell, ColumnValues, FloatValue, TextValue,
};
use firebird_peregrine_falcon::metadata::{
    catalog_column, catalog_column_type, key_column_names, key_index_name, key_types_eligible,
    needs_key_scan, primary_key_info, ColumnMetadata, ColumnType, TableMetadata,
};
use firebird_peregrine_falcon::plan::Partition;
use firebird_peregrine_falcon::query::{
    count_query, key_range_query, output_file_name, page_query, partition_file_name,
    partition_query, select_list,
};
use firebird_peregrine_falcon::text::{format_number, integer_text};

fn column(name: &str, data_type: ColumnType, is_text_blob: bool) -> ColumnMetadata {
    ColumnMetadata { name: name.to_string(), data_type, is_text_blob }
}

fn bits(v: f64) -> u64 {
    v.to_bits()
}

#[test]
fn float_truncation_matches_cast() {
    let samples = [
        0.0, -0.0, 0.5, -0.5, 0.999, 1.0, 2.9, -2.9, 3.7, -3.7, 123456.789, -98765.4321,
        4503599627370495.5, 4503599627370496.0, 9007199254740993.0, 1e18, -1e18,
        9.2233720368547748e18, -9.2233720368547758e18, 1e19, -1e19, 1e300, -1e300,
        f64::MIN_POSITIVE, 5e-324, f64::INFINITY, f64::NEG_INFINITY, f64::NAN, f64::MAX, f64::MIN,
    ];
    for v in samples {
        assert_eq!(truncate_float_bits(bits(v)), v as i64, "value {}", v);
    }
    assert_eq!(truncate_float_bits(bits(3.7)), 3);
    assert_eq!(truncate_float_bits(bits(-3.7)), -3);
    assert_eq!(truncate_float_bits(bits(f64::NAN)), 0);
    assert_eq!(truncate_float_bits(bits(f64::INFINITY)), i64::MAX);
    assert_eq!(truncate_float_bits(bits(-9.2233720368547758e18)), i64::MIN);
}

#[test]
fn integer_column_from_mixed_cells() {
    let rows = vec![
        vec![Cell::Integer(5)],
        vec![Cell::Floating(bits(2.9))],
        vec![Cell::Null],
        vec![Cell::Floating(bits(-7.99))],
        vec![Cell::Text("12".to_string())],
        vec![],
        vec![Cell::Boolean(true)],
    ];
    match build_column(&column("A", ColumnType::Int64, false), &rows, 0) {
        ColumnValues::Int64(v) => {
            assert_eq!(v, vec![Some(5), Some(2), None, Some(-7), None, None, None]);
        }
        _ => panic!("wrong column kind"),
    }
}

#[test]
fn float_column_from_mixed_cells() {
    let rows = vec![
        vec![Cell::Floating(bits(1.5))],
        vec![Cell::Integer(3)],
        vec![Cell::Text("x".to_string())],
        vec![Cell::Null],
    ];
    match build_column(&column("F", ColumnType::Float64, false), &rows, 0) {
        ColumnValues::Float64(v) => {
            assert_eq!(
                v,
                vec![Some(FloatValue::Bits(bits(1.5))), Some(FloatValue::Widened(3)), None, None]
            );
        }
        _ => panic!("wrong column kind"),
    }
}

fn text_of(v: &Option<TextValue>) -> Option<String> {
    match v {
        Some(TextValue::Chars(s)) => Some(s.clone()),
        Some(TextValue::FloatDigits(b)) => Some(format!("float:{}", b)),
        None => None,
    }
}

#[test]
fn text_column_from_mixed_cells() {
    let rows = vec![
        vec![Cell::Integer(0), Cell::Text("  padded name \t".to_string())],
        vec![Cell::Integer(0), Cell::Integer(-42)],
        vec![Cell::Integer(0), Cell::Boolean(true)],
        vec![Cell::Integer(0), Cell::Boolean(false)],
        vec![Cell::Integer(0), Cell::Floating(bits(2.5))],
        vec![Cell::Integer(0), Cell::Null],
        vec![Cell::Integer(0)],
    ];
    for blob in [false, true] {
        match build_column(&column("T", ColumnType::Utf8, blob), &rows, 1) {
            ColumnValues::Utf8(v) => {
                let got: Vec<Option<String>> = v.iter().map(text_of).collect();
                assert_eq!(
                    got,
                    vec![
                        Some("padded name".to_string()),
                        Some("-42".to_string()),
                        Some("true".to_string()),
                        Some("false".to_string()),
                        Some(format!("float:{}", bits(2.5))),
                        None,
                        None,
                    ]
                );
            }
            _ => panic!("wrong column kind"),
        }
    }
}

#[test]
fn binary_column_keeps_text_bytes() {
    let rows = vec![
        vec![Cell::Text(" ab\u{e9}".to_string())],
        vec![Cell::Integer(1)],
        vec![Cell::Null],
    ];
    match build_column(&column("B", ColumnType::Binary, false), &rows, 0) {
        ColumnValues::Binary(v) => {
            assert_eq!(v, vec![Some(vec![32, 97, 98, 0xc3, 0xa9]), None, None]);
        }
        _ => panic!("wrong column kind"),
    }
}

#[test]
fn empty_rows_give_empty_column() {
    let rows: Vec<Vec<Cell>> = vec![];
    match build_column(&column("A", ColumnType::Int64, false), &rows, 0) {
        ColumnValues::Int64(v) => assert!(v.is_empty()),
        _ => panic!("wrong column kind"),
    }
}

#[test]
fn catalog_type_mapping() {
    for code in [7i16, 8, 16] {
        assert_eq!(catalog_column_type(code, 0), (ColumnType::Int64, false));
    }
    for code in [10i16, 27, 23] {
        assert_eq!(catalog_column_type(code, 0), (ColumnType::Float64, false));
    }
    assert_eq!(catalog_column_type(14, 0), (ColumnType::Utf8, false));
    assert_eq!(catalog_column_type(37, 0), (ColumnType::Utf8, false));
    assert_eq!(catalog_column_type(12, 1), (ColumnType::Utf8, true));
    assert_eq!(catalog_column_type(12, 0), (ColumnType::Binary, false));
    assert_eq!(catalog_column_type(12, 2), (ColumnType::Binary, false));
    assert_eq!(catalog_column_type(35, 0), (ColumnType::Utf8, false));
}

#[test]
fn catalog_columns_are_trimmed_and_typed() {
    let c = catalog_column("NAME      ", Some((12, 1)));
    assert_eq!(c.name, "NAME");
    assert_eq!(c.data_type, ColumnType::Utf8);
    assert!(c.is_text_blob);
    let d = catalog_column(" ID ", None);
    assert_eq!(d.name, "ID");
    assert_eq!(d.data_type, ColumnType::Utf8);
    assert!(!d.is_text_blob);
}

#[test]
fn table_blob_flag_follows_columns() {
    let plain = TableMetadata::new(
        "T".to_string(),
        vec![column("A", ColumnType::Int64, false), column("B", ColumnType::Binary, false)],
        Some(3),
        None,
    );
    assert!(!plain.has_blob);
    let blob = TableMetadata::new(
        "T".to_string(),
        vec![column("A", ColumnType::Int64, false), column("N", ColumnType::Utf8, true)],
        Some(3),
        None,
    );
    assert!(blob.has_blob);
    assert_eq!(blob.row_count, 3);
}

#[test]
fn key_eligibility() {
    assert!(key_types_eligible(&vec![Some(8)]));
    assert!(key_types_eligible(&vec![Some(7), Some(16)]));
    assert!(!key_types_eligible(&vec![Some(8), Some(37)]));
    assert!(!key_types_eligible(&vec![Some(8), None]));
    assert!(!key_types_eligible(&vec![]));
}

#[test]
fn key_names_and_index() {
    assert_eq!(key_index_name(&vec![]), None);
    assert_eq!(key_index_name(&vec!["RDB$PRIMARY1   ".to_string(), "X".to_string()]), Some("RDB$PRIMARY1".to_string()));
    assert_eq!(key_column_names(&vec!["ID  ".to_string(), " SEQ".to_string()]), vec!["ID".to_string(), "SEQ".to_string()]);
}

#[test]
fn key_range_decisions() {
    assert!(needs_key_scan(10_000_001, 1));
    assert!(needs_key_scan(10_000_000, 2));
    assert!(!needs_key_scan(10_000_001, 2));

    let big = primary_key_info(vec!["A".to_string(), "B".to_string()], 20_000_000, Some((Some(5), Some(9))));
    assert_eq!((big.min_value, big.max_value), (0, 20_000_000));
    let scanned = primary_key_info(vec!["ID".to_string()], 1_000_000, Some((Some(1), Some(1_000_000))));
    assert_eq!((scanned.min_value, scanned.max_value), (1, 1_000_000));
    assert_eq!(scanned.row_count, 1_000_000);
    let nulls = primary_key_info(vec!["ID".to_string()], 50, Some((None, None)));
    assert_eq!((nulls.min_value, nulls.max_value), (0, 0));
    let no_row = primary_key_info(vec!["ID".to_string()], 50, None);
    assert_eq!((no_row.min_value, no_row.max_value), (0, 50));
}

fn accounts() -> TableMetadata {
    TableMetadata::new(
        "ACCOUNTS".to_string(),
        vec![column("ID", ColumnType::Int64, false), column("NAME", ColumnType::Utf8, false)],
        Some(1_000_000),
        None,
    )
}

#[test]
fn query_texts() {
    let meta = accounts();
    assert_eq!(select_list(&meta.columns), "ID, NAME");
    assert_eq!(select_list(&vec![]), "");
    let mid = Partition { index: 0, start: 1, end: 250_000, last: false };
    assert_eq!(
        partition_query(&meta, "ID", &mid),
        "SELECT ID, NAME FROM ACCOUNTS WHERE ID >= 1 AND ID < 250000"
    );
    let last = Partition { index: 3, start: -750_000, end: 1_000_000, last: true };
    assert_eq!(
        partition_query(&meta, "ID", &last),
        "SELECT ID, NAME FROM ACCOUNTS WHERE ID >= -750000 AND ID <= 1000000"
    );
    assert_eq!(page_query(&meta, 250_001, 500_000), "SELECT ID, NAME FROM ACCOUNTS ROWS 250001 TO 500000");
    assert_eq!(count_query("LOG"), "SELECT COUNT(*) FROM LOG");
    assert_eq!(key_range_query("ACCOUNTS", "ID"), "SELECT MIN(ID), MAX(ID) FROM ACCOUNTS");
}

#[test]
fn file_names_are_lower_case() {
    assert_eq!(output_file_name("ACCOUNTS"), "accounts.parquet");
    assert_eq!(partition_file_name("Log", 0), "log_part_0.parquet");
    assert_eq!(partition_file_name("LOG", 12), "log_part_12.parquet");
}

#[test]
fn numbers_render() {
    assert_eq!(integer_text(0), "0");
    assert_eq!(integer_text(-42), "-42");
    assert_eq!(integer_text(i64::MIN), "-9223372036854775808");
    assert_eq!(integer_text(i64::MAX), "9223372036854775807");
    assert_eq!(format_number(0), "0");
    assert_eq!(format_number(999), "999");
    assert_eq!(format_number(1000), "1,000");
    assert_eq!(format_number(1_234_567), "1,234,567");
    assert_eq!(format_number(-1234), "-1,234");
    assert_eq!(format_number(-123_456), "-123,456");
    assert_eq!(format_number(i64::MIN), "-9,223,372,036,854,775,808");
}

#[test]
fn batch_has_one_column_per_metadata_column() {
    let columns = vec![
        column("ID", ColumnType::Int64, false),
        column("AMOUNT", ColumnType::Float64, false),
        column("NAME", ColumnType::Utf8, false),
    ];
    let rows = vec![
        vec![Cell::Integer(1), Cell::Integer(10), Cell::Text(" a ".to_string())],
        vec![Cell::Floating(bits(-2.9)), Cell::Null, Cell::Null],
    ];
    let batch = build_batch(&columns, &rows);
    assert_eq!(batch.len(), 3);
    match &batch[0] {
        ColumnValues::Int64(v) => assert_eq!(v, &vec![Some(1), Some(-2)]),
        _ => panic!("wrong column kind"),
    }
    match &batch[1] {
        ColumnValues::Float64(v) => assert_eq!(v, &vec![Some(FloatValue::Widened(10)), None]),
        _ => panic!("wrong column kind"),
    }
    match &batch[2] {
        ColumnValues::Utf8(v) => {
            assert_eq!(v.iter().map(text_of).collect::<Vec<_>>(), vec![Some("a".to_string()), None]);
        }
        _ => panic!("wrong column kind"),
    }
    assert!(build_batch(&vec![], &rows).is_empty());
}

#[test]
fn truncation_is_symmetric() {
    for v in [0.0f64, 0.4, 2.9, 7.5, 123456.789, 4503599627370497.0, 9.2233720368547748e18] {
        let t = truncate_float_bits(bits(v));
        assert!(t >= 0);
        assert_eq!(truncate_float_bits(bits(-v)), -t);
    }
    assert_eq!(truncate_float_bits(bits(2.9)), 2);
    assert_eq!(truncate_float_bits(bits(-2.9)), -2);
}

#[test]
fn trimming_uses_unicode_white_space() {
    let c = catalog_column("\u{3000}\u{a0}NAME\u{85}\u{2028} ", None);
    assert_eq!(c.name, "NAME");
    let z = catalog_column("\u{200b}ID", None);
    assert_eq!(z.name, "\u{200b}ID");
    let blank = catalog_column(" \t\n ", None);
    assert_eq!(blank.name, "");
}
