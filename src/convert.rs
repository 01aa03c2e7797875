//! Conversion of source cells into typed column values.
use vstd::prelude::*;
use vstd::arithmetic::power2::{pow2, lemma2_to64, lemma2_to64_rest, lemma_pow2_strictly_increases, lemma_pow2_pos};
use vstd::utf8::encode_utf8;
use vstd::string::StrSliceExecFns;
use vstd::bits::{lemma_u64_shl_is_mul, lemma_u64_shr_is_div};
use crate::metadata::{ColumnMetadata, ColumnType};
use crate::text::{integer_text, signed_decimal, trim_text, trimmed};

verus! {

/// One value of a fetched row. A floating value is held as the bit pattern
/// of its IEEE-754 double-precision encoding.
#[derive(Clone, Debug)]
pub enum Cell {
    Integer(i64),
    Floating(u64),
    Text(String),
    Boolean(bool),
    Null,
}

/// A value of a 64-bit float column: a double given by its bits, or an
/// integer to be widened to the nearest double.
#[derive(Clone, Copy, Debug, PartialEq, Eq, Structural)]
pub enum FloatValue {
    Bits(u64),
    Widened(i64),
}

/// A value of a text column: characters, or the shortest decimal rendering
/// of the double with the given bits.
#[derive(Clone, Debug)]
pub enum TextValue {
    Chars(String),
    FloatDigits(u64),
}

/// One converted column, as long as the rows it was built from.
#[derive(Clone, Debug)]
pub enum ColumnValues {
    Int64(Vec<Option<i64>>),
    Float64(Vec<Option<FloatValue>>),
    Utf8(Vec<Option<TextValue>>),
    Binary(Vec<Option<Vec<u8>>>),
}

pub open spec fn sign_bit(bits: u64) -> bool {
    bits >= 0x8000_0000_0000_0000
}

pub open spec fn exponent_field(bits: u64) -> int {
    (bits as int / 0x10_0000_0000_0000) % 0x800
}

pub open spec fn fraction_field(bits: u64) -> int {
    bits as int % 0x10_0000_0000_0000
}

/// The double with these bits truncated toward zero, as Rust's cast to a
/// 64-bit integer gives it: NaN is zero and values beyond the range saturate.
pub open spec fn truncated(bits: u64) -> int {
    let e = exponent_field(bits);
    let f = fraction_field(bits);
    if e == 0x7ff {
        if f != 0 { 0 } else if sign_bit(bits) { i64::MIN as int } else { i64::MAX as int }
    } else {
        let m = if e == 0 { f } else { f + 0x10_0000_0000_0000 };
        let magnitude = if e >= 1075 {
            m * pow2((e - 1075) as nat)
        } else {
            m / (pow2((1075 - e) as nat) as int)
        };
        let v = if sign_bit(bits) { -magnitude } else { magnitude };
        if v < i64::MIN { i64::MIN as int } else if v > i64::MAX { i64::MAX as int } else { v }
    }
}

/// Truncation is toward zero and symmetric: a non-negative double that is
/// not NaN or infinite, and truncates below the largest integer, truncates
/// to a non-negative value, and its negation (the same bits with the sign
/// bit set) truncates to exactly minus that value.
pub proof fn lemma_truncation_symmetric(bits: u64)
    requires
        bits < 0x8000_0000_0000_0000,
        exponent_field(bits) != 0x7ff,
        truncated(bits) < i64::MAX,
    ensures
        truncated(bits) >= 0,
        truncated((bits + 0x8000_0000_0000_0000) as u64) == -truncated(bits),
{
    let neg = (bits + 0x8000_0000_0000_0000) as u64;
    assert((neg / 0x10_0000_0000_0000) % 0x800 == (bits / 0x10_0000_0000_0000) % 0x800) by (bit_vector)
        requires
            bits < 0x8000_0000_0000_0000,
            neg == bits + 0x8000_0000_0000_0000,
    ;
    assert(neg % 0x10_0000_0000_0000 == bits % 0x10_0000_0000_0000) by (bit_vector)
        requires
            bits < 0x8000_0000_0000_0000,
            neg == bits + 0x8000_0000_0000_0000,
    ;
    assert(exponent_field(neg) == exponent_field(bits));
    assert(fraction_field(neg) == fraction_field(bits));
    assert(sign_bit(neg));
    let e = exponent_field(bits);
    let f = fraction_field(bits);
    let m = if e == 0 { f } else { f + 0x10_0000_0000_0000 };
    if e >= 1075 {
        vstd::arithmetic::power2::lemma_pow2_pos((e - 1075) as nat);
        assert(m * pow2((e - 1075) as nat) >= 0) by (nonlinear_arith)
            requires
                m >= 0,
                pow2((e - 1075) as nat) > 0,
        ;
    } else {
        vstd::arithmetic::power2::lemma_pow2_pos((1075 - e) as nat);
        assert(m / (pow2((1075 - e) as nat) as int) >= 0) by (nonlinear_arith)
            requires
                m >= 0,
                pow2((1075 - e) as nat) > 0,
        ;
    }
}

/// Truncates the double with the given bits to an integer.
pub fn truncate_float_bits(bits: u64) -> (r: i64)
    ensures
        r as int == truncated(bits),
{
    let neg = bits >= 0x8000_0000_0000_0000;
    let e: u64 = (bits / 0x10_0000_0000_0000) % 0x800;
    let f: u64 = bits % 0x10_0000_0000_0000;
    if e == 0x7ff {
        return if f != 0 { 0 } else if neg { i64::MIN } else { i64::MAX };
    }
    let m: u64 = if e == 0 { f } else { f + 0x10_0000_0000_0000 };
    proof {
        lemma2_to64();
        lemma2_to64_rest();
    }
    if e < 1023 {
        proof {
            assert(m < 0x20_0000_0000_0000);
            assert(pow2(53) == 0x20_0000_0000_0000);
            if e < 1022 {
                lemma_pow2_strictly_increases(53, (1075 - e) as nat);
            }
            assert(m as int / (pow2((1075 - e) as nat) as int) == 0) by (nonlinear_arith)
                requires
                    0 <= m < pow2(53),
                    pow2(53) <= pow2((1075 - e) as nat),
            ;
        }
        return 0;
    }
    if e >= 1086 {
        proof {
            if e > 1086 {
                lemma_pow2_strictly_increases(11, (e - 1075) as nat);
            }
            assert(m * pow2((e - 1075) as nat) >= 0x8000_0000_0000_0000) by (nonlinear_arith)
                requires
                    m >= 0x10_0000_0000_0000,
                    pow2((e - 1075) as nat) >= pow2(11),
                    pow2(11) == 2048,
            ;
        }
        return if neg { i64::MIN } else { i64::MAX };
    }
    let magnitude: u64 = if e >= 1075 {
        let shift: u64 = e - 1075;
        proof {
            if shift < 10 {
                lemma_pow2_strictly_increases(shift as nat, 10);
            }
            assert(m * pow2(shift as nat) < 0x8000_0000_0000_0000) by (nonlinear_arith)
                requires
                    m < 0x20_0000_0000_0000,
                    pow2(shift as nat) <= pow2(10),
                    pow2(10) == 1024,
            ;
            lemma_u64_shl_is_mul(m, shift);
        }
        m << shift
    } else {
        let shift: u64 = 1075 - e;
        proof {
            lemma_u64_shr_is_div(m, shift);
            lemma_pow2_pos(shift as nat);
            assert(m as int / (pow2(shift as nat) as int) <= m) by (nonlinear_arith)
                requires
                    pow2(shift as nat) > 0,
                    m >= 0,
            ;
        }
        m >> shift
    };
    assert(magnitude < 0x8000_0000_0000_0000);
    if neg { -(magnitude as i64) } else { magnitude as i64 }
}

/// The cell at `col` of a row; a row too short for it reads as null.
pub open spec fn cell_at(row: Seq<Cell>, col: int) -> Cell {
    if 0 <= col < row.len() { row[col] } else { Cell::Null }
}

/// 64-bit integer column: integers are kept, floating values truncated,
/// anything else is null.
pub open spec fn int_value_of(c: Cell) -> Option<i64> {
    match c {
        Cell::Integer(v) => Some(v),
        Cell::Floating(b) => Some(truncated(b) as i64),
        _ => None,
    }
}

/// 64-bit float column: floating values are kept, integers widened,
/// anything else is null.
pub open spec fn float_value_of(c: Cell) -> Option<FloatValue> {
    match c {
        Cell::Floating(b) => Some(FloatValue::Bits(b)),
        Cell::Integer(v) => Some(FloatValue::Widened(v)),
        _ => None,
    }
}

pub open spec fn bool_text(b: bool) -> Seq<char> {
    if b { seq!['t', 'r', 'u', 'e'] } else { seq!['f', 'a', 'l', 's', 'e'] }
}

/// Text column: text is trimmed, numbers are rendered, booleans become
/// `true` or `false`, anything else is null. A large-text column holds text
/// that is already valid UTF-8, so decoding it again changes nothing.
pub open spec fn text_value_matches(out: Option<TextValue>, c: Cell) -> bool {
    match c {
        Cell::Text(t) => out matches Some(TextValue::Chars(s)) && s@ == trimmed(t@),
        Cell::Integer(v) => out matches Some(TextValue::Chars(s)) && s@ == signed_decimal(v as int),
        Cell::Floating(b) => out matches Some(TextValue::FloatDigits(d)) && d == b,
        Cell::Boolean(b) => out matches Some(TextValue::Chars(s)) && s@ == bool_text(b),
        Cell::Null => out is None,
    }
}

/// Binary column: the UTF-8 bytes of text, verbatim; anything else is null.
pub open spec fn binary_value_matches(out: Option<Vec<u8>>, c: Cell) -> bool {
    match c {
        Cell::Text(t) => out matches Some(b) && b@ == encode_utf8(t@),
        _ => out is None,
    }
}

/// Value of a cell in a 64-bit integer column.
pub fn int_value(c: &Cell) -> (r: Option<i64>)
    ensures
        r == int_value_of(*c),
{
    match c {
        Cell::Integer(v) => Some(*v),
        Cell::Floating(b) => Some(truncate_float_bits(*b)),
        _ => None,
    }
}

/// Value of a cell in a 64-bit float column.
pub fn float_value(c: &Cell) -> (r: Option<FloatValue>)
    ensures
        r == float_value_of(*c),
{
    match c {
        Cell::Floating(b) => Some(FloatValue::Bits(*b)),
        Cell::Integer(v) => Some(FloatValue::Widened(*v)),
        _ => None,
    }
}

/// Value of a cell in a text column.
pub fn text_value(c: &Cell) -> (r: Option<TextValue>)
    ensures
        text_value_matches(r, *c),
{
    match c {
        Cell::Text(t) => Some(TextValue::Chars(trim_text(t.as_str()))),
        Cell::Integer(v) => Some(TextValue::Chars(integer_text(*v))),
        Cell::Floating(b) => Some(TextValue::FloatDigits(*b)),
        Cell::Boolean(b) => {
            let mut s = String::new();
            if *b {
                s.push('t');
                s.push('r');
                s.push('u');
                s.push('e');
            } else {
                s.push('f');
                s.push('a');
                s.push('l');
                s.push('s');
                s.push('e');
            }
            assert(s@ =~= bool_text(*b));
            Some(TextValue::Chars(s))
        },
        Cell::Null => None,
    }
}

/// Value of a cell in a binary column.
pub fn binary_value(c: &Cell) -> (r: Option<Vec<u8>>)
    ensures
        binary_value_matches(r, *c),
{
    match c {
        Cell::Text(t) => Some(t.as_str().as_bytes_vec()),
        _ => None,
    }
}

/// Whether `values` is column `col` of `rows` converted to `ty`: one value
/// per row, at the row's position.
pub open spec fn column_built(ty: ColumnType, rows: Seq<Vec<Cell>>, col: int, values: ColumnValues) -> bool {
    match values {
        ColumnValues::Int64(v) => ty == ColumnType::Int64 && v@.len() == rows.len()
            && forall|i: int| 0 <= i < rows.len() ==> #[trigger] v@[i] == int_value_of(cell_at(rows[i]@, col)),
        ColumnValues::Float64(v) => ty == ColumnType::Float64 && v@.len() == rows.len()
            && forall|i: int| 0 <= i < rows.len() ==> #[trigger] v@[i] == float_value_of(cell_at(rows[i]@, col)),
        ColumnValues::Utf8(v) => ty == ColumnType::Utf8 && v@.len() == rows.len()
            && forall|i: int| 0 <= i < rows.len() ==> text_value_matches(#[trigger] v@[i], cell_at(rows[i]@, col)),
        ColumnValues::Binary(v) => ty == ColumnType::Binary && v@.len() == rows.len()
            && forall|i: int| 0 <= i < rows.len() ==> binary_value_matches(#[trigger] v@[i], cell_at(rows[i]@, col)),
    }
}

fn cell_ref(row: &Vec<Cell>, col: usize) -> (r: &Cell)
    ensures
        *r == cell_at(row@, col as int),
{
    if col < row.len() {
        &row[col]
    } else {
        &Cell::Null
    }
}

/// Converts column `col` of the rows to the column's target type. The rows
/// stay aligned: value `i` comes from row `i`.
pub fn build_column(column: &ColumnMetadata, rows: &Vec<Vec<Cell>>, col: usize) -> (r: ColumnValues)
    ensures
        column_built(column.data_type, rows@, col as int, r),
{
    let n = rows.len();
    match column.data_type {
        ColumnType::Int64 => {
            let mut v: Vec<Option<i64>> = Vec::new();
            let mut i: usize = 0;
            while i < n
                invariant
                    n == rows@.len(),
                    i <= n,
                    v@.len() == i,
                    forall|j: int| 0 <= j < i ==> #[trigger] v@[j] == int_value_of(cell_at(rows@[j]@, col as int)),
                decreases n - i,
            {
                v.push(int_value(cell_ref(&rows[i], col)));
                i += 1;
            }
            ColumnValues::Int64(v)
        },
        ColumnType::Float64 => {
            let mut v: Vec<Option<FloatValue>> = Vec::new();
            let mut i: usize = 0;
            while i < n
                invariant
                    n == rows@.len(),
                    i <= n,
                    v@.len() == i,
                    forall|j: int| 0 <= j < i ==> #[trigger] v@[j] == float_value_of(cell_at(rows@[j]@, col as int)),
                decreases n - i,
            {
                v.push(float_value(cell_ref(&rows[i], col)));
                i += 1;
            }
            ColumnValues::Float64(v)
        },
        ColumnType::Utf8 => {
            let mut v: Vec<Option<TextValue>> = Vec::new();
            let mut i: usize = 0;
            while i < n
                invariant
                    n == rows@.len(),
                    i <= n,
                    v@.len() == i,
                    forall|j: int| 0 <= j < i ==> text_value_matches(#[trigger] v@[j], cell_at(rows@[j]@, col as int)),
                decreases n - i,
            {
                v.push(text_value(cell_ref(&rows[i], col)));
                i += 1;
            }
            ColumnValues::Utf8(v)
        },
        ColumnType::Binary => {
            let mut v: Vec<Option<Vec<u8>>> = Vec::new();
            let mut i: usize = 0;
            while i < n
                invariant
                    n == rows@.len(),
                    i <= n,
                    v@.len() == i,
                    forall|j: int| 0 <= j < i ==> binary_value_matches(#[trigger] v@[j], cell_at(rows@[j]@, col as int)),
                decreases n - i,
            {
                v.push(binary_value(cell_ref(&rows[i], col)));
                i += 1;
            }
            ColumnValues::Binary(v)
        },
    }
}

/// Converts every column of the rows, one value list per column in the
/// columns' order, each as long as the rows. The columns do not depend on
/// one another, so a caller may equally build them apart, in parallel, with
/// `build_column`.
pub fn build_batch(columns: &Vec<ColumnMetadata>, rows: &Vec<Vec<Cell>>) -> (r: Vec<ColumnValues>)
    ensures
        r@.len() == columns@.len(),
        forall|c: int| 0 <= c < columns@.len() ==> column_built(columns@[c].data_type, rows@, c, #[trigger] r@[c]),
{
    let mut out: Vec<ColumnValues> = Vec::new();
    let mut c: usize = 0;
    while c < columns.len()
        invariant
            c <= columns@.len(),
            out@.len() == c,
            forall|j: int| 0 <= j < c ==> column_built(columns@[j].data_type, rows@, j, #[trigger] out@[j]),
        decreases columns@.len() - c,
    {
        out.push(build_column(&columns[c], rows, c));
        c += 1;
    }
    out
}

} // verus!
