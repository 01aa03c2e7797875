//! Text helpers: decimal rendering and the few std string operations the
//! library relies on.
use vstd::prelude::*;

verus! {

/// Relies on String::push: the character is appended at the end.
pub assume_specification[ String::push ](s: &mut String, ch: char)
    ensures
        final(s)@ == old(s)@.push(ch),
;

/// Characters with the Unicode White_Space property.
pub open spec fn is_white_space(c: char) -> bool {
    let u = c as u32;
    (0x9 <= u <= 0xd) || u == 0x20 || u == 0x85 || u == 0xa0 || u == 0x1680 || (0x2000 <= u <= 0x200a)
        || u == 0x2028 || u == 0x2029 || u == 0x202f || u == 0x205f || u == 0x3000
}

/// Number of white-space characters at the start of a text.
pub open spec fn leading_spaces(s: Seq<char>) -> nat
    decreases s.len(),
{
    if s.len() > 0 && is_white_space(s[0]) { 1 + leading_spaces(s.drop_first()) } else { 0 }
}

/// Number of white-space characters at the end of a text.
pub open spec fn trailing_spaces(s: Seq<char>) -> nat
    decreases s.len(),
{
    if s.len() > 0 && is_white_space(s.last()) { 1 + trailing_spaces(s.drop_last()) } else { 0 }
}

/// A text without its leading and trailing white space: what str::trim
/// leaves of it.
pub open spec fn trimmed(s: Seq<char>) -> Seq<char> {
    let lead = leading_spaces(s);
    if lead == s.len() {
        Seq::empty()
    } else {
        s.subrange(lead as int, s.len() - trailing_spaces(s))
    }
}

/// What str::to_lowercase makes of a text.
pub uninterp spec fn lower_of(s: Seq<char>) -> Seq<char>;

/// Relies on str::trim: leading and trailing characters with the Unicode
/// White_Space property are removed.
#[verifier::external_body]
pub(crate) fn trim_text(s: &str) -> (r: String)
    ensures
        r@ == trimmed(s@),
{
    s.trim().to_string()
}

/// Relies on str::to_lowercase, whose result depends on the characters alone.
#[verifier::external_body]
pub(crate) fn lowercase(s: &str) -> (r: String)
    ensures
        r@ == lower_of(s@),
{
    s.to_lowercase()
}

pub open spec fn digit_char(d: nat) -> char {
    if d == 0 { '0' }
    else if d == 1 { '1' }
    else if d == 2 { '2' }
    else if d == 3 { '3' }
    else if d == 4 { '4' }
    else if d == 5 { '5' }
    else if d == 6 { '6' }
    else if d == 7 { '7' }
    else if d == 8 { '8' }
    else { '9' }
}

/// Base-ten digits of `n`, most significant first, without leading zeros.
pub open spec fn decimal(n: nat) -> Seq<char>
    decreases n,
{
    if n < 10 {
        seq![digit_char(n)]
    } else {
        decimal(n / 10).push(digit_char(n % 10))
    }
}

/// Base-ten text of a signed integer, with a leading `-` when negative.
pub open spec fn signed_decimal(v: int) -> Seq<char> {
    if v < 0 { seq!['-'] + decimal((-v) as nat) } else { decimal(v as nat) }
}

fn digit(d: u64) -> (c: char)
    requires
        d < 10,
    ensures
        c == digit_char(d as nat),
{
    if d == 0 { '0' }
    else if d == 1 { '1' }
    else if d == 2 { '2' }
    else if d == 3 { '3' }
    else if d == 4 { '4' }
    else if d == 5 { '5' }
    else if d == 6 { '6' }
    else if d == 7 { '7' }
    else if d == 8 { '8' }
    else { '9' }
}

/// Appends the base-ten digits of `n`.
pub fn push_decimal(s: &mut String, n: u64)
    ensures
        final(s)@ == old(s)@ + decimal(n as nat),
    decreases n,
{
    if n >= 10 {
        push_decimal(s, n / 10);
        s.push(digit(n % 10));
        assert(final(s)@ =~= old(s)@ + decimal(n as nat));
    } else {
        s.push(digit(n));
        assert(final(s)@ =~= old(s)@ + decimal(n as nat));
    }
}

/// Base-ten text of a signed integer.
pub fn integer_text(v: i64) -> (r: String)
    ensures
        r@ == signed_decimal(v as int),
{
    let mut s = String::new();
    if v < 0 {
        s.push('-');
        let magnitude: u64 = (-(v as i128)) as u64;
        push_decimal(&mut s, magnitude);
    } else {
        push_decimal(&mut s, v as u64);
    }
    assert(s@ =~= signed_decimal(v as int));
    s
}

/// Digits grouped by threes from the right, groups separated by commas.
pub open spec fn grouped(d: Seq<char>) -> Seq<char>
    decreases d.len(),
{
    if d.len() <= 3 {
        d
    } else {
        grouped(d.subrange(0, d.len() - 3)) + seq![','] + d.subrange(d.len() - 3, d.len() as int)
    }
}

/// A count for display: its digits grouped by threes, after a `-` when
/// negative.
pub open spec fn grouped_number(n: int) -> Seq<char> {
    if n < 0 { seq!['-'] + grouped(decimal((-n) as nat)) } else { grouped(decimal(n as nat)) }
}

fn decimal_chars(v: &mut Vec<char>, n: u64)
    ensures
        final(v)@ == old(v)@ + decimal(n as nat),
    decreases n,
{
    if n >= 10 {
        decimal_chars(v, n / 10);
        v.push(digit(n % 10));
    } else {
        v.push(digit(n));
    }
    assert(final(v)@ =~= old(v)@ + decimal(n as nat));
}

fn push_grouped(s: &mut String, d: &Vec<char>, len: usize)
    requires
        len <= d@.len(),
    ensures
        final(s)@ == old(s)@ + grouped(d@.subrange(0, len as int)),
    decreases len,
{
    let ghost prefix = d@.subrange(0, len as int);
    let tail: usize = if len <= 3 {
        0
    } else {
        push_grouped(s, d, len - 3);
        s.push(',');
        len - 3
    };
    let ghost before_tail = s@;
    let mut i: usize = tail;
    while i < len
        invariant
            tail <= i <= len,
            len <= d@.len(),
            s@ == before_tail + d@.subrange(tail as int, i as int),
        decreases len - i,
    {
        s.push(d[i]);
        assert(d@.subrange(tail as int, i + 1) =~= d@.subrange(tail as int, i as int).push(d@[i as int]));
        i += 1;
    }
    if len > 3 {
        assert(prefix.subrange(0, prefix.len() - 3) =~= d@.subrange(0, len - 3));
        assert(prefix.subrange(prefix.len() - 3, prefix.len() as int) =~= d@.subrange(len - 3, len as int));
        assert(final(s)@ =~= old(s)@ + grouped(prefix));
    } else {
        assert(final(s)@ =~= old(s)@ + grouped(prefix));
    }
}

/// Renders a count with thousands separators, as in `1,234,567`.
pub fn format_number(n: i64) -> (r: String)
    ensures
        r@ == grouped_number(n as int),
{
    let mut digits: Vec<char> = Vec::new();
    let magnitude: u64 = if n < 0 { (-(n as i128)) as u64 } else { n as u64 };
    decimal_chars(&mut digits, magnitude);
    assert(digits@ =~= decimal(magnitude as nat));
    let mut s = String::new();
    if n < 0 {
        s.push('-');
    }
    push_grouped(&mut s, &digits, digits.len());
    assert(digits@.subrange(0, digits@.len() as int) =~= digits@);
    assert(s@ =~= grouped_number(n as int));
    s
}

} // verus!
