use vstd::arithmetic::div_mod::{
    lemma_div_is_ordered, lemma_fundamental_div_mod, lemma_mod_division_less_than_divisor,
};
use vstd::prelude::*;
use vstd::string::StringExecFns;
use vstd::utf8::{is_ascii_chars, is_ascii_chars_encode_utf8};

use chrono::{Datelike, Timelike};

use crate::compression::{spec_extension, CompressionAlgorithm};
use crate::order::{
    lemma_lex_le_antisym, lemma_lex_lt_append, lemma_lex_lt_prefix, lex_le, lex_lt, name_key,
};

verus! {

/// A calendar timestamp as plain fields, the identity of one backup.
///
/// Backups are named after their creation timestamp so that the lexical
/// order of archive names equals their chronological order.
#[derive(Clone, Copy, PartialEq, Eq, Structural, Debug)]
pub struct Timestamp {
    pub year: u32,
    pub month: u32,
    pub day: u32,
    pub hour: u32,
    pub minute: u32,
    pub second: u32,
}

impl Timestamp {
    /// Fields in the ranges the fixed-width name format can carry.
    pub open spec fn valid(&self) -> bool {
        &&& self.year <= 9999
        &&& 1 <= self.month <= 12
        &&& 1 <= self.day <= 31
        &&& self.hour <= 23
        &&& self.minute <= 59
        &&& self.second <= 59
    }

    /// Build a timestamp from clock fields; `None` exactly when a field
    /// is outside what the name format can carry.
    pub fn new(year: i32, month: u32, day: u32, hour: u32, minute: u32, second: u32) -> (r:
        Option<Timestamp>)
        ensures
            match r {
                Some(ts) => {
                    &&& ts == (Timestamp {
                        year: year as u32,
                        month,
                        day,
                        hour,
                        minute,
                        second,
                    })
                    &&& ts.valid()
                    &&& 0 <= year <= 9999
                },
                None => !(0 <= year <= 9999 && 1 <= month <= 12 && 1 <= day <= 31 && hour <= 23
                    && minute <= 59 && second <= 59),
            },
    {
        if 0 <= year && year <= 9999 && 1 <= month && month <= 12 && 1 <= day && day <= 31
            && hour <= 23 && minute <= 59 && second <= 59 {
            Some(Timestamp { year: year as u32, month, day, hour, minute, second })
        } else {
            None
        }
    }
}

/// The decimal digit character for a value below ten.
pub open spec fn digit_char(d: int) -> char {
    if d == 0 {
        '0'
    } else if d == 1 {
        '1'
    } else if d == 2 {
        '2'
    } else if d == 3 {
        '3'
    } else if d == 4 {
        '4'
    } else if d == 5 {
        '5'
    } else if d == 6 {
        '6'
    } else if d == 7 {
        '7'
    } else if d == 8 {
        '8'
    } else {
        '9'
    }
}

/// A value below one hundred as two digits, zero-padded.
pub open spec fn two_digits(n: int) -> Seq<char> {
    seq![digit_char(n / 10), digit_char(n % 10)]
}

/// A value below ten thousand as four digits, zero-padded: its hundreds
/// as two digits, then its remainder as two digits.
pub open spec fn four_digits(n: int) -> Seq<char> {
    two_digits(n / 100) + two_digits(n % 100)
}

/// The backup name of a timestamp: fixed-width, lexically sortable.
pub open spec fn spec_timestamp_name(ts: Timestamp) -> Seq<char> {
    four_digits(ts.year as int) + "-"@ + two_digits(ts.month as int) + "-"@ + two_digits(
        ts.day as int,
    ) + "_"@ + two_digits(ts.hour as int) + "-"@ + two_digits(ts.minute as int) + "-"@
        + two_digits(ts.second as int)
}

/// The digit character of a value below ten, as a one-character string.
fn digit_str(d: u32) -> (r: &'static str)
    requires
        d < 10,
    ensures
        r@ == seq![digit_char(d as int)],
{
    proof {
        reveal_strlit("0");
        reveal_strlit("1");
        reveal_strlit("2");
        reveal_strlit("3");
        reveal_strlit("4");
        reveal_strlit("5");
        reveal_strlit("6");
        reveal_strlit("7");
        reveal_strlit("8");
        reveal_strlit("9");
    }
    if d == 0 {
        "0"
    } else if d == 1 {
        "1"
    } else if d == 2 {
        "2"
    } else if d == 3 {
        "3"
    } else if d == 4 {
        "4"
    } else if d == 5 {
        "5"
    } else if d == 6 {
        "6"
    } else if d == 7 {
        "7"
    } else if d == 8 {
        "8"
    } else {
        "9"
    }
}

/// Append a value below one hundred as two zero-padded digits.
fn push_two_digits(s: &mut String, n: u32)
    requires
        n < 100,
    ensures
        final(s)@ == old(s)@ + two_digits(n as int),
{
    s.append(digit_str(n / 10));
    s.append(digit_str(n % 10));
    proof {
        assert(final(s)@ =~= old(s)@ + two_digits(n as int));
    }
}

/// Append a value below ten thousand as four zero-padded digits.
fn push_four_digits(s: &mut String, n: u32)
    requires
        n < 10000,
    ensures
        final(s)@ == old(s)@ + four_digits(n as int),
{
    push_two_digits(s, n / 100);
    push_two_digits(s, n % 100);
    proof {
        assert(final(s)@ =~= old(s)@ + four_digits(n as int));
    }
}

/// The name of the backup taken at `ts`: `YYYY-MM-DD_HH-MM-SS`.
pub fn timestamp_name(ts: &Timestamp) -> (r: String)
    requires
        ts.valid(),
    ensures
        r@ == spec_timestamp_name(*ts),
{
    let mut s = String::new();
    push_four_digits(&mut s, ts.year);
    s.append("-");
    push_two_digits(&mut s, ts.month);
    s.append("-");
    push_two_digits(&mut s, ts.day);
    s.append("_");
    push_two_digits(&mut s, ts.hour);
    s.append("-");
    push_two_digits(&mut s, ts.minute);
    s.append("-");
    push_two_digits(&mut s, ts.second);
    proof {
        assert(s@ =~= spec_timestamp_name(*ts));
    }
    s
}

/// The file name of the backup taken at `ts`: the timestamp name with the
/// algorithm's extension.
pub fn backup_file_name(ts: &Timestamp, algorithm: CompressionAlgorithm) -> (r: String)
    requires
        ts.valid(),
    ensures
        r@ == spec_timestamp_name(*ts) + spec_extension(algorithm),
{
    let mut s = timestamp_name(ts);
    let ext = algorithm.extension();
    s.append(ext.as_str());
    s
}

/// Strict chronological order on timestamps: the first differing field
/// decides, from year down to second.
pub open spec fn spec_chronological_lt(a: Timestamp, b: Timestamp) -> bool {
    if a.year != b.year {
        a.year < b.year
    } else if a.month != b.month {
        a.month < b.month
    } else if a.day != b.day {
        a.day < b.day
    } else if a.hour != b.hour {
        a.hour < b.hour
    } else if a.minute != b.minute {
        a.minute < b.minute
    } else {
        a.second < b.second
    }
}

spec fn digit_byte(d: int) -> u8 {
    digit_char(d) as u8
}

spec fn two_digit_bytes(n: int) -> Seq<u8> {
    seq![digit_byte(n / 10), digit_byte(n % 10)]
}

/// The UTF-8 bytes of a timestamp name, piece by piece; 45 is `-`, 95 `_`.
spec fn name_bytes(ts: Timestamp) -> Seq<u8> {
    two_digit_bytes(ts.year as int / 100) + two_digit_bytes(ts.year as int % 100) + seq![45u8]
        + two_digit_bytes(ts.month as int) + seq![45u8] + two_digit_bytes(ts.day as int)
        + seq![95u8] + two_digit_bytes(ts.hour as int) + seq![45u8] + two_digit_bytes(
        ts.minute as int,
    ) + seq![45u8] + two_digit_bytes(ts.second as int)
}

proof fn lemma_digit_byte_is_offset(d: int)
    requires
        0 <= d <= 9,
    ensures
        digit_byte(d) == 48 + d,
{
}

proof fn lemma_two_digit_bytes_lt(n1: int, n2: int)
    requires
        0 <= n1 < n2 < 100,
    ensures
        lex_lt(two_digit_bytes(n1), two_digit_bytes(n2)),
{
    lemma_div_is_ordered(n1, n2, 10);
    lemma_fundamental_div_mod(n1, 10);
    lemma_fundamental_div_mod(n2, 10);
    lemma_mod_division_less_than_divisor(n1, 10);
    lemma_mod_division_less_than_divisor(n2, 10);
    assert(0 <= n1 / 10 <= 9);
    assert(0 <= n2 / 10 <= 9);
    lemma_digit_byte_is_offset(n1 / 10);
    lemma_digit_byte_is_offset(n2 / 10);
    lemma_digit_byte_is_offset(n1 % 10);
    lemma_digit_byte_is_offset(n2 % 10);
    let a = two_digit_bytes(n1);
    let b = two_digit_bytes(n2);
    if n1 / 10 < n2 / 10 {
        assert(a[0] < b[0]);
        assert(lex_lt(a, b)) by {
            assert(lex_le(a, b));
            if a == b {
                assert(a[0] == b[0]);
            }
        }
    } else {
        assert(n1 / 10 == n2 / 10);
        assert(n1 % 10 < n2 % 10);
        assert(a[0] == b[0]);
        assert(a.drop_first() =~= seq![digit_byte(n1 % 10)]);
        assert(b.drop_first() =~= seq![digit_byte(n2 % 10)]);
        assert(lex_le(a.drop_first(), b.drop_first())) by {
            assert(a.drop_first()[0] < b.drop_first()[0]);
        }
        assert(lex_lt(a, b)) by {
            assert(lex_le(a, b));
            if a == b {
                assert(a[1] == b[1]);
            }
        }
    }
}

proof fn lemma_four_digit_bytes_lt(n1: int, n2: int)
    requires
        0 <= n1 < n2 <= 9999,
    ensures
        lex_lt(
            two_digit_bytes(n1 / 100) + two_digit_bytes(n1 % 100),
            two_digit_bytes(n2 / 100) + two_digit_bytes(n2 % 100),
        ),
{
    lemma_div_is_ordered(n1, n2, 100);
    lemma_fundamental_div_mod(n1, 100);
    lemma_fundamental_div_mod(n2, 100);
    lemma_mod_division_less_than_divisor(n1, 100);
    lemma_mod_division_less_than_divisor(n2, 100);
    assert(0 <= n1 / 100 <= 99);
    assert(0 <= n2 / 100 <= 99);
    assert(0 <= n1 % 100 <= 99);
    assert(0 <= n2 % 100 <= 99);
    if n1 / 100 < n2 / 100 {
        lemma_two_digit_bytes_lt(n1 / 100, n2 / 100);
        lemma_lex_lt_append(
            two_digit_bytes(n1 / 100),
            two_digit_bytes(n2 / 100),
            two_digit_bytes(n1 % 100),
            two_digit_bytes(n2 % 100),
        );
    } else {
        assert(n1 / 100 == n2 / 100);
        assert(n1 % 100 < n2 % 100);
        lemma_two_digit_bytes_lt(n1 % 100, n2 % 100);
        lemma_lex_lt_prefix(
            two_digit_bytes(n1 / 100),
            two_digit_bytes(n1 % 100),
            two_digit_bytes(n2 % 100),
        );
    }
}

proof fn lemma_name_key_bytes(ts: Timestamp)
    requires
        ts.valid(),
    ensures
        name_key(spec_timestamp_name(ts)) == name_bytes(ts),
        is_ascii_chars(spec_timestamp_name(ts)),
        spec_timestamp_name(ts).len() == 19,
        name_key(spec_timestamp_name(ts)).len() == 19,
{
    reveal_strlit("-");
    reveal_strlit("_");
    let name = spec_timestamp_name(ts);
    assert(forall|d: int| '\0' <= #[trigger] digit_char(d) <= '\u{7f}');
    assert(name.len() == 19);
    assert(is_ascii_chars(name)) by {
        assert forall|i: int| 0 <= i < name.len() implies '\0' <= #[trigger] name[i]
            <= '\u{7f}' by {
            assert(name[i] == name_char_at(ts, i));
        }
    }
    is_ascii_chars_encode_utf8(name);
    assert(name_key(name) =~= name_bytes(ts)) by {
        assert forall|i: int| 0 <= i < 19 implies name_key(name)[i] == name_bytes(ts)[i] by {
            assert(name[i] == name_char_at(ts, i));
            assert(name_key(name)[i] == name[i] as u8);
        }
    }
}

/// The character of a timestamp name at each of its nineteen positions.
spec fn name_char_at(ts: Timestamp, i: int) -> char {
    let y = ts.year as int;
    let mo = ts.month as int;
    let d = ts.day as int;
    let h = ts.hour as int;
    let mi = ts.minute as int;
    let s = ts.second as int;
    if i == 0 {
        digit_char(y / 100 / 10)
    } else if i == 1 {
        digit_char(y / 100 % 10)
    } else if i == 2 {
        digit_char(y % 100 / 10)
    } else if i == 3 {
        digit_char(y % 100 % 10)
    } else if i == 4 {
        '-'
    } else if i == 5 {
        digit_char(mo / 10)
    } else if i == 6 {
        digit_char(mo % 10)
    } else if i == 7 {
        '-'
    } else if i == 8 {
        digit_char(d / 10)
    } else if i == 9 {
        digit_char(d % 10)
    } else if i == 10 {
        '_'
    } else if i == 11 {
        digit_char(h / 10)
    } else if i == 12 {
        digit_char(h % 10)
    } else if i == 13 {
        '-'
    } else if i == 14 {
        digit_char(mi / 10)
    } else if i == 15 {
        digit_char(mi % 10)
    } else if i == 16 {
        '-'
    } else if i == 17 {
        digit_char(s / 10)
    } else {
        digit_char(s % 10)
    }
}

proof fn lemma_chrono_implies_name_bytes_lt(a: Timestamp, b: Timestamp)
    requires
        a.valid(),
        b.valid(),
        spec_chronological_lt(a, b),
    ensures
        lex_lt(name_bytes(a), name_bytes(b)),
{
    let sep: Seq<u8> = seq![45u8];
    let usep: Seq<u8> = seq![95u8];
    let ya = a.year as int;
    let yb = b.year as int;
    let year_a = two_digit_bytes(ya / 100) + two_digit_bytes(ya % 100);
    let year_b = two_digit_bytes(yb / 100) + two_digit_bytes(yb % 100);
    let rest_a = sep + two_digit_bytes(a.month as int) + sep + two_digit_bytes(a.day as int)
        + usep + two_digit_bytes(a.hour as int) + sep + two_digit_bytes(a.minute as int) + sep
        + two_digit_bytes(a.second as int);
    let rest_b = sep + two_digit_bytes(b.month as int) + sep + two_digit_bytes(b.day as int)
        + usep + two_digit_bytes(b.hour as int) + sep + two_digit_bytes(b.minute as int) + sep
        + two_digit_bytes(b.second as int);
    assert(name_bytes(a) =~= year_a + rest_a);
    assert(name_bytes(b) =~= year_b + rest_b);
    if a.year != b.year {
        lemma_four_digit_bytes_lt(ya, yb);
        assert(year_a.len() == year_b.len());
        lemma_lex_lt_append(year_a, year_b, rest_a, rest_b);
    } else if a.month != b.month {
        let p = year_a + sep;
        let tail_a = sep + two_digit_bytes(a.day as int) + usep + two_digit_bytes(a.hour as int)
            + sep + two_digit_bytes(a.minute as int) + sep + two_digit_bytes(a.second as int);
        let tail_b = sep + two_digit_bytes(b.day as int) + usep + two_digit_bytes(b.hour as int)
            + sep + two_digit_bytes(b.minute as int) + sep + two_digit_bytes(b.second as int);
        lemma_two_digit_bytes_lt(a.month as int, b.month as int);
        lemma_lex_lt_append(
            two_digit_bytes(a.month as int),
            two_digit_bytes(b.month as int),
            tail_a,
            tail_b,
        );
        lemma_lex_lt_prefix(
            p,
            two_digit_bytes(a.month as int) + tail_a,
            two_digit_bytes(b.month as int) + tail_b,
        );
        assert(name_bytes(a) =~= p + (two_digit_bytes(a.month as int) + tail_a));
        assert(name_bytes(b) =~= p + (two_digit_bytes(b.month as int) + tail_b));
    } else if a.day != b.day {
        let p = year_a + sep + two_digit_bytes(a.month as int) + sep;
        let tail_a = usep + two_digit_bytes(a.hour as int) + sep + two_digit_bytes(
            a.minute as int,
        ) + sep + two_digit_bytes(a.second as int);
        let tail_b = usep + two_digit_bytes(b.hour as int) + sep + two_digit_bytes(
            b.minute as int,
        ) + sep + two_digit_bytes(b.second as int);
        lemma_two_digit_bytes_lt(a.day as int, b.day as int);
        lemma_lex_lt_append(
            two_digit_bytes(a.day as int),
            two_digit_bytes(b.day as int),
            tail_a,
            tail_b,
        );
        lemma_lex_lt_prefix(
            p,
            two_digit_bytes(a.day as int) + tail_a,
            two_digit_bytes(b.day as int) + tail_b,
        );
        assert(name_bytes(a) =~= p + (two_digit_bytes(a.day as int) + tail_a));
        assert(name_bytes(b) =~= p + (two_digit_bytes(b.day as int) + tail_b));
    } else if a.hour != b.hour {
        let p = year_a + sep + two_digit_bytes(a.month as int) + sep + two_digit_bytes(
            a.day as int,
        ) + usep;
        let tail_a = sep + two_digit_bytes(a.minute as int) + sep + two_digit_bytes(
            a.second as int,
        );
        let tail_b = sep + two_digit_bytes(b.minute as int) + sep + two_digit_bytes(
            b.second as int,
        );
        lemma_two_digit_bytes_lt(a.hour as int, b.hour as int);
        lemma_lex_lt_append(
            two_digit_bytes(a.hour as int),
            two_digit_bytes(b.hour as int),
            tail_a,
            tail_b,
        );
        lemma_lex_lt_prefix(
            p,
            two_digit_bytes(a.hour as int) + tail_a,
            two_digit_bytes(b.hour as int) + tail_b,
        );
        assert(name_bytes(a) =~= p + (two_digit_bytes(a.hour as int) + tail_a));
        assert(name_bytes(b) =~= p + (two_digit_bytes(b.hour as int) + tail_b));
    } else if a.minute != b.minute {
        let p = year_a + sep + two_digit_bytes(a.month as int) + sep + two_digit_bytes(
            a.day as int,
        ) + usep + two_digit_bytes(a.hour as int) + sep;
        let tail_a = sep + two_digit_bytes(a.second as int);
        let tail_b = sep + two_digit_bytes(b.second as int);
        lemma_two_digit_bytes_lt(a.minute as int, b.minute as int);
        lemma_lex_lt_append(
            two_digit_bytes(a.minute as int),
            two_digit_bytes(b.minute as int),
            tail_a,
            tail_b,
        );
        lemma_lex_lt_prefix(
            p,
            two_digit_bytes(a.minute as int) + tail_a,
            two_digit_bytes(b.minute as int) + tail_b,
        );
        assert(name_bytes(a) =~= p + (two_digit_bytes(a.minute as int) + tail_a));
        assert(name_bytes(b) =~= p + (two_digit_bytes(b.minute as int) + tail_b));
    } else {
        let p = year_a + sep + two_digit_bytes(a.month as int) + sep + two_digit_bytes(
            a.day as int,
        ) + usep + two_digit_bytes(a.hour as int) + sep + two_digit_bytes(a.minute as int) + sep;
        lemma_two_digit_bytes_lt(a.second as int, b.second as int);
        lemma_lex_lt_prefix(
            p,
            two_digit_bytes(a.second as int),
            two_digit_bytes(b.second as int),
        );
        assert(name_bytes(a) =~= p + two_digit_bytes(a.second as int));
        assert(name_bytes(b) =~= p + two_digit_bytes(b.second as int));
    }
}

/// The data-model invariant of backup names: for timestamps the name
/// format can carry, the lexical byte order of their names is exactly
/// chronological order, so sorting archives by name sorts them by age.
pub proof fn lemma_name_order_is_chronological(a: Timestamp, b: Timestamp)
    requires
        a.valid(),
        b.valid(),
    ensures
        spec_chronological_lt(a, b) <==> lex_lt(
            name_key(spec_timestamp_name(a)),
            name_key(spec_timestamp_name(b)),
        ),
{
    lemma_name_key_bytes(a);
    lemma_name_key_bytes(b);
    let ka = name_key(spec_timestamp_name(a));
    let kb = name_key(spec_timestamp_name(b));
    if spec_chronological_lt(a, b) {
        lemma_chrono_implies_name_bytes_lt(a, b);
    }
    if lex_lt(ka, kb) && !spec_chronological_lt(a, b) {
        if spec_chronological_lt(b, a) {
            lemma_chrono_implies_name_bytes_lt(b, a);
            lemma_lex_le_antisym(ka, kb);
            assert(false);
        } else {
            assert(a == b);
            assert(false);
        }
    }
}

/// The same invariant for full archive file names: with one algorithm's
/// extension appended to both, the byte order of the file names is still
/// exactly chronological order. This is the fact the retention engine
/// rests on when it sorts a backup directory listing by name.
pub proof fn lemma_file_name_order_is_chronological(
    a: Timestamp,
    b: Timestamp,
    alg: CompressionAlgorithm,
)
    requires
        a.valid(),
        b.valid(),
        spec_chronological_lt(a, b),
    ensures
        lex_lt(
            name_key(spec_timestamp_name(a) + spec_extension(alg)),
            name_key(spec_timestamp_name(b) + spec_extension(alg)),
        ),
{
    reveal_strlit(".tar.gz");
    reveal_strlit(".tar.xz");
    let na = spec_timestamp_name(a);
    let nb = spec_timestamp_name(b);
    let ext = spec_extension(alg);
    lemma_name_key_bytes(a);
    lemma_name_key_bytes(b);
    lemma_name_order_is_chronological(a, b);
    assert(is_ascii_chars(ext)) by {
        assert forall|i: int| 0 <= i < ext.len() implies '\0' <= #[trigger] ext[i]
            <= '\u{7f}' by {}
    }
    lemma_ascii_key_concat(na, ext);
    lemma_ascii_key_concat(nb, ext);
    lemma_lex_lt_append(name_key(na), name_key(nb), name_key(ext), name_key(ext));
}

/// For ASCII sequences, the UTF-8 key of a concatenation is the
/// concatenation of the keys.
proof fn lemma_ascii_key_concat(x: Seq<char>, y: Seq<char>)
    requires
        is_ascii_chars(x),
        is_ascii_chars(y),
    ensures
        name_key(x + y) == name_key(x) + name_key(y),
{
    assert(is_ascii_chars(x + y)) by {
        assert forall|i: int| 0 <= i < (x + y).len() implies '\0' <= #[trigger] (x + y)[i]
            <= '\u{7f}' by {
            if i < x.len() {
                assert((x + y)[i] == x[i]);
            } else {
                assert((x + y)[i] == y[i - x.len()]);
            }
        }
    }
    is_ascii_chars_encode_utf8(x);
    is_ascii_chars_encode_utf8(y);
    is_ascii_chars_encode_utf8(x + y);
    assert(name_key(x + y) =~= name_key(x) + name_key(y)) by {
        assert forall|i: int| 0 <= i < (x + y).len() implies name_key(x + y)[i] == (name_key(x)
            + name_key(y))[i] by {
            if i < x.len() {
                assert((x + y)[i] == x[i]);
            } else {
                assert((x + y)[i] == y[i - x.len()]);
            }
        }
    }
}

/// Relies on chrono::Local::now with the Datelike and Timelike accessors:
/// month runs 1..=12, day 1..=31, hour 0..=23, minute and second 0..=59
/// (a leap second is carried in the sub-second field, not here). The year
/// is whatever the clock says.
#[verifier::external_body]
fn clock_now() -> (r: (i32, u32, u32, u32, u32, u32))
    ensures
        1 <= r.1 <= 12,
        1 <= r.2 <= 31,
        r.3 <= 23,
        r.4 <= 59,
        r.5 <= 59,
{
    let now = chrono::Local::now();
    (now.year(), now.month(), now.day(), now.hour(), now.minute(), now.second())
}

/// Read the local clock as a timestamp. Whatever the clock returned, a
/// `Some` result is valid; `None` comes only from a year outside the
/// four-digit name format.
pub fn current_timestamp() -> (r: Option<Timestamp>)
    ensures
        r matches Some(ts) ==> ts.valid(),
{
    let (year, month, day, hour, minute, second) = clock_now();
    Timestamp::new(year, month, day, hour, minute, second)
}

} // verus!
