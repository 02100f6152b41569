//! Text building blocks for the human-readable and machine-readable
//! reports: decimal rendering, locale digit grouping, label padding,
//! session-identifier substitution and JSON string escaping.

use vstd::prelude::*;

verus! {

pub open spec fn spec_digit(d: int) -> char {
    if d == 0 {
        '0'
    } else if d == 1 {
        '1'
    } else if d == 2 {
        '2'
    } else if d == 3 {
        '3'
    } else if d == 4 {
        '4'
    } else if d == 5 {
        '5'
    } else if d == 6 {
        '6'
    } else if d == 7 {
        '7'
    } else if d == 8 {
        '8'
    } else {
        '9'
    }
}

/// The decimal digits of a non-negative number, most significant first.
pub open spec fn spec_decimal(n: int) -> Seq<char>
    decreases n,
{
    if n < 10 {
        seq![spec_digit(n)]
    } else {
        spec_decimal(n / 10).push(spec_digit(n % 10))
    }
}

/// Decimal digits of a signed number: a minus sign ahead of the digits of
/// its magnitude.
pub open spec fn spec_decimal_signed(n: int) -> Seq<char> {
    if n < 0 {
        seq!['-'] + spec_decimal(-n)
    } else {
        spec_decimal(n)
    }
}

/// Digits separated by commas into groups of three from the right, the
/// grouping of the `en` locale.
pub open spec fn spec_grouped(d: Seq<char>) -> Seq<char>
    decreases d.len(),
{
    if d.len() <= 3 {
        d
    } else {
        spec_grouped(d.take(d.len() - 3)) + seq![','] + d.skip(d.len() - 3)
    }
}

pub open spec fn spec_spaces(n: int) -> Seq<char>
    decreases n,
{
    if n <= 0 {
        Seq::<char>::empty()
    } else {
        spec_spaces(n - 1).push(' ')
    }
}

/// A label padded with spaces on the right to 20 characters, the column
/// width of the textual report.
pub open spec fn spec_pad20(s: Seq<char>) -> Seq<char> {
    if s.len() >= 20 {
        s
    } else {
        s + spec_spaces(20 - s.len())
    }
}

fn digit_str(d: u64) -> (r: &'static str)
    requires
        d < 10,
    ensures
        r@ == seq![spec_digit(d as int)],
{
    proof {
        reveal_strlit("0");
        reveal_strlit("1");
        reveal_strlit("2");
        reveal_strlit("3");
        reveal_strlit("4");
        reveal_strlit("5");
        reveal_strlit("6");
        reveal_strlit("7");
        reveal_strlit("8");
        reveal_strlit("9");
    }
    let r = match d {
        0 => "0",
        1 => "1",
        2 => "2",
        3 => "3",
        4 => "4",
        5 => "5",
        6 => "6",
        7 => "7",
        8 => "8",
        _ => "9",
    };
    proof {
        assert(r@ =~= seq![spec_digit(d as int)]);
    }
    r
}

/// The decimal text of `n`, without any grouping.
pub fn decimal_u128(n: u128) -> (s: String)
    ensures
        s@ == spec_decimal(n as int),
    decreases n,
{
    if n < 10 {
        digit_str(n as u64).to_owned()
    } else {
        let mut s = decimal_u128(n / 10);
        let d = digit_str((n % 10) as u64);
        s.append(d);
        proof {
            assert(spec_decimal((n / 10) as int).push(spec_digit((n % 10) as int)) =~= spec_decimal(
                (n / 10) as int,
            ) + seq![spec_digit((n % 10) as int)]);
        }
        s
    }
}

/// The decimal text of a signed code, as the error histogram prints it.
pub fn decimal_i32(n: i32) -> (s: String)
    ensures
        s@ == spec_decimal_signed(n as int),
{
    let wide: i64 = n as i64;
    if wide < 0 {
        proof {
            reveal_strlit("-");
        }
        let mut s = String::from_str("-");
        let mag: u128 = (-wide) as u128;
        let d = decimal_u128(mag);
        s.append(d.as_str());
        proof {
            assert(s@ =~= seq!['-'] + spec_decimal(mag as int));
        }
        s
    } else {
        decimal_u128(wide as u128)
    }
}

/// Relies on `num_format::ToFormattedString::to_formatted_string` with
/// `Locale::en`: the decimal digits of `n` with a comma between groups of
/// three, counted from the right — the locale's standard grouping.
#[verifier::external_body]
fn en_grouped(n: u128) -> (r: String)
    ensures
        r@ == spec_grouped(spec_decimal(n as int)),
{
    num_format::ToFormattedString::to_formatted_string(&n, &num_format::Locale::en)
}

/// The number as the report prints it: grouped by the `en` locale.
pub fn format_grouped_number(n: u128) -> (r: String)
    ensures
        r@ == spec_grouped(spec_decimal(n as int)),
{
    en_grouped(n)
}

/// A fixed-point rate in hundredths, printed with two decimals.
pub fn format_centi(n: u128) -> (r: String)
    ensures
        r@ == spec_decimal((n / 100) as int) + seq!['.'] + seq![spec_digit((n / 10 % 10) as int)]
            + seq![spec_digit((n % 10) as int)],
{
    let mut s = decimal_u128(n / 100);
    proof {
        reveal_strlit(".");
    }
    s.append(".");
    s.append(digit_str((n / 10 % 10) as u64));
    s.append(digit_str((n % 10) as u64));
    proof {
        assert(s@ =~= spec_decimal((n / 100) as int) + seq!['.'] + seq![spec_digit(
            (n / 10 % 10) as int,
        )] + seq![spec_digit((n % 10) as int)]);
    }
    s
}

/// The label padded to the 20-character report column.
pub fn pad20(s: &str) -> (r: String)
    ensures
        r@ == spec_pad20(s@),
{
    let mut out = s.to_owned();
    let n = s.unicode_len();
    if n >= 20 {
        return out;
    }
    let mut len: usize = n;
    proof {
        reveal_strlit(" ");
        assert(out@ =~= s@ + spec_spaces(0));
    }
    while len < 20
        invariant
            s@.len() <= len <= 20,
            out@ == s@ + spec_spaces(len - s@.len()),
        decreases 20 - len,
    {
        out.append(" ");
        proof {
            reveal_strlit(" ");
            assert(" "@ =~= seq![' ']);
            assert((s@ + spec_spaces(len - s@.len())) + seq![' '] =~= s@ + spec_spaces(
                len + 1 - s@.len(),
            ));
        }
        len = len + 1;
    }
    out
}

pub open spec fn spec_hex_digit(d: int) -> char {
    if d < 10 {
        spec_digit(d)
    } else if d == 10 {
        'a'
    } else if d == 11 {
        'b'
    } else if d == 12 {
        'c'
    } else if d == 13 {
        'd'
    } else if d == 14 {
        'e'
    } else {
        'f'
    }
}

/// How one character appears inside a JSON string literal: quote and
/// backslash escaped, the named control escapes, other control characters
/// as a `\u00XX` sequence, everything else verbatim.
pub open spec fn spec_json_char(c: char) -> Seq<char> {
    if c == '"' {
        seq!['\\', '"']
    } else if c == '\\' {
        seq!['\\', '\\']
    } else if c == '\u{8}' {
        seq!['\\', 'b']
    } else if c == '\t' {
        seq!['\\', 't']
    } else if c == '\n' {
        seq!['\\', 'n']
    } else if c == '\u{c}' {
        seq!['\\', 'f']
    } else if c == '\r' {
        seq!['\\', 'r']
    } else if (c as int) < 0x20 {
        seq!['\\', 'u', '0', '0', spec_hex_digit(c as int / 16), spec_hex_digit(c as int % 16)]
    } else {
        seq![c]
    }
}

/// A whole string escaped for a JSON string literal.
pub open spec fn spec_json_escaped(s: Seq<char>) -> Seq<char>
    decreases s.len(),
{
    if s.len() == 0 {
        Seq::<char>::empty()
    } else {
        spec_json_char(s[0]) + spec_json_escaped(s.drop_first())
    }
}

pub proof fn lemma_json_escaped_push(t: Seq<char>, c: char)
    ensures
        spec_json_escaped(t.push(c)) == spec_json_escaped(t) + spec_json_char(c),
    decreases t.len(),
{
    let r = t.push(c);
    if t.len() == 0 {
        assert(r.drop_first() =~= Seq::<char>::empty());
        assert(r[0] == c);
        assert(r.len() == 1);
        assert(spec_json_escaped(r) == spec_json_char(r[0]) + spec_json_escaped(r.drop_first()));
        assert(spec_json_escaped(Seq::<char>::empty()) =~= Seq::<char>::empty());
        assert(spec_json_escaped(r) =~= spec_json_char(c));
        assert(spec_json_escaped(t) + spec_json_char(c) =~= spec_json_char(c));
    } else {
        assert(r.drop_first() =~= t.drop_first().push(c));
        assert(r[0] == t[0]);
        lemma_json_escaped_push(t.drop_first(), c);
        assert(spec_json_char(t[0]) + (spec_json_escaped(t.drop_first()) + spec_json_char(c)) =~= (
        spec_json_char(t[0]) + spec_json_escaped(t.drop_first())) + spec_json_char(c));
    }
}

fn hex_digit_str(d: u32) -> (r: &'static str)
    requires
        d < 16,
    ensures
        r@ == seq![spec_hex_digit(d as int)],
{
    if d < 10 {
        digit_str(d as u64)
    } else {
        proof {
            reveal_strlit("a");
            reveal_strlit("b");
            reveal_strlit("c");
            reveal_strlit("d");
            reveal_strlit("e");
            reveal_strlit("f");
        }
        let r = match d {
            10 => "a",
            11 => "b",
            12 => "c",
            13 => "d",
            14 => "e",
            _ => "f",
        };
        proof {
            assert(r@ =~= seq![spec_hex_digit(d as int)]);
        }
        r
    }
}

/// The body of a JSON string literal for `s` (without the surrounding
/// quotes).
pub fn json_escape(s: &str) -> (r: String)
    ensures
        r@ == spec_json_escaped(s@),
{
    let n = s.unicode_len();
    let mut out = String::new();
    let mut i: usize = 0;
    proof {
        assert(s@.take(0) =~= Seq::<char>::empty());
    }
    while i < n
        invariant
            n == s@.len(),
            0 <= i <= n,
            out@ == spec_json_escaped(s@.take(i as int)),
        decreases n - i,
    {
        let c = s.get_char(i);
        if c == '"' {
            proof {
                reveal_strlit("\\\"");
            }
            out.append("\\\"");
            proof {
                assert("\\\""@ =~= spec_json_char(c));
            }
        } else if c == '\\' {
            proof {
                reveal_strlit("\\\\");
            }
            out.append("\\\\");
            proof {
                assert("\\\\"@ =~= spec_json_char(c));
            }
        } else if c == '\u{8}' {
            proof {
                reveal_strlit("\\b");
            }
            out.append("\\b");
            proof {
                assert("\\b"@ =~= spec_json_char(c));
            }
        } else if c == '\t' {
            proof {
                reveal_strlit("\\t");
            }
            out.append("\\t");
            proof {
                assert("\\t"@ =~= spec_json_char(c));
            }
        } else if c == '\n' {
            proof {
                reveal_strlit("\\n");
            }
            out.append("\\n");
            proof {
                assert("\\n"@ =~= spec_json_char(c));
            }
        } else if c == '\u{c}' {
            proof {
                reveal_strlit("\\f");
            }
            out.append("\\f");
            proof {
                assert("\\f"@ =~= spec_json_char(c));
            }
        } else if c == '\r' {
            proof {
                reveal_strlit("\\r");
            }
            out.append("\\r");
            proof {
                assert("\\r"@ =~= spec_json_char(c));
            }
        } else if (c as u32) < 0x20 {
            proof {
                reveal_strlit("\\u00");
            }
            out.append("\\u00");
            out.append(hex_digit_str((c as u32) / 16));
            out.append(hex_digit_str((c as u32) % 16));
            proof {
                assert("\\u00"@ =~= seq!['\\', 'u', '0', '0']);
                assert(("\\u00"@ + seq![spec_hex_digit((c as u32) as int / 16)]) + seq![
                    spec_hex_digit((c as u32) as int % 16),
                ] =~= spec_json_char(c));
            }
        } else {
            let piece = s.substring_char(i, i + 1);
            out.append(piece);
            proof {
                assert(s@.subrange(i as int, i as int + 1) =~= seq![s@[i as int]]);
            }
        }
        proof {
            assert(s@.take(i as int + 1) =~= s@.take(i as int).push(s@[i as int]));
            lemma_json_escaped_push(s@.take(i as int), s@[i as int]);
        }
        i = i + 1;
    }
    proof {
        assert(s@.take(n as int) =~= s@);
    }
    out
}

/// The file-name token that stands for the run's session identifier.
pub open spec fn sid_pattern() -> Seq<char> {
    seq!['{', 's', 'e', 's', 's', 'i', 'o', 'n', '-', 'i', 'd', '}']
}

/// Every occurrence of the session-id token replaced by `sid`, scanning
/// left to right without overlap.
pub open spec fn spec_replace_sid(s: Seq<char>, sid: Seq<char>) -> Seq<char>
    decreases s.len(),
{
    if s.len() < 12 {
        s
    } else if s.take(12) == sid_pattern() {
        sid + spec_replace_sid(s.skip(12), sid)
    } else {
        seq![s[0]] + spec_replace_sid(s.drop_first(), sid)
    }
}

/// Replaces each `{session-id}` token in a file-name pattern with the
/// run's session identifier.
pub fn replace_session_id(s: &str, sid: &str) -> (r: String)
    ensures
        r@ == spec_replace_sid(s@, sid@),
{
    let n = s.unicode_len();
    let pat = String::from_str("{session-id}");
    proof {
        reveal_strlit("{session-id}");
        assert(pat@ =~= sid_pattern());
    }
    let mut out = String::new();
    let mut i: usize = 0;
    proof {
        assert(s@.skip(0) =~= s@);
        assert(out@ + spec_replace_sid(s@.skip(0), sid@) =~= spec_replace_sid(s@, sid@));
    }
    while n - i >= 12
        invariant
            n == s@.len(),
            0 <= i <= n,
            pat@ == sid_pattern(),
            out@ + spec_replace_sid(s@.skip(i as int), sid@) == spec_replace_sid(s@, sid@),
        decreases n - i,
    {
        let window = s.substring_char(i, i + 12).to_owned();
        if window == pat {
            out.append(sid);
            proof {
                assert(s@.skip(i as int).take(12) =~= s@.subrange(i as int, i as int + 12));
                assert(s@.skip(i as int).skip(12) =~= s@.skip(i as int + 12));
            }
            i = i + 12;
        } else {
            let piece = s.substring_char(i, i + 1);
            out.append(piece);
            proof {
                assert(s@.skip(i as int).take(12) =~= s@.subrange(i as int, i as int + 12));
                assert(s@.skip(i as int).drop_first() =~= s@.skip(i as int + 1));
                assert(s@.skip(i as int)[0] == s@[i as int]);
                assert(s@.subrange(i as int, i as int + 1) =~= seq![s@[i as int]]);
            }
            i = i + 1;
        }
    }
    let rest = s.substring_char(i, n);
    out.append(rest);
    proof {
        assert(s@.subrange(i as int, n as int) =~= s@.skip(i as int));
        assert(spec_replace_sid(s@.skip(i as int), sid@) == s@.skip(i as int));
    }
    out
}

} // verus!
