//! Decimal rendering and parsing of 64-bit integers, with exact
//! character-level specifications.

use vstd::prelude::*;

verus! {

use vstd::string::StringExecFns;

/// The decimal digit character for a value below ten.
pub open spec fn digit_char(d: int) -> char {
    if d == 0 {
        '0'
    } else if d == 1 {
        '1'
    } else if d == 2 {
        '2'
    } else if d == 3 {
        '3'
    } else if d == 4 {
        '4'
    } else if d == 5 {
        '5'
    } else if d == 6 {
        '6'
    } else if d == 7 {
        '7'
    } else if d == 8 {
        '8'
    } else {
        '9'
    }
}

/// The decimal digit characters of a natural number, most significant first,
/// with no leading zeros (a single `'0'` for zero).
pub open spec fn dec_digits(n: nat) -> Seq<char>
    decreases n,
{
    if n < 10 {
        seq![digit_char(n as int)]
    } else {
        dec_digits(n / 10).push(digit_char((n % 10) as int))
    }
}

/// The decimal rendering of an integer: a minus sign for negatives,
/// then the digits of the magnitude.
pub open spec fn dec_int(v: int) -> Seq<char> {
    if v < 0 {
        seq!['-'] + dec_digits((-v) as nat)
    } else {
        dec_digits(v as nat)
    }
}

/// The one-character string for a digit value.
pub(crate) fn digit_str(d: u8) -> (r: &'static str)
    requires
        d < 10,
    ensures
        r@ == seq![digit_char(d as int)],
{
    let r: &'static str = match d {
        0 => "0",
        1 => "1",
        2 => "2",
        3 => "3",
        4 => "4",
        5 => "5",
        6 => "6",
        7 => "7",
        8 => "8",
        _ => "9",
    };
    proof {
        reveal_strlit("0");
        reveal_strlit("1");
        reveal_strlit("2");
        reveal_strlit("3");
        reveal_strlit("4");
        reveal_strlit("5");
        reveal_strlit("6");
        reveal_strlit("7");
        reveal_strlit("8");
        reveal_strlit("9");
        assert(r@ =~= seq![digit_char(d as int)]);
    }
    r
}

/// Append the decimal digits of `n` to `out`.
fn push_dec_u64(n: u64, out: &mut String)
    ensures
        final(out)@ == old(out)@ + dec_digits(n as nat),
    decreases n,
{
    if n >= 10 {
        push_dec_u64(n / 10, out);
    }
    let d: u8 = (n % 10) as u8;
    out.append(digit_str(d));
    proof {
        assert(out@ =~= old(out)@ + dec_digits(n as nat));
    }
}

/// Whether a character is a decimal digit.
pub open spec fn is_dec_digit(c: char) -> bool {
    48 <= c as u32 && c as u32 <= 57
}

/// The value of a decimal digit character.
pub open spec fn digit_val(c: char) -> int {
    c as u32 - 48
}

/// Whether every character of the sequence is a decimal digit.
pub open spec fn all_digits(s: Seq<char>) -> bool {
    forall|i: int| 0 <= i < s.len() ==> is_dec_digit(s[i])
}

/// The value of a sequence of decimal digit characters, most significant
/// first.
pub open spec fn dec_val(s: Seq<char>) -> int
    decreases s.len(),
{
    if s.len() == 0 {
        0
    } else {
        dec_val(s.drop_last()) * 10 + digit_val(s.last())
    }
}

/// The digits of an integer string: everything after a leading sign, if any.
pub open spec fn int_body(s: Seq<char>) -> Seq<char> {
    if s.len() > 0 && (s[0] == '+' || s[0] == '-') {
        s.subrange(1, s.len() as int)
    } else {
        s
    }
}

/// The sign an integer string denotes.
pub open spec fn int_sign(s: Seq<char>) -> int {
    if s.len() > 0 && s[0] == '-' {
        -1
    } else {
        1
    }
}

/// Whether a string denotes a 64-bit integer: an optional sign, then at
/// least one digit and nothing else, with the value in range.
pub open spec fn is_i64_string(s: Seq<char>) -> bool {
    let body = int_body(s);
    &&& body.len() > 0
    &&& all_digits(body)
    &&& i64::MIN <= int_sign(s) * dec_val(body) <= i64::MAX
}

/// The integer a string denotes.
pub open spec fn i64_string_val(s: Seq<char>) -> int {
    int_sign(s) * dec_val(int_body(s))
}

/// A digit string is worth at least any of its prefixes, and at least zero.
proof fn lemma_dec_val_prefix(s: Seq<char>, j: int)
    requires
        all_digits(s),
        0 <= j <= s.len(),
    ensures
        0 <= dec_val(s.subrange(0, j)) <= dec_val(s),
    decreases s.len(),
{
    lemma_dec_val_nonneg(s.subrange(0, j));
    if j == s.len() {
        assert(s.subrange(0, j) =~= s);
    } else {
        let shorter = s.drop_last();
        assert(all_digits(shorter));
        assert(shorter.subrange(0, j) =~= s.subrange(0, j));
        lemma_dec_val_prefix(shorter, j);
        lemma_dec_val_nonneg(shorter);
        assert(dec_val(s) == dec_val(shorter) * 10 + digit_val(s.last()));
        assert(dec_val(shorter) <= dec_val(shorter) * 10) by (nonlinear_arith)
            requires
                dec_val(shorter) >= 0,
        ;
    }
}

/// A digit string's value is never negative.
proof fn lemma_dec_val_nonneg(s: Seq<char>)
    requires
        all_digits(s),
    ensures
        dec_val(s) >= 0,
    decreases s.len(),
{
    if s.len() > 0 {
        assert(all_digits(s.drop_last()));
        lemma_dec_val_nonneg(s.drop_last());
        assert(dec_val(s.drop_last()) * 10 >= 0) by (nonlinear_arith)
            requires
                dec_val(s.drop_last()) >= 0,
        ;
    }
}

/// Parse a 64-bit integer: an optional `+` or `-`, then decimal digits.
/// Returns the value exactly when the whole string denotes an integer in
/// the `i64` range.
pub fn parse_i64(s: &str) -> (r: Option<i64>)
    ensures
        match r {
            Some(v) => is_i64_string(s@) && v as int == i64_string_val(s@),
            None => !is_i64_string(s@),
        },
{
    let len = s.unicode_len();
    if len == 0 {
        return None;
    }
    let c0 = s.get_char(0);
    let neg = c0 == '-';
    let start: usize = if c0 == '-' || c0 == '+' {
        1
    } else {
        0
    };
    let ghost body = int_body(s@);
    proof {
        assert(body =~= s@.subrange(start as int, len as int));
    }
    if start == len {
        return None;
    }
    let limit: u64 = if neg {
        9223372036854775808u64
    } else {
        9223372036854775807u64
    };
    let mut acc: u64 = 0;
    let mut i: usize = start;
    while i < len
        invariant
            start <= i <= len,
            len == s@.len(),
            start < len,
            start == 0 || start == 1,
            body == int_body(s@),
            body == s@.subrange(start as int, len as int),
            neg ==> int_sign(s@) == -1,
            !neg ==> int_sign(s@) == 1,
            limit == if neg { 9223372036854775808u64 } else { 9223372036854775807u64 },
            all_digits(body.subrange(0, i - start)),
            acc as int == dec_val(body.subrange(0, i - start)),
            acc <= limit,
        decreases len - i,
    {
        let ghost done = body.subrange(0, i - start);
        let ghost next = body.subrange(0, i + 1 - start);
        proof {
            assert(next.drop_last() =~= done);
            assert(next.last() == s@[i as int]);
        }
        let c = s.get_char(i);
        let cu: u32 = c as u32;
        if cu < 48 || cu > 57 {
            proof {
                assert(!is_dec_digit(body[i - start]));
            }
            return None;
        }
        let d: u64 = (cu - 48) as u64;
        if acc > limit / 10 || (acc == limit / 10 && d > limit % 10) {
            proof {
                assert(acc * 10 + d > limit) by (nonlinear_arith)
                    requires
                        acc > limit / 10 || (acc == limit / 10 && d > limit % 10),
                        limit == 9223372036854775808u64 || limit == 9223372036854775807u64,
                        d <= 9,
                ;
                assert(dec_val(next) == acc * 10 + d);
                if is_i64_string(s@) {
                    lemma_dec_val_prefix(body, i + 1 - start);
                    if neg {
                        assert(int_sign(s@) * dec_val(body) >= i64::MIN);
                        assert(dec_val(body) <= 9223372036854775808);
                    } else {
                        assert(int_sign(s@) * dec_val(body) <= i64::MAX);
                        assert(dec_val(body) <= 9223372036854775807);
                    }
                    assert(false);
                }
            }
            return None;
        }
        proof {
            assert(acc * 10 + d <= limit) by (nonlinear_arith)
                requires
                    acc <= limit / 10,
                    acc < limit / 10 || d <= limit % 10,
                    limit == 9223372036854775808u64 || limit == 9223372036854775807u64,
                    d <= 9,
            ;
        }
        acc = acc * 10 + d;
        i += 1;
    }
    proof {
        assert(body.subrange(0, len - start) =~= body);
        lemma_dec_val_nonneg(body);
        if neg {
            assert(i64_string_val(s@) == -1 * dec_val(body));
        } else {
            assert(i64_string_val(s@) == dec_val(body));
        }
    }
    if neg {
        if acc == 9223372036854775808u64 {
            Some(i64::MIN)
        } else {
            Some(-(acc as i64))
        }
    } else {
        Some(acc as i64)
    }
}

/// The digits of a natural number are digits, spell its value, and are
/// never empty.
proof fn lemma_dec_digits_props(n: nat)
    ensures
        all_digits(dec_digits(n)),
        dec_val(dec_digits(n)) == n,
        dec_digits(n).len() >= 1,
    decreases n,
{
    if n < 10 {
        let s = dec_digits(n);
        assert(s == seq![digit_char(n as int)]);
        assert(s.len() == 1);
        assert(s.last() == digit_char(n as int));
        assert(dec_val(s) == dec_val(s.drop_last()) * 10 + digit_val(s.last()));
        assert(s.drop_last().len() == 0);
        assert(dec_val(s.drop_last()) == 0);
        assert(digit_val(digit_char(n as int)) == n) by {
            if n == 0 {
                assert('0' as u32 == 48);
            } else if n == 1 {
                assert('1' as u32 == 49);
            } else if n == 2 {
                assert('2' as u32 == 50);
            } else if n == 3 {
                assert('3' as u32 == 51);
            } else if n == 4 {
                assert('4' as u32 == 52);
            } else if n == 5 {
                assert('5' as u32 == 53);
            } else if n == 6 {
                assert('6' as u32 == 54);
            } else if n == 7 {
                assert('7' as u32 == 55);
            } else if n == 8 {
                assert('8' as u32 == 56);
            } else {
                assert('9' as u32 == 57);
            }
        }
    } else {
        lemma_dec_digits_props(n / 10);
        let whole = dec_digits(n);
        let lead = dec_digits(n / 10);
        assert(whole == lead.push(digit_char((n % 10) as int)));
        assert(whole.drop_last() =~= lead);
        assert(dec_val(whole) == dec_val(lead) * 10 + digit_val(digit_char((n % 10) as int)));
        assert(dec_val(whole) == (n / 10) * 10 + n % 10);
    }
}

/// Rendering an integer and parsing the rendering gives the integer back.
pub proof fn lemma_decimal_round_trip(v: i64)
    ensures
        is_i64_string(dec_int(v as int)),
        i64_string_val(dec_int(v as int)) == v as int,
{
    if v >= 0 {
        let s = dec_int(v as int);
        lemma_dec_digits_props(v as nat);
        assert(s == dec_digits(v as nat));
        assert(is_dec_digit(s[0]));
        assert(s[0] != '+' && s[0] != '-');
        assert(int_body(s) == s);
        assert(int_sign(s) == 1);
    } else {
        let s = dec_int(v as int);
        let m = (-(v as int)) as nat;
        lemma_dec_digits_props(m);
        assert(s == seq!['-'] + dec_digits(m));
        assert(s[0] == '-');
        assert(int_body(s) =~= dec_digits(m));
        assert(int_sign(s) == -1);
        assert(i64_string_val(s) == -1 * dec_val(dec_digits(m)));
    }
}

/// Render a 64-bit integer in decimal.
pub fn i64_to_string(v: i64) -> (r: String)
    ensures
        r@ == dec_int(v as int),
{
    let mut out = String::new();
    if v < 0 {
        out.append("-");
        let m: u64 = if v == i64::MIN {
            9223372036854775808u64
        } else {
            (-v) as u64
        };
        proof {
            reveal_strlit("-");
            assert(m as nat == (-(v as int)) as nat);
        }
        push_dec_u64(m, &mut out);
        proof {
            assert(out@ =~= seq!['-'] + dec_digits((-(v as int)) as nat));
        }
    } else {
        push_dec_u64(v as u64, &mut out);
        proof {
            assert(out@ =~= dec_digits(v as nat));
        }
    }
    out
}

} // verus!
