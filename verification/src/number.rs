use vstd::prelude::*;
use crate::text::{chars_of, is_digit_char};

verus! {

/// The ASCII character of decimal digit `d`.
pub open spec fn digit_char(d: int) -> char {
    (48 + d) as char
}

/// The value of an ASCII decimal digit character.
pub open spec fn char_digit(c: char) -> int {
    c as int - 48
}

/// Decimal notation of `n`, without sign or leading zeros.
pub open spec fn decimal(n: nat) -> Seq<char>
    decreases n,
{
    if n < 10 {
        seq![digit_char(n as int)]
    } else {
        decimal(n / 10).push(digit_char((n % 10) as int))
    }
}

/// Decimal notation of a signed integer: a minus sign for negatives.
pub open spec fn signed_decimal(n: int) -> Seq<char> {
    if n < 0 {
        seq!['-'] + decimal((-n) as nat)
    } else {
        decimal(n as nat)
    }
}

/// Every character of `d` is a decimal digit.
pub open spec fn all_digits(d: Seq<char>) -> bool {
    forall|i: int| 0 <= i < d.len() ==> is_digit_char(#[trigger] d[i])
}

/// The value of a run of decimal digits, most significant first.
pub open spec fn digits_value(d: Seq<char>) -> nat
    decreases d.len(),
{
    if d.len() == 0 {
        0
    } else {
        (10 * digits_value(d.drop_last()) + char_digit(d.last())) as nat
    }
}

/// The integer written by `s` in the grammar of `i64::from_str`: an
/// optional `+` or `-`, then one or more ASCII digits.
pub open spec fn signed_value(s: Seq<char>) -> Option<int> {
    if s.len() > 0 && (s[0] == '-' || s[0] == '+') {
        let body = s.drop_first();
        if body.len() > 0 && all_digits(body) {
            if s[0] == '-' {
                Some(-(digits_value(body) as int))
            } else {
                Some(digits_value(body) as int)
            }
        } else {
            None
        }
    } else if s.len() > 0 && all_digits(s) {
        Some(digits_value(s) as int)
    } else {
        None
    }
}

/// What `str::parse::<i64>` gives: the written integer when it fits.
pub open spec fn parsed_i64(s: Seq<char>) -> Option<i64> {
    match signed_value(s) {
        Some(v) => if i64::MIN <= v <= i64::MAX {
            Some(v as i64)
        } else {
            None
        },
        None => None,
    }
}

/// The one-character string of digit `d`.
pub fn digit_text_of(d: u64) -> (r: &'static str)
    requires
        d < 10,
    ensures
        r@ == seq![digit_char(d as int)],
{
    proof {
        reveal_strlit("0");
        reveal_strlit("1");
        reveal_strlit("2");
        reveal_strlit("3");
        reveal_strlit("4");
        reveal_strlit("5");
        reveal_strlit("6");
        reveal_strlit("7");
        reveal_strlit("8");
        reveal_strlit("9");
    }
    let r = if d == 0 {
        "0"
    } else if d == 1 {
        "1"
    } else if d == 2 {
        "2"
    } else if d == 3 {
        "3"
    } else if d == 4 {
        "4"
    } else if d == 5 {
        "5"
    } else if d == 6 {
        "6"
    } else if d == 7 {
        "7"
    } else if d == 8 {
        "8"
    } else {
        "9"
    };
    assert(r@ =~= seq![digit_char(d as int)]);
    r
}

/// Appends the decimal notation of `n` to `s`.
pub fn push_decimal(s: &mut String, n: u128)
    ensures
        final(s)@ == old(s)@ + decimal(n as nat),
    decreases n,
{
    if n >= 10 {
        push_decimal(s, n / 10);
    }
    s.append(digit_text_of((n % 10) as u64));
    proof {
        if n >= 10 {
            assert(decimal(n as nat) == decimal((n / 10) as nat).push(digit_char((n % 10) as int)));
        } else {
            assert(decimal(n as nat) == seq![digit_char(n as int)]);
        }
    }
}

/// Decimal notation of an unsigned integer, as `u64::to_string`.
pub fn format_u64(n: u64) -> (r: String)
    ensures
        r@ == decimal(n as nat),
{
    let mut s = String::new();
    push_decimal(&mut s, n as u128);
    assert(s@ =~= decimal(n as nat));
    s
}

/// Decimal notation of a signed integer, as `i64::to_string`.
pub fn format_i64(n: i64) -> (r: String)
    ensures
        r@ == signed_decimal(n as int),
{
    let mut s = String::new();
    if n < 0 {
        proof { reveal_strlit("-"); }
        s.append("-");
        let m: u64 = if n == i64::MIN { 9223372036854775808u64 } else { (-n) as u64 };
        push_decimal(&mut s, m as u128);
        assert(s@ =~= seq!['-'] + decimal((-n) as nat));
    } else {
        push_decimal(&mut s, n as u128);
        assert(s@ =~= decimal(n as nat));
    }
    s
}

/// A prefix of a digit run is worth no more than the whole run.
proof fn lemma_digits_prefix_le(d: Seq<char>, k: int)
    requires
        0 <= k <= d.len(),
        all_digits(d),
    ensures
        digits_value(d.take(k)) <= digits_value(d),
    decreases d.len(),
{
    if k < d.len() {
        let p = d.drop_last();
        assert(p.take(k) =~= d.take(k));
        assert(all_digits(p)) by {
            assert forall|i: int| 0 <= i < p.len() implies is_digit_char(#[trigger] p[i]) by {
                assert(p[i] == d[i]);
            }
        }
        lemma_digits_prefix_le(p, k);
        assert(is_digit_char(d[d.len() - 1]));
    } else {
        assert(d.take(k) =~= d);
    }
}

/// Parses a run of digits starting at `from`; `None` once its value passes 2^63.
fn digits_upto_2_63(v: &Vec<char>, from: usize) -> (r: Option<u128>)
    requires
        from <= v.len(),
    ensures
        r matches Some(x) ==> all_digits(v@.skip(from as int)) && x == digits_value(v@.skip(from as int))
            && x <= 9223372036854775808u128,
        r is None ==> !all_digits(v@.skip(from as int)) || digits_value(v@.skip(from as int))
            > 9223372036854775808u128,
{
    let ghost body = v@.skip(from as int);
    let mut acc: u128 = 0;
    let mut i: usize = from;
    while i < v.len()
        invariant
            from <= i <= v.len(),
            body == v@.skip(from as int),
            all_digits(body.take(i - from)),
            acc == digits_value(body.take(i - from)),
            acc <= 9223372036854775808u128,
        decreases v.len() - i,
    {
        let c = v[i];
        if !('0' <= c && c <= '9') {
            assert(body[i - from] == c);
            return None;
        }
        let ghost before = body.take(i - from);
        let ghost after = body.take(i - from + 1);
        assert(after.drop_last() =~= before);
        assert(after.last() == c);
        assert(all_digits(after)) by {
            assert forall|j: int| 0 <= j < after.len() implies is_digit_char(#[trigger] after[j]) by {
                if j < before.len() {
                    assert(after[j] == before[j]);
                }
            }
        }
        let d = (c as u32 - 48) as u128;
        acc = acc * 10 + d;
        i = i + 1;
        if acc > 9223372036854775808u128 {
            proof {
                if all_digits(body) {
                    lemma_digits_prefix_le(body, i - from);
                }
            }
            return None;
        }
    }
    assert(body.take(i - from) =~= body);
    Some(acc)
}

/// Integer parsing with the grammar and range of `str::parse::<i64>`.
pub fn parse_i64(s: &str) -> (r: Option<i64>)
    ensures
        r == parsed_i64(s@),
{
    let v = chars_of(s);
    if v.len() == 0 {
        return None;
    }
    let first = v[0];
    if first == '-' || first == '+' {
        assert(v@.skip(1) =~= v@.drop_first());
        if v.len() == 1 {
            return None;
        }
        match digits_upto_2_63(&v, 1) {
            None => None,
            Some(x) => {
                if first == '-' {
                    let neg: i128 = -(x as i128);
                    Some(neg as i64)
                } else if x <= 9223372036854775807u128 {
                    Some(x as i64)
                } else {
                    None
                }
            },
        }
    } else {
        assert(v@.skip(0) =~= v@);
        match digits_upto_2_63(&v, 0) {
            None => None,
            Some(x) => {
                if x <= 9223372036854775807u128 {
                    Some(x as i64)
                } else {
                    None
                }
            },
        }
    }
}

/// Decimal notation is a nonempty digit run worth the number it writes.
pub proof fn lemma_decimal_digits(n: nat)
    ensures
        decimal(n).len() > 0,
        all_digits(decimal(n)),
        digits_value(decimal(n)) == n,
    decreases n,
{
    if n < 10 {
        let d = decimal(n);
        assert(d == seq![digit_char(n as int)]);
        assert(d.drop_last() =~= Seq::<char>::empty());
        assert(char_digit(digit_char(n as int)) == n);
        assert(digits_value(d.drop_last()) == 0);
        assert(digits_value(d) == 10 * digits_value(d.drop_last()) + char_digit(d.last()));
    } else {
        lemma_decimal_digits(n / 10);
        let d = decimal(n);
        let p = decimal(n / 10);
        assert(d == p.push(digit_char((n % 10) as int)));
        assert(d.drop_last() =~= p);
        assert(char_digit(digit_char((n % 10) as int)) == n % 10);
        assert(d.last() == digit_char((n % 10) as int));
        assert(digits_value(d) == 10 * digits_value(d.drop_last()) + char_digit(d.last()));
        assert forall|i: int| 0 <= i < d.len() implies is_digit_char(#[trigger] d[i]) by {
            if i < p.len() {
                assert(d[i] == p[i]);
            }
        }
    }
}

/// Parsing the decimal text of a signed integer gives that integer back:
/// `parse_i64(&format_i64(n)) == Some(n)` for every `n`.
pub proof fn law_parse_inverts_format(n: i64)
    ensures
        parsed_i64(signed_decimal(n as int)) == Some(n),
{
    if n < 0 {
        let m = (-n) as nat;
        lemma_decimal_digits(m);
        let s = signed_decimal(n as int);
        assert(s == seq!['-'] + decimal(m));
        assert(s.drop_first() =~= decimal(m));
        assert(s[0] == '-');
    } else {
        let m = n as nat;
        lemma_decimal_digits(m);
        let s = signed_decimal(n as int);
        assert(s == decimal(m));
        assert(is_digit_char(s[0]));
    }
}

} // verus!
