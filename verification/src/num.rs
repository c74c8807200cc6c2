//! Integers as text: decimal and lowercase hexadecimal digits, written and read.

use vstd::prelude::*;

verus! {

/// The character that writes the digit `d`, lowercase for the digits above nine.
pub open spec fn digit_char(d: int) -> char {
    if d == 0 {
        '0'
    } else if d == 1 {
        '1'
    } else if d == 2 {
        '2'
    } else if d == 3 {
        '3'
    } else if d == 4 {
        '4'
    } else if d == 5 {
        '5'
    } else if d == 6 {
        '6'
    } else if d == 7 {
        '7'
    } else if d == 8 {
        '8'
    } else if d == 9 {
        '9'
    } else if d == 10 {
        'a'
    } else if d == 11 {
        'b'
    } else if d == 12 {
        'c'
    } else if d == 13 {
        'd'
    } else if d == 14 {
        'e'
    } else {
        'f'
    }
}

/// The digits of `n` in the given radix, most significant first, without
/// leading zeros; zero is written as a single `0`.
pub open spec fn radix_text(n: nat, radix: nat) -> Seq<char>
    decreases n,
    via radix_text_terminates
{
    if radix < 2 || n < radix {
        seq![digit_char(n as int)]
    } else {
        radix_text(n / radix, radix).push(digit_char((n % radix) as int))
    }
}

#[via_fn]
proof fn radix_text_terminates(n: nat, radix: nat) {
    if radix >= 2 && n >= radix {
        lemma_quotient_smaller(n, radix);
    }
}

/// Dividing a positive number by two or more makes it smaller.
pub proof fn lemma_quotient_smaller(n: nat, radix: nat)
    requires
        radix >= 2,
        n >= 1,
    ensures
        n / radix < n,
        n == radix * (n / radix) + n % radix,
        n % radix < radix,
{
    assert(n / radix < n && n == radix * (n / radix) + n % radix && n % radix < radix)
        by (nonlinear_arith)
        requires
            radix >= 2,
            n >= 1,
    ;
}

/// `n` in decimal.
pub open spec fn dec_text(n: nat) -> Seq<char> {
    radix_text(n, 10)
}

/// `n` in lowercase hexadecimal.
pub open spec fn hex_text(n: nat) -> Seq<char> {
    radix_text(n, 16)
}

/// `count` zeros.
pub open spec fn zeros(count: nat) -> Seq<char> {
    Seq::new(count, |i: int| '0')
}

/// `n` in lowercase hexadecimal, padded with zeros on the left to eight digits.
pub open spec fn hex8_text(n: nat) -> Seq<char> {
    let digits = hex_text(n);
    if digits.len() < 8 {
        zeros((8 - digits.len()) as nat) + digits
    } else {
        digits
    }
}

/// What the character `c` is worth as a digit in the given radix: the decimal
/// digits, then the letters of either case from ten upward. `None` where `c`
/// is no digit of that radix.
pub open spec fn digit_value(c: char, radix: nat) -> Option<nat> {
    let code = c as u32 as nat;
    let v: nat = if 48 <= code <= 57 {
        (code - 48) as nat
    } else if 97 <= code <= 122 {
        (code - 87) as nat
    } else if 65 <= code <= 90 {
        (code - 55) as nat
    } else {
        radix
    };
    if v < radix {
        Some(v)
    } else {
        None
    }
}

/// The number that a run of digits writes, `None` where one of the characters
/// is no digit of the radix. The empty run writes zero.
pub open spec fn digits_value(s: Seq<char>, radix: nat) -> Option<nat>
    decreases s.len(),
{
    if s.len() == 0 {
        Some(0)
    } else {
        match (digits_value(s.drop_last(), radix), digit_value(s.last(), radix)) {
            (Some(high), Some(low)) => Some(high * radix + low),
            _ => None,
        }
    }
}

/// The unsigned 64-bit number that the text `s` writes in the given radix: an
/// optional `+`, then at least one digit, nothing else, and a value that
/// fits. `None` otherwise.
pub open spec fn parse_radix(s: Seq<char>, radix: nat) -> Option<u64> {
    let body = if s.len() > 0 && s[0] == '+' {
        s.drop_first()
    } else {
        s
    };
    if body.len() == 0 {
        None
    } else {
        match digits_value(body, radix) {
            Some(v) => if v <= u64::MAX {
                Some(v as u64)
            } else {
                None
            },
            None => None,
        }
    }
}

/// The one-character text of a digit.
fn digit_str(d: u128) -> (r: &'static str)
    requires
        d < 16,
    ensures
        r@ == seq![digit_char(d as int)],
{
    let r = if d == 0 {
        proof { reveal_strlit("0"); }
        "0"
    } else if d == 1 {
        proof { reveal_strlit("1"); }
        "1"
    } else if d == 2 {
        proof { reveal_strlit("2"); }
        "2"
    } else if d == 3 {
        proof { reveal_strlit("3"); }
        "3"
    } else if d == 4 {
        proof { reveal_strlit("4"); }
        "4"
    } else if d == 5 {
        proof { reveal_strlit("5"); }
        "5"
    } else if d == 6 {
        proof { reveal_strlit("6"); }
        "6"
    } else if d == 7 {
        proof { reveal_strlit("7"); }
        "7"
    } else if d == 8 {
        proof { reveal_strlit("8"); }
        "8"
    } else if d == 9 {
        proof { reveal_strlit("9"); }
        "9"
    } else if d == 10 {
        proof { reveal_strlit("a"); }
        "a"
    } else if d == 11 {
        proof { reveal_strlit("b"); }
        "b"
    } else if d == 12 {
        proof { reveal_strlit("c"); }
        "c"
    } else if d == 13 {
        proof { reveal_strlit("d"); }
        "d"
    } else if d == 14 {
        proof { reveal_strlit("e"); }
        "e"
    } else {
        proof { reveal_strlit("f"); }
        "f"
    };
    assert(r@ =~= seq![digit_char(d as int)]);
    r
}

/// Writes `n` in the given radix.
fn format_radix(n: u128, radix: u128) -> (r: String)
    requires
        2 <= radix <= 16,
    ensures
        r@ == radix_text(n as nat, radix as nat),
    decreases n,
{
    if n < radix {
        String::from_str(digit_str(n))
    } else {
        proof {
            lemma_quotient_smaller(n as nat, radix as nat);
        }
        let mut r = format_radix(n / radix, radix);
        r.append(digit_str(n % radix));
        r
    }
}

/// Writes `n` in decimal.
pub fn format_dec(n: u64) -> (r: String)
    ensures
        r@ == dec_text(n as nat),
{
    format_radix(n as u128, 10)
}

/// Writes in decimal a count that may be too large for 64 bits.
pub fn format_count(n: u128) -> (r: String)
    ensures
        r@ == dec_text(n as nat),
{
    format_radix(n, 10)
}

/// Writes `n` in lowercase hexadecimal, as few digits as it takes.
pub fn format_hex(n: u64) -> (r: String)
    ensures
        r@ == hex_text(n as nat),
{
    format_radix(n as u128, 16)
}

/// Writes `n` in lowercase hexadecimal, at least eight digits wide.
pub fn format_hex8(n: u64) -> (r: String)
    ensures
        r@ == hex8_text(n as nat),
{
    let digits = format_radix(n as u128, 16);
    let len = digits.as_str().unicode_len();
    let mut r = String::new();
    let mut k: usize = len;
    while k < 8
        invariant
            len <= k,
            k <= 8 || k == len,
            len == digits@.len(),
            r@ == zeros((k - len) as nat),
        decreases 8 - k,
    {
        proof { reveal_strlit("0"); }
        r.append("0");
        k = k + 1;
        assert(r@ =~= zeros((k - len) as nat));
    }
    r.append(digits.as_str());
    assert(r@ =~= hex8_text(n as nat));
    r
}

/// The value of a run of digits is at least the value of each of its prefixes,
/// and a run with a value has only prefixes with a value.
pub proof fn lemma_digits_prefix(s: Seq<char>, k: int, radix: nat)
    requires
        0 <= k <= s.len(),
        radix >= 1,
        digits_value(s, radix) is Some,
    ensures
        digits_value(s.take(k), radix) is Some,
        digits_value(s.take(k), radix)->0 <= digits_value(s, radix)->0,
    decreases s.len(),
{
    if k == s.len() {
        assert(s.take(k) =~= s);
    } else {
        let t = s.drop_last();
        assert(t.take(k) =~= s.take(k));
        lemma_digits_prefix(t, k, radix);
        let high = digits_value(t, radix)->0;
        let low = digit_value(s.last(), radix)->0;
        assert(high <= high * radix + low) by (nonlinear_arith)
            requires
                radix >= 1,
        ;
    }
}

/// Each digit below the radix is written by a character that reads back as it.
pub proof fn lemma_digit_char_value(d: nat, radix: nat)
    requires
        d < radix <= 16,
    ensures
        digit_value(digit_char(d as int), radix) == Some(d),
        digit_char(d as int) != '+',
{
}

/// Zeros in front of a run of digits leave its value as it is.
pub proof fn lemma_leading_zeros(count: nat, s: Seq<char>, radix: nat)
    requires
        radix >= 2,
    ensures
        digits_value(zeros(count) + s, radix) == digits_value(s, radix),
    decreases s.len(), count,
{
    let all = zeros(count) + s;
    if s.len() > 0 {
        assert(all.drop_last() =~= zeros(count) + s.drop_last());
        assert(all.last() == s.last());
        lemma_leading_zeros(count, s.drop_last(), radix);
    } else if count > 0 {
        assert(all.drop_last() =~= zeros((count - 1) as nat) + s);
        assert(all.last() == '0');
        lemma_leading_zeros((count - 1) as nat, s, radix);
        assert(digit_value('0', radix) == Some(0nat));
        assert(digits_value(s, radix) == Some(0nat));
        assert(0 * radix + 0 == 0) by (nonlinear_arith);
    } else {
        assert(all =~= s);
    }
}

/// The digits that write a number read back as that number; there is at least
/// one of them, and the first is no sign.
pub proof fn lemma_radix_text_value(n: nat, radix: nat)
    requires
        2 <= radix <= 16,
    ensures
        digits_value(radix_text(n, radix), radix) == Some(n),
        radix_text(n, radix).len() >= 1,
        radix_text(n, radix)[0] != '+',
    decreases n,
{
    if n < radix {
        lemma_digit_char_value(n, radix);
        let t = radix_text(n, radix);
        assert(t.drop_last() =~= Seq::<char>::empty());
        assert(digits_value(t.drop_last(), radix) == Some(0nat));
        assert(0 * radix + n == n) by (nonlinear_arith);
    } else {
        lemma_quotient_smaller(n, radix);
        let q = n / radix;
        let m = n % radix;
        lemma_radix_text_value(q, radix);
        lemma_digit_char_value(m, radix);
        let t = radix_text(n, radix);
        assert(t.drop_last() =~= radix_text(q, radix));
        assert(t.last() == digit_char(m as int));
        assert(q * radix + m == n) by (nonlinear_arith)
            requires
                n == radix * q + m,
        ;
        assert(t[0] == radix_text(q, radix)[0]);
    }
}

/// Reading what was written: the eight-digit hexadecimal text of a number that
/// fits in 64 bits parses back to that number.
pub proof fn lemma_parse_hex8(n: u64)
    ensures
        parse_radix(hex8_text(n as nat), 16) == Some(n),
{
    lemma_radix_text_value(n as nat, 16);
    let digits = hex_text(n as nat);
    if digits.len() < 8 {
        let pad = (8 - digits.len()) as nat;
        lemma_leading_zeros(pad, digits, 16);
        assert(hex8_text(n as nat)[0] == '0');
    }
}

/// What `c` is worth as a digit of the radix.
fn digit_of(c: char, radix: u64) -> (r: Option<u64>)
    requires
        2 <= radix <= 36,
    ensures
        r is Some <==> digit_value(c, radix as nat) is Some,
        r is Some ==> r->0 as nat == digit_value(c, radix as nat)->0,
        r is Some ==> r->0 < radix,
{
    let code: u32 = c as u32;
    let v: u64 = if 48 <= code && code <= 57 {
        (code - 48) as u64
    } else if 97 <= code && code <= 122 {
        (code - 87) as u64
    } else if 65 <= code && code <= 90 {
        (code - 55) as u64
    } else {
        radix
    };
    if v < radix {
        Some(v)
    } else {
        None
    }
}

/// Reads an unsigned number in the given radix: an optional `+`, then digits
/// only, at least one. A number that does not fit in 64 bits is refused.
pub fn parse_number(s: &Vec<char>, radix: u64) -> (r: Option<u64>)
    requires
        2 <= radix <= 36,
    ensures
        r == parse_radix(s@, radix as nat),
{
    let n = s.len();
    let start: usize = if n > 0 && s[0] == '+' {
        1
    } else {
        0
    };
    let ghost body = if s@.len() > 0 && s@[0] == '+' {
        s@.drop_first()
    } else {
        s@
    };
    assert(body =~= s@.skip(start as int));
    if start == n {
        return None;
    }
    let mut acc: u64 = 0;
    let mut i: usize = start;
    assert(body.take(0) =~= Seq::<char>::empty());
    while i < n
        invariant
            start <= i <= n,
            n == s@.len(),
            2 <= radix <= 36,
            body == s@.skip(start as int),
            body.len() > 0,
            parse_radix(s@, radix as nat) == match digits_value(body, radix as nat) {
                Some(v) => if v <= u64::MAX {
                    Some(v as u64)
                } else {
                    None
                },
                None => None,
            },
            digits_value(body.take(i - start), radix as nat) == Some(acc as nat),
        decreases n - i,
    {
        let ghost upto = body.take(i - start + 1);
        assert(upto.drop_last() =~= body.take(i - start));
        assert(upto.last() == s@[i as int]);
        match digit_of(s[i], radix) {
            None => {
                proof {
                    if digits_value(body, radix as nat) is Some {
                        lemma_digits_prefix(body, i - start + 1, radix as nat);
                    }
                }
                return None;
            },
            Some(d) => {
                if acc > (u64::MAX - d) / radix {
                    proof {
                        assert(acc * radix + d > u64::MAX) by (nonlinear_arith)
                            requires
                                acc > (u64::MAX - d) / (radix as int),
                                radix >= 2,
                                d <= u64::MAX,
                        ;
                        if digits_value(body, radix as nat) is Some {
                            lemma_digits_prefix(body, i - start + 1, radix as nat);
                        }
                    }
                    return None;
                }
                assert(acc * radix + d <= u64::MAX) by (nonlinear_arith)
                    requires
                        acc <= (u64::MAX - d) / (radix as int),
                        radix >= 2,
                        d <= u64::MAX,
                ;
                acc = acc * radix + d;
            },
        }
        i = i + 1;
    }
    assert(body.take(n - start) =~= body);
    Some(acc)
}

/// Reads an unsigned decimal number.
pub fn parse_dec(s: &str) -> (r: Option<u64>)
    ensures
        r == parse_radix(s@, 10),
{
    let v = crate::text::chars_of(s);
    parse_number(&v, 10)
}

/// Reads an unsigned hexadecimal number, in digits of either case.
pub fn parse_hex(s: &str) -> (r: Option<u64>)
    ensures
        r == parse_radix(s@, 16),
{
    let v = crate::text::chars_of(s);
    parse_number(&v, 16)
}

} // verus!
