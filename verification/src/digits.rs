//! Numbers as text: decimal and hexadecimal, written and read.

use crate::text::{chars_of, whole_string};
use vstd::prelude::*;

verus! {

// ---------------------------------------------------------------------------
// Model
// ---------------------------------------------------------------------------

/// The decimal digit of `d`, for `d` from 0 to 9.
pub open spec fn digit(d: int) -> char {
    (48 + d) as char
}

/// `n` in decimal, without leading zeros.
pub open spec fn decimal(n: nat) -> Seq<char>
    decreases n,
{
    if n < 10 {
        seq![digit(n as int)]
    } else {
        decimal(n / 10).push(digit((n % 10) as int))
    }
}

/// `i` in decimal, with a minus sign if it is negative.
pub open spec fn signed_decimal(i: int) -> Seq<char> {
    if i < 0 {
        seq!['-'] + decimal((-i) as nat)
    } else {
        decimal(i as nat)
    }
}

/// The hexadecimal digit of `d`, for `d` from 0 to 15.
pub open spec fn hex_digit(d: int, capital: bool) -> char {
    if d < 10 {
        digit(d)
    } else if capital {
        (55 + d) as char
    } else {
        (87 + d) as char
    }
}

/// `n` in hexadecimal with small letters, without leading zeros.
pub open spec fn hex(n: nat) -> Seq<char>
    decreases n,
{
    if n < 16 {
        seq![hex_digit(n as int, false)]
    } else {
        hex(n / 16).push(hex_digit((n % 16) as int, false))
    }
}

/// `s` with zeros in front up to `width` characters.
pub open spec fn zero_padded(s: Seq<char>, width: nat) -> Seq<char> {
    if s.len() < width {
        Seq::new((width - s.len()) as nat, |i: int| '0') + s
    } else {
        s
    }
}

/// Two hexadecimal digits for each byte, with small letters.
pub open spec fn hex_bytes(bytes: Seq<u8>) -> Seq<char>
    decreases bytes.len(),
{
    if bytes.len() == 0 {
        Seq::empty()
    } else {
        hex_bytes(bytes.drop_last()) + seq![
            hex_digit(bytes.last() as int / 16, false),
            hex_digit(bytes.last() as int % 16, false),
        ]
    }
}

pub open spec fn is_digit(c: char) -> bool {
    '0' <= c <= '9'
}

pub open spec fn all_digits(s: Seq<char>) -> bool {
    forall|i: int| 0 <= i < s.len() ==> is_digit(#[trigger] s[i])
}

/// The number that a sequence of decimal digits writes.
pub open spec fn digits_value(s: Seq<char>) -> nat
    decreases s.len(),
{
    if s.len() == 0 {
        0
    } else {
        digits_value(s.drop_last()) * 10 + (s.last() as nat - 48) as nat
    }
}

/// The number that at least one digit, and nothing else, writes.
pub open spec fn plain_number(s: Seq<char>) -> Option<nat> {
    if s.len() > 0 && all_digits(s) {
        Some(digits_value(s))
    } else {
        None
    }
}

/// The number that digits after an optional plus sign write.
pub open spec fn unsigned_number(s: Seq<char>) -> Option<nat> {
    if s.len() > 0 && s[0] == '+' {
        plain_number(s.drop_first())
    } else {
        plain_number(s)
    }
}

/// The number that digits after an optional sign write.
pub open spec fn signed_number(s: Seq<char>) -> Option<int> {
    if s.len() > 0 && s[0] == '-' {
        match plain_number(s.drop_first()) {
            Some(n) => Some(-(n as int)),
            None => None,
        }
    } else {
        match unsigned_number(s) {
            Some(n) => Some(n as int),
            None => None,
        }
    }
}

/// The unsigned 64-bit number that `s` writes.
pub open spec fn as_u64(s: Seq<char>) -> Option<u64> {
    match unsigned_number(s) {
        Some(n) if n <= u64::MAX => Some(n as u64),
        _ => None,
    }
}

/// The signed 64-bit number that `s` writes.
pub open spec fn as_i64(s: Seq<char>) -> Option<i64> {
    match signed_number(s) {
        Some(i) if i64::MIN <= i <= i64::MAX => Some(i as i64),
        _ => None,
    }
}

// ---------------------------------------------------------------------------
// Writing
// ---------------------------------------------------------------------------

fn decimal_chars(n: u64) -> (r: Vec<char>)
    ensures
        r@ == decimal(n as nat),
    decreases n,
{
    let d: u8 = (n % 10) as u8;
    if n < 10 {
        let mut out: Vec<char> = Vec::new();
        out.push((48 + d) as char);
        assert(out@ =~= seq![digit(n as int)]);
        out
    } else {
        let mut out = decimal_chars(n / 10);
        out.push((48 + d) as char);
        out
    }
}

/// `n` in decimal.
pub fn decimal_u64(n: u64) -> (r: String)
    ensures
        r@ == decimal(n as nat),
{
    let chars = decimal_chars(n);
    whole_string(&chars)
}

/// `n` in decimal.
pub fn decimal_usize(n: usize) -> (r: String)
    ensures
        r@ == decimal(n as nat),
{
    decimal_u64(n as u64)
}

/// `i` in decimal.
pub fn decimal_i64(i: i64) -> (r: String)
    ensures
        r@ == signed_decimal(i as int),
{
    if i < 0 {
        let size: u64 = (-(i as i128)) as u64;
        let mut out = String::new();
        out.push('-');
        let digits = decimal_u64(size);
        out.append(digits.as_str());
        assert(out@ =~= signed_decimal(i as int));
        out
    } else {
        decimal_u64(i as u64)
    }
}

/// The hexadecimal digit of `d`.
pub fn hex_char(d: u8, capital: bool) -> (r: char)
    requires
        d < 16,
    ensures
        r == hex_digit(d as int, capital),
{
    if d < 10 {
        (48 + d) as char
    } else if capital {
        (55 + d) as char
    } else {
        (87 + d) as char
    }
}

fn hex_chars(n: u128) -> (r: Vec<char>)
    ensures
        r@ == hex(n as nat),
    decreases n,
{
    let d: u8 = (n % 16) as u8;
    if n < 16 {
        let mut out: Vec<char> = Vec::new();
        out.push(hex_char(d, false));
        assert(out@ =~= seq![hex_digit(n as int, false)]);
        out
    } else {
        let mut out = hex_chars(n / 16);
        out.push(hex_char(d, false));
        out
    }
}

/// `n` in hexadecimal, with zeros in front up to `width` characters.
pub fn hex_u128(n: u128, width: usize) -> (r: String)
    ensures
        r@ == zero_padded(hex(n as nat), width as nat),
{
    let chars = hex_chars(n);
    let missing: usize = if chars.len() < width {
        width - chars.len()
    } else {
        0
    };
    let mut out = String::new();
    let mut i: usize = 0;
    while i < missing
        invariant
            i <= missing,
            out@ == Seq::new(i as nat, |j: int| '0'),
        decreases missing - i,
    {
        out.push('0');
        i += 1;
        assert(out@ =~= Seq::new(i as nat, |j: int| '0'));
    }
    let digits = whole_string(&chars);
    out.append(digits.as_str());
    assert(out@ =~= zero_padded(hex(n as nat), width as nat));
    out
}

/// Two hexadecimal digits for each byte.
pub fn hex_of(bytes: &[u8]) -> (r: String)
    ensures
        r@ == hex_bytes(bytes@),
{
    let mut out = String::new();
    let mut i: usize = 0;
    assert(bytes@.take(0) =~= Seq::empty());
    while i < bytes.len()
        invariant
            i <= bytes@.len(),
            out@ == hex_bytes(bytes@.take(i as int)),
        decreases bytes@.len() - i,
    {
        let b: u8 = bytes[i];
        out.push(hex_char(b / 16, false));
        out.push(hex_char(b % 16, false));
        i += 1;
        assert(bytes@.take(i as int).drop_last() =~= bytes@.take(i - 1));
        assert(out@ =~= hex_bytes(bytes@.take(i as int)));
    }
    assert(bytes@.take(bytes@.len() as int) =~= bytes@);
    out
}

// ---------------------------------------------------------------------------
// Reading
// ---------------------------------------------------------------------------

proof fn lemma_digits_value_grows(s: Seq<char>, k: int)
    requires
        0 <= k <= s.len(),
    ensures
        digits_value(s.take(k)) <= digits_value(s),
    decreases s.len() - k,
{
    if k < s.len() {
        lemma_digits_value_grows(s, k + 1);
        assert(s.take(k + 1).drop_last() =~= s.take(k));
    } else {
        assert(s.take(k) =~= s);
    }
}

/// The number that `chars[from..]` writes, if it has at least one digit, no
/// other character, and fits.
fn read_digits(chars: &Vec<char>, from: usize) -> (r: Option<u64>)
    requires
        from <= chars@.len(),
    ensures
        match plain_number(chars@.skip(from as int)) {
            Some(n) if n <= u64::MAX => r == Some(n as u64),
            _ => r is None,
        },
{
    let ghost body = chars@.skip(from as int);
    if from == chars.len() {
        return None;
    }
    let mut value: u64 = 0;
    let mut i: usize = from;
    assert(body.take(0) =~= Seq::empty());
    while i < chars.len()
        invariant
            from <= i <= chars@.len(),
            from < chars@.len(),
            body == chars@.skip(from as int),
            value == digits_value(body.take(i - from)),
            all_digits(body.take(i - from)),
        decreases chars@.len() - i,
    {
        let c = chars[i];
        let ghost k = i - from;
        assert(body[k] == c);
        if !('0' <= c && c <= '9') {
            assert(!is_digit(body[k]));
            return None;
        }
        let d: u64 = ((c as u32) - 48) as u64;
        proof {
            assert(body.take(k + 1).drop_last() =~= body.take(k));
            assert(body.take(k + 1).last() == c);
            lemma_digits_value_grows(body, k + 1);
        }
        if value > (u64::MAX - d) / 10 {
            return None;
        }
        value = value * 10 + d;
        i += 1;
        assert forall|j: int| 0 <= j < k + 1 implies is_digit(#[trigger] body.take(k + 1)[j]) by {
            if j < k {
                assert(body.take(k)[j] == body[j]);
            }
        }
    }
    assert(body.take(body.len() as int) =~= body);
    Some(value)
}

/// Reads an unsigned number, as `str::parse` does for `u64`.
pub fn parse_u64(s: &str) -> (r: Option<u64>)
    ensures
        r == as_u64(s@),
{
    let chars = chars_of(s);
    if chars.len() > 0 && chars[0] == '+' {
        assert(s@.skip(1) =~= s@.drop_first());
        read_digits(&chars, 1)
    } else {
        assert(s@.skip(0) =~= s@);
        read_digits(&chars, 0)
    }
}

/// Reads a signed number, as `str::parse` does for `i64`.
pub fn parse_i64(s: &str) -> (r: Option<i64>)
    ensures
        r == as_i64(s@),
{
    let chars = chars_of(s);
    if chars.len() > 0 && chars[0] == '-' {
        assert(s@.skip(1) =~= s@.drop_first());
        match read_digits(&chars, 1) {
            Some(size) => {
                if size <= 9223372036854775808 {
                    Some((-(size as i128)) as i64)
                } else {
                    None
                }
            },
            None => None,
        }
    } else {
        match parse_u64(s) {
            Some(size) => {
                if size <= i64::MAX as u64 {
                    Some(size as i64)
                } else {
                    None
                }
            },
            None => None,
        }
    }
}

// ---------------------------------------------------------------------------
// Laws
// ---------------------------------------------------------------------------

/// A decimal text is made of digits, and they write the number.
pub proof fn lemma_decimal_is_digits(n: nat)
    ensures
        decimal(n).len() > 0,
        all_digits(decimal(n)),
        digits_value(decimal(n)) == n,
    decreases n,
{
    if n < 10 {
        let s = decimal(n);
        assert(s.drop_last() =~= Seq::empty());
        assert(digits_value(s.drop_last()) == 0);
    } else {
        lemma_decimal_is_digits(n / 10);
        assert(decimal(n).drop_last() =~= decimal(n / 10));
        assert forall|i: int| 0 <= i < decimal(n).len() implies is_digit(#[trigger] decimal(n)[i]) by {
            if i < decimal(n / 10).len() {
                assert(decimal(n)[i] == decimal(n / 10)[i]);
            }
        }
    }
}

/// Reading the decimal text of a number gives the number back.
pub proof fn law_decimal_reads_back(i: i64)
    ensures
        as_i64(signed_decimal(i as int)) == Some(i),
{
    if i < 0 {
        lemma_decimal_is_digits((-i) as nat);
        assert(signed_decimal(i as int).drop_first() =~= decimal((-i) as nat));
    } else {
        lemma_decimal_is_digits(i as nat);
        assert(is_digit(decimal(i as nat)[0]));
    }
}

/// The number that hexadecimal digits with small letters write.
pub open spec fn hex_value(s: Seq<char>) -> nat
    decreases s.len(),
{
    if s.len() == 0 {
        0
    } else {
        hex_value(s.drop_last()) * 16 + (if s.last() <= '9' {
            s.last() as nat - 48
        } else {
            s.last() as nat - 87
        }) as nat
    }
}

proof fn lemma_hex(n: nat)
    ensures
        hex_value(hex(n)) == n,
        !hex(n).contains('-'),
        hex(n).len() > 0,
    decreases n,
{
    if n < 16 {
        assert(hex(n).drop_last() =~= Seq::empty());
        assert(hex_value(hex(n).drop_last()) == 0);
    } else {
        lemma_hex(n / 16);
        assert(hex(n).drop_last() =~= hex(n / 16));
        assert forall|i: int| 0 <= i < hex(n).len() implies hex(n)[i] != '-' by {
            if i < hex(n / 16).len() {
                assert(hex(n)[i] == hex(n / 16)[i]);
                assert(hex(n / 16).contains(hex(n / 16)[i]));
            }
        }
    }
}

proof fn lemma_zeros_in_front(zeros: nat, s: Seq<char>)
    ensures
        hex_value(Seq::new(zeros, |i: int| '0') + s) == hex_value(s),
    decreases zeros + s.len(),
{
    let all = Seq::new(zeros, |i: int| '0') + s;
    if s.len() > 0 {
        lemma_zeros_in_front(zeros, s.drop_last());
        assert(all.drop_last() =~= Seq::new(zeros, |i: int| '0') + s.drop_last());
    } else if zeros > 0 {
        lemma_zeros_in_front((zeros - 1) as nat, s);
        assert(all.drop_last() =~= Seq::new((zeros - 1) as nat, |i: int| '0') + s);
    }
}

/// Zeros in front do not change a hexadecimal number, and no minus sign occurs.
pub proof fn lemma_padded_hex(n: nat, width: nat)
    ensures
        hex_value(zero_padded(hex(n), width)) == n,
        !zero_padded(hex(n), width).contains('-'),
{
    lemma_hex(n);
    let s = hex(n);
    if s.len() < width {
        let zeros = (width - s.len()) as nat;
        lemma_zeros_in_front(zeros, s);
        let all = zero_padded(s, width);
        assert forall|i: int| 0 <= i < all.len() implies all[i] != '-' by {
            if i >= zeros {
                assert(all[i] == s[i - zeros]);
                assert(s.contains(s[i - zeros]));
            }
        }
    }
}

/// A number that was written in decimal is read as it was, with or without a plus
/// sign; a text with anything else but digits behind its sign is no number.
pub proof fn law_numbers_read_back(n: u64, s: Seq<char>, k: int)
    requires
        0 <= k < s.len(),
        !('0' <= s[k] <= '9'),
        k > 0 || (s[0] != '+' && s[0] != '-'),
    ensures
        as_u64(decimal(n as nat)) == Some(n),
        as_u64(seq!['+'] + decimal(n as nat)) == Some(n),
        as_u64(s) is None,
        as_i64(s) is None,
{
    lemma_decimal_is_digits(n as nat);
    assert(is_digit(decimal(n as nat)[0]));
    assert((seq!['+'] + decimal(n as nat)).drop_first() =~= decimal(n as nat));
    assert(!is_digit(s[k]));
    if k > 0 {
        assert(s.drop_first()[k - 1] == s[k]);
    }
}

/// The number that a small hexadecimal digit writes.
pub open spec fn small_hex_value(c: char) -> int {
    if '0' <= c <= '9' {
        c as int - '0' as int
    } else {
        c as int - 'a' as int + 10
    }
}

/// Each byte is written as two small hexadecimal digits that write it, one byte after
/// the other.
pub proof fn law_bytes_are_written_in_two_digits(bytes: Seq<u8>, i: int)
    requires
        0 <= i < bytes.len(),
    ensures
        hex_bytes(bytes).len() == 2 * bytes.len(),
        16 * small_hex_value(hex_bytes(bytes)[2 * i]) + small_hex_value(
            hex_bytes(bytes)[2 * i + 1],
        ) == bytes[i],
    decreases bytes.len(),
{
    let init = bytes.drop_last();
    let all = hex_bytes(bytes);
    let last = bytes.last();
    if init.len() > 0 {
        law_bytes_are_written_in_two_digits(init, if i < init.len() { i } else { 0 });
    } else {
        assert(hex_bytes(init) =~= Seq::empty());
    }
    if i < init.len() {
        assert(all[2 * i] == hex_bytes(init)[2 * i]);
        assert(all[2 * i + 1] == hex_bytes(init)[2 * i + 1]);
        assert(init[i] == bytes[i]);
    } else {
        assert(all[2 * i] == hex_digit(last as int / 16, false));
        assert(all[2 * i + 1] == hex_digit(last as int % 16, false));
    }
}

} // verus!
