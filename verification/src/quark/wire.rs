//! The small texts of the protocol: cookies, identifiers, addresses, times.

use crate::digits::{hex, hex_char, hex_digit, hex_u128, lemma_padded_hex, zero_padded};
use crate::text::{
    chars_of, concat3, is_blank, is_space, law_trimming_takes_white_space_only,
    lemma_trimmed, strip_prefixes, trim_chars, trim_end_by, trimmed,
    whole_string, without_prefixes,
};
use vstd::prelude::*;
use vstd::utf8::encode_utf8;

verus! {

// ---------------------------------------------------------------------------
// Cookies
// ---------------------------------------------------------------------------

pub open spec fn line_break(c: char) -> bool {
    c == '\r' || c == '\n'
}

/// `s` without its line breaks.
pub open spec fn on_one_line(s: Seq<char>) -> Seq<char>
    decreases s.len(),
{
    if s.len() == 0 {
        Seq::empty()
    } else if line_break(s.last()) {
        on_one_line(s.drop_last())
    } else {
        on_one_line(s.drop_last()).push(s.last())
    }
}

/// A cookie as it goes into a header: without white space around it, without
/// the header's name in front, and on one line.
pub open spec fn normalized_cookie(value: Seq<char>) -> Seq<char> {
    on_one_line(trimmed(without_prefixes(trimmed(value), "Cookie:"@)))
}

/// The cookie that the user pasted, as it goes into a header.
pub fn normalize_cookie(value: &str) -> (r: String)
    ensures
        r@ == normalized_cookie(value@),
{
    let chars = chars_of(value);
    let inner = trim_chars(&chars);
    let bare = strip_prefixes(&inner, "Cookie:");
    let kept = trim_chars(&bare);
    let mut out = String::new();
    let mut i: usize = 0;
    assert(kept@.take(0) =~= Seq::empty());
    while i < kept.len()
        invariant
            i <= kept@.len(),
            out@ == on_one_line(kept@.take(i as int)),
        decreases kept@.len() - i,
    {
        assert(kept@.take(i + 1).drop_last() =~= kept@.take(i as int));
        let c = kept[i];
        if c != '\r' && c != '\n' {
            out.push(c);
        }
        i += 1;
    }
    assert(kept@.take(kept@.len() as int) =~= kept@);
    out
}

proof fn lemma_on_one_line(s: Seq<char>)
    ensures
        forall|i: int|
            0 <= i < on_one_line(s).len() ==> !line_break(#[trigger] on_one_line(s)[i]),
        s.len() > 0 && !line_break(s.last()) ==> on_one_line(s).len() > 0 && on_one_line(s).last()
            == s.last(),
        s.len() > 0 && !line_break(s[0]) ==> on_one_line(s).len() > 0 && on_one_line(s)[0] == s[0],
    decreases s.len(),
{
    if s.len() > 0 {
        let t = s.drop_last();
        lemma_on_one_line(t);
        let out = on_one_line(s);
        assert forall|i: int| 0 <= i < out.len() implies !line_break(#[trigger] out[i]) by {
            if i < on_one_line(t).len() {
                assert(out[i] == on_one_line(t)[i]);
            }
        }
        if !line_break(s[0]) && s.len() > 1 {
            assert(t[0] == s[0]);
            assert(out[0] == on_one_line(t)[0]);
        }
    }
}

/// A cookie in a header has no line break, and no white space at either end.
pub proof fn law_cookie_fits_a_header(value: Seq<char>)
    ensures
        ({
            let cookie = normalized_cookie(value);
            &&& forall|i: int| 0 <= i < cookie.len() ==> !line_break(#[trigger] cookie[i])
            &&& cookie.len() > 0 ==> !is_space(cookie[0]) && !is_space(cookie.last())
        }),
{
    let bare = without_prefixes(trimmed(value), "Cookie:"@);
    let kept = trimmed(bare);
    lemma_trimmed(bare);
    lemma_on_one_line(kept);
    if kept.len() > 0 {
        assert(!is_space(kept[0]) && !is_space(kept.last()));
        assert(!line_break(kept[0]) && !line_break(kept.last()));
    }
}

// ---------------------------------------------------------------------------
// Identifiers
// ---------------------------------------------------------------------------

/// An identifier made of a time in nanoseconds and a running number.
pub open spec fn request_id(timestamp: nat, sequence: nat) -> Seq<char> {
    zero_padded(hex(timestamp), 32) + "-"@ + zero_padded(hex(sequence), 4)
}

/// The identifier of one request.
pub fn uuid(timestamp: u128, sequence: u64) -> (r: String)
    ensures
        r@ == request_id(timestamp as nat, sequence as nat),
{
    let time = hex_u128(timestamp, 32);
    let number = hex_u128(sequence as u128, 4);
    concat3(time.as_str(), "-", number.as_str())
}

/// The running numbers of one process.
#[derive(Debug)]
pub struct RequestIds {
    /// The number that comes next.
    pub next: u64,
}

impl RequestIds {
    /// No number was given out yet.
    pub fn new() -> (r: RequestIds)
        ensures
            r.next == 0,
    {
        RequestIds { next: 0 }
    }

    /// The identifier of the next request, made at this time. The numbers start
    /// again after the last one.
    pub fn fresh(&mut self, timestamp: u128) -> (r: String)
        ensures
            r@ == request_id(timestamp as nat, old(self).next as nat),
            final(self).next as int == (old(self).next + 1) % 0x1_0000_0000_0000_0000,
    {
        let id = uuid(timestamp, self.next);
        self.next = if self.next == u64::MAX {
            0
        } else {
            self.next + 1
        };
        id
    }
}

/// No two of the identifiers that one process gives out are the same, whatever
/// the clock says, as long as there are no more of them than there are numbers.
pub proof fn law_fresh_ids_differ(states: Seq<RequestIds>, times: Seq<nat>, i: int, j: int)
    requires
        states.len() <= 0x1_0000_0000_0000_0000,
        times.len() == states.len(),
        forall|k: int|
            0 <= k < states.len() - 1 ==> (#[trigger] states[k + 1]).next as int == (states[k].next
                + 1) % 0x1_0000_0000_0000_0000,
        0 <= i < j < states.len(),
    ensures
        request_id(times[i], states[i].next as nat) != request_id(times[j], states[j].next as nat),
{
    lemma_running_numbers(states, i, j);
    if request_id(times[i], states[i].next as nat) == request_id(times[j], states[j].next as nat) {
        law_request_ids_differ(
            times[i],
            states[i].next as nat,
            times[j],
            states[j].next as nat,
        );
    }
}

proof fn lemma_running_numbers(states: Seq<RequestIds>, i: int, j: int)
    requires
        forall|k: int|
            0 <= k < states.len() - 1 ==> (#[trigger] states[k + 1]).next as int == (states[k].next
                + 1) % 0x1_0000_0000_0000_0000,
        0 <= i <= j < states.len(),
    ensures
        states[j].next as int == (states[i].next + (j - i)) % 0x1_0000_0000_0000_0000,
    decreases j - i,
{
    if i < j {
        lemma_running_numbers(states, i, j - 1);
        assert(states[(j - 1) + 1].next as int == (states[j - 1].next + 1)
            % 0x1_0000_0000_0000_0000);
    }
}

/// A small hexadecimal digit.
pub open spec fn small_hex_digit(c: char) -> bool {
    '0' <= c <= '9' || 'a' <= c <= 'f'
}

/// An identifier is 32 small hexadecimal digits, a minus sign, and four or more
/// small hexadecimal digits.
pub proof fn law_request_id_shape(timestamp: u128, sequence: u64)
    ensures
        ({
            let id = request_id(timestamp as nat, sequence as nat);
            &&& id.len() >= 37
            &&& id[32] == '-'
            &&& forall|i: int|
                0 <= i < id.len() && i != 32 ==> small_hex_digit(#[trigger] id[i])
        }),
{
    reveal_strlit("-");
    let time = zero_padded(hex(timestamp as nat), 32);
    let number = zero_padded(hex(sequence as nat), 4);
    lemma_hex_digits(timestamp as nat);
    lemma_hex_digits(sequence as nat);
    lemma_largest_timestamp();
    lemma_hex_length(timestamp as nat, 32);
    let id = request_id(timestamp as nat, sequence as nat);
    assert(time.len() == 32);
    assert(number.len() >= 4);
    assert forall|i: int| 0 <= i < id.len() && i != 32 implies small_hex_digit(#[trigger] id[i]) by {
        if i < 32 {
            assert(id[i] == time[i]);
            let zeros = 32 - hex(timestamp as nat).len();
            if i >= zeros {
                assert(time[i] == hex(timestamp as nat)[i - zeros]);
            }
        } else {
            let k = i - 33;
            assert(id[i] == number[k]);
            let digits = hex(sequence as nat);
            if digits.len() < 4 && k >= 4 - digits.len() {
                assert(number[k] == digits[k - (4 - digits.len())]);
            }
        }
    }
}

proof fn lemma_hex_digits(n: nat)
    ensures
        hex(n).len() > 0,
        forall|i: int| 0 <= i < hex(n).len() ==> small_hex_digit(#[trigger] hex(n)[i]),
    decreases n,
{
    if n >= 16 {
        lemma_hex_digits(n / 16);
        assert forall|i: int| 0 <= i < hex(n).len() implies small_hex_digit(
            #[trigger] hex(n)[i],
        ) by {
            if i < hex(n / 16).len() {
                assert(hex(n)[i] == hex(n / 16)[i]);
            }
        }
    }
}

/// The smallest number of more than `digits` hexadecimal digits.
spec fn hex_bound(digits: nat) -> nat
    decreases digits,
{
    if digits == 0 {
        1
    } else {
        16 * hex_bound((digits - 1) as nat)
    }
}

proof fn lemma_largest_timestamp()
    ensures
        hex_bound(32) == u128::MAX + 1,
{
    reveal_with_fuel(hex_bound, 33);
}

proof fn lemma_hex_length(n: nat, digits: nat)
    requires
        n < hex_bound(digits),
        digits > 0,
    ensures
        hex(n).len() <= digits,
    decreases digits,
{
    if n >= 16 {
        reveal_with_fuel(hex_bound, 2);
        lemma_hex_length(n / 16, (digits - 1) as nat);
    }
}

/// Requests made at different times, or with different running numbers, have
/// different identifiers.
pub proof fn law_request_ids_differ(t1: nat, n1: nat, t2: nat, n2: nat)
    requires
        request_id(t1, n1) == request_id(t2, n2),
    ensures
        t1 == t2,
        n1 == n2,
{
    reveal_strlit("-");
    let a = zero_padded(hex(t1), 32);
    let b = zero_padded(hex(t2), 32);
    let c = zero_padded(hex(n1), 4);
    let d = zero_padded(hex(n2), 4);
    lemma_padded_hex(t1, 32);
    lemma_padded_hex(t2, 32);
    lemma_padded_hex(n1, 4);
    lemma_padded_hex(n2, 4);
    let s = request_id(t1, n1);
    assert(s[a.len() as int] == '-');
    assert(s[b.len() as int] == '-');
    if a.len() < b.len() {
        assert(s[a.len() as int] == b[a.len() as int]);
        assert(b.contains(b[a.len() as int]));
    }
    if b.len() < a.len() {
        assert(s[b.len() as int] == a[b.len() as int]);
        assert(a.contains(a[b.len() as int]));
    }
    assert(a =~= s.take(a.len() as int));
    assert(b =~= s.take(a.len() as int));
    assert(c =~= s.skip(a.len() as int + 1));
    assert(d =~= s.skip(a.len() as int + 1));
}

// ---------------------------------------------------------------------------
// Percent encoding
// ---------------------------------------------------------------------------

/// The bytes that stand for themselves in a query.
pub open spec fn unreserved(b: u8) -> bool {
    ||| 65 <= b <= 90
    ||| 97 <= b <= 122
    ||| 48 <= b <= 57
    ||| b == 45
    ||| b == 95
    ||| b == 46
    ||| b == 126
}

/// One byte in a query: itself, or a percent sign and two hexadecimal digits.
pub open spec fn percent_byte(b: u8) -> Seq<char> {
    if unreserved(b) {
        seq![b as char]
    } else {
        seq!['%', hex_digit(b as int / 16, true), hex_digit(b as int % 16, true)]
    }
}

/// Bytes in a query.
pub open spec fn percent_bytes(bytes: Seq<u8>) -> Seq<char>
    decreases bytes.len(),
{
    if bytes.len() == 0 {
        Seq::empty()
    } else {
        percent_byte(bytes[0]) + percent_bytes(bytes.drop_first())
    }
}

/// A text in a query, byte by byte of its UTF-8 form.
pub open spec fn percent_text(s: Seq<char>) -> Seq<char> {
    percent_bytes(encode_utf8(s))
}

/// `value` as it goes into a query.
pub fn percent_encode(value: &str) -> (r: String)
    ensures
        r@ == percent_text(value@),
{
    let bytes = value.as_bytes();
    let mut out = String::new();
    let mut i: usize = 0;
    proof {
        assert(bytes@.skip(0) =~= bytes@);
        assert(out@ + percent_bytes(bytes@) =~= percent_bytes(bytes@));
    }
    while i < bytes.len()
        invariant
            i <= bytes@.len(),
            out@ + percent_bytes(bytes@.skip(i as int)) == percent_bytes(bytes@),
        decreases bytes@.len() - i,
    {
        let b: u8 = bytes[i];
        let ghost before = out@;
        let ghost rest = bytes@.skip(i as int);
        if (65 <= b && b <= 90) || (97 <= b && b <= 122) || (48 <= b && b <= 57) || b == 45 || b
            == 95 || b == 46 || b == 126 {
            out.push(b as char);
        } else {
            out.push('%');
            out.push(hex_char(b / 16, true));
            out.push(hex_char(b % 16, true));
        }
        proof {
            assert(out@ =~= before + percent_byte(b));
            assert(rest.drop_first() =~= bytes@.skip(i + 1));
            assert(out@ + percent_bytes(bytes@.skip(i + 1)) =~= before + percent_bytes(rest));
        }
        i += 1;
    }
    assert(bytes@.skip(bytes@.len() as int) =~= Seq::empty());
    assert(out@ + Seq::<char>::empty() =~= out@);
    out
}

proof fn lemma_percent_bytes_injective(a: Seq<u8>, b: Seq<u8>)
    requires
        percent_bytes(a) == percent_bytes(b),
    ensures
        a == b,
    decreases a.len(),
{
    let s = percent_bytes(a);
    if a.len() > 0 {
        assert(s[0] == percent_byte(a[0])[0]);
        assert(b.len() > 0);
    }
    if b.len() > 0 {
        assert(percent_bytes(b)[0] == percent_byte(b[0])[0]);
        assert(percent_bytes(b).len() > 0);
        assert(a.len() == 0 ==> percent_bytes(a).len() == 0);
        let p = percent_byte(a[0]);
        let q = percent_byte(b[0]);
        assert(unreserved(a[0]) == unreserved(b[0]));
        assert(p.len() == q.len());
        assert forall|i: int| 0 <= i < p.len() implies p[i] == q[i] by {
            assert(s[i] == p[i]);
            assert(percent_bytes(b)[i] == q[i]);
        }
        if !unreserved(a[0]) {
            assert(p[1] == q[1] && p[2] == q[2]);
            assert(a[0] as int / 16 == b[0] as int / 16);
            assert(a[0] as int % 16 == b[0] as int % 16);
        }
        assert(a[0] == b[0]);
        let n = p.len() as int;
        assert(s.skip(n) =~= percent_bytes(a.drop_first()));
        assert(percent_bytes(b).skip(n) =~= percent_bytes(b.drop_first()));
        lemma_percent_bytes_injective(a.drop_first(), b.drop_first());
        assert(a =~= seq![a[0]] + a.drop_first());
        assert(b =~= seq![b[0]] + b.drop_first());
    } else {
        assert(a =~= b);
    }
}

/// Different texts stay different in a query.
pub proof fn law_percent_encoding_is_injective(a: Seq<char>, b: Seq<char>)
    requires
        percent_text(a) == percent_text(b),
    ensures
        a == b,
{
    lemma_percent_bytes_injective(encode_utf8(a), encode_utf8(b));
    vstd::utf8::encode_utf8_decode_utf8(a);
    vstd::utf8::encode_utf8_decode_utf8(b);
}

/// What may stand in an encoded query: letters, digits and `-_.~%`.
pub open spec fn query_char(c: char) -> bool {
    ||| 'A' <= c <= 'Z'
    ||| 'a' <= c <= 'z'
    ||| '0' <= c <= '9'
    ||| c == '-'
    ||| c == '_'
    ||| c == '.'
    ||| c == '~'
    ||| c == '%'
}

/// An encoded text holds nothing that has a meaning of its own in an address.
pub proof fn law_percent_encoding_is_plain(bytes: Seq<u8>)
    ensures
        forall|i: int|
            0 <= i < percent_bytes(bytes).len() ==> query_char(#[trigger] percent_bytes(bytes)[i]),
    decreases bytes.len(),
{
    if bytes.len() > 0 {
        law_percent_encoding_is_plain(bytes.drop_first());
        let head = percent_byte(bytes[0]);
        let all = percent_bytes(bytes);
        let tail = percent_bytes(bytes.drop_first());
        assert forall|i: int| 0 <= i < all.len() implies query_char(#[trigger] all[i]) by {
            if i < head.len() {
                assert(all[i] == head[i]);
            } else {
                assert(all[i] == tail[i - head.len()]);
            }
        }
    }
}

// ---------------------------------------------------------------------------
// Addresses
// ---------------------------------------------------------------------------

/// An address without its scheme, and without slashes at its end.
pub open spec fn host_of(upload_url: Seq<char>) -> Seq<char> {
    trim_end_by(
        without_prefixes(without_prefixes(upload_url, "https://"@), "http://"@),
        |c: char| c == '/',
    )
}

/// The address of an object in a bucket of the storage service.
pub open spec fn object_address(
    upload_url: Seq<char>,
    bucket: Seq<char>,
    obj_key: Seq<char>,
) -> Seq<char> {
    "https://"@ + bucket + "."@ + host_of(upload_url) + "/"@ + obj_key
}

/// The address of an object in a bucket of the storage service.
pub fn oss_endpoint(upload_url: &str, bucket: &str, obj_key: &str) -> (r: String)
    ensures
        r@ == object_address(upload_url@, bucket@, obj_key@),
{
    let chars = chars_of(upload_url);
    let chars = strip_prefixes(&chars, "https://");
    let mut chars = strip_prefixes(&chars, "http://");
    let ghost bare = chars@;
    let ghost slash = |c: char| c == '/';
    assert(chars@ =~= bare.take(bare.len() as int));
    while chars.len() > 0 && chars[chars.len() - 1] == '/'
        invariant
            chars@.len() <= bare.len(),
            chars@ == bare.take(chars@.len() as int),
            forall|j: int| chars@.len() <= j < bare.len() ==> slash(#[trigger] bare[j]),
            slash == |c: char| c == '/',
        decreases chars@.len(),
    {
        let ghost count = chars@.len();
        chars.pop();
        assert(chars@ =~= bare.take(chars@.len() as int));
        assert(slash(bare[count - 1]));
    }
    proof {
        crate::text::lemma_trailing(bare, slash, bare.len() - chars@.len());
    }
    let host = whole_string(&chars);
    let mut out = "https://".to_owned();
    out.append(bucket);
    out.append(".");
    out.append(host.as_str());
    out.append("/");
    out.append(obj_key);
    out
}

// ---------------------------------------------------------------------------
// Times
// ---------------------------------------------------------------------------

/// Milliseconds since the epoch as the protocol writes them: a time before the
/// epoch, or one that does not fit, has none.
pub fn unix_time_ms(since_epoch: Option<u128>) -> (r: Option<i64>)
    ensures
        r == (match since_epoch {
            Some(ms) if ms <= i64::MAX => Some(ms as i64),
            _ => None,
        }),
{
    match since_epoch {
        Some(ms) => {
            if ms <= i64::MAX as u128 {
                Some(ms as i64)
            } else {
                None
            }
        },
        None => None,
    }
}

// ---------------------------------------------------------------------------
// Laws
// ---------------------------------------------------------------------------

/// A cookie in one line loses its line breaks and nothing else.
pub proof fn law_only_line_breaks_are_dropped(s: Seq<char>)
    ensures
        on_one_line(s) == s.filter(|c: char| c != '\r' && c != '\n'),
    decreases s.len(),
{
    reveal(Seq::filter);
    let kept = |c: char| c != '\r' && c != '\n';
    if s.len() > 0 {
        law_only_line_breaks_are_dropped(s.drop_last());
        assert(on_one_line(s) =~= s.filter(kept));
    } else {
        assert(s.filter(kept) =~= Seq::empty());
    }
}

/// A cookie that is fit for a header as it is: not empty, without white space at
/// its ends, without line breaks, and without the header's name in front.
pub open spec fn plain_cookie(c: Seq<char>) -> bool {
    &&& c.len() > 0
    &&& !is_space(c[0])
    &&& !is_space(c.last())
    &&& forall|i: int| 0 <= i < c.len() ==> #[trigger] c[i] != '\r' && c[i] != '\n'
    &&& !"Cookie:"@.is_prefix_of(c)
}

/// The cookie that the user pasted comes out as it was, whatever white space stands
/// around it, and whether or not the header's name stands before it.
pub proof fn law_pasted_cookie_is_kept(
    before: Seq<char>,
    between: Seq<char>,
    c: Seq<char>,
    behind: Seq<char>,
)
    requires
        plain_cookie(c),
        is_blank(before),
        is_blank(between),
        is_blank(behind),
    ensures
        normalized_cookie(before + c + behind) == c,
        normalized_cookie(before + ("Cookie:"@ + between + c) + behind) == c,
{
    let name = "Cookie:"@;
    law_trimming_takes_white_space_only(before, c, behind);
    lemma_without_prefix(c, name);
    law_trimming_takes_white_space_only(Seq::empty(), c, Seq::empty());
    assert(Seq::<char>::empty() + c + Seq::<char>::empty() =~= c);
    lemma_keeps_all(c);
    lemma_named_cookie(before, between, c, behind);
    law_trimming_takes_white_space_only(between, c, Seq::empty());
    assert(between + c + Seq::<char>::empty() =~= between + c);
}

proof fn lemma_named_cookie(
    before: Seq<char>,
    between: Seq<char>,
    c: Seq<char>,
    behind: Seq<char>,
)
    requires
        plain_cookie(c),
        is_blank(before),
        is_blank(between),
        is_blank(behind),
    ensures
        without_prefixes(
            trimmed(before + ("Cookie:"@ + between + c) + behind),
            "Cookie:"@,
        ) == between + c,
{
    reveal_strlit("Cookie:");
    let name = "Cookie:"@;
    let whole = name + between + c;
    let rest = between + c;
    assert(whole =~= name + rest);
    assert(name.len() == 7 && name[0] == 'C');
    assert(whole[0] == 'C');
    assert(whole.last() == c.last());
    law_trimming_takes_white_space_only(before, whole, behind);
    assert(!name.is_prefix_of(rest)) by {
        if name.is_prefix_of(rest) {
            assert(name[0] == rest.subrange(0, name.len() as int)[0]);
            assert(rest[0] == 'C');
            if between.len() > 0 {
                assert(rest[0] == between[0]);
                assert(is_space(between[0]));
            } else {
                assert(rest =~= c);
            }
        }
    }
    lemma_without_prefix(rest, name);
}

proof fn lemma_keeps_all(c: Seq<char>)
    requires
        forall|i: int| 0 <= i < c.len() ==> #[trigger] c[i] != '\r' && c[i] != '\n',
    ensures
        on_one_line(c) == c,
    decreases c.len(),
{
    if c.len() > 0 {
        assert(c[c.len() - 1] == c.last());
        assert forall|i: int| 0 <= i < c.drop_last().len() implies #[trigger] c.drop_last()[i]
            != '\r' && c.drop_last()[i] != '\n' by {
            assert(c.drop_last()[i] == c[i]);
        }
        lemma_keeps_all(c.drop_last());
        assert(c.drop_last().push(c.last()) =~= c);
    } else {
        assert(on_one_line(c) =~= c);
    }
}

/// The number that a capital hexadecimal digit writes.
pub open spec fn capital_hex_value(c: char) -> int {
    if '0' <= c <= '9' {
        c as int - '0' as int
    } else {
        c as int - 'A' as int + 10
    }
}

/// A text is encoded byte by byte: letters, digits and `-_.~` stand for themselves,
/// and any other byte is a percent sign and two capital digits that write it.
pub proof fn law_percent_encoding_goes_by_bytes(b: u8, rest: Seq<u8>)
    ensures
        ({
            let c = b as char;
            let all = percent_bytes(seq![b] + rest);
            if 'A' <= c <= 'Z' || 'a' <= c <= 'z' || '0' <= c <= '9' || c == '-' || c == '_' || c
                == '.' || c == '~' {
                all == seq![c] + percent_bytes(rest)
            } else {
                &&& all.len() == 3 + percent_bytes(rest).len()
                &&& all.skip(3) == percent_bytes(rest)
                &&& all[0] == '%'
                &&& 16 * capital_hex_value(all[1]) + capital_hex_value(all[2]) == b
            }
        }),
        percent_bytes(Seq::empty()).len() == 0,
{
    let s = seq![b] + rest;
    assert(s[0] == b);
    assert(s.drop_first() =~= rest);
    let all = percent_bytes(s);
    if !unreserved(b) {
        assert(all.skip(3) =~= percent_bytes(rest));
        assert(all[1] == hex_digit(b as int / 16, true));
        assert(all[2] == hex_digit(b as int % 16, true));
    }
}

proof fn lemma_without_prefix(s: Seq<char>, prefix: Seq<char>)
    requires
        !prefix.is_prefix_of(s),
    ensures
        without_prefixes(s, prefix) == s,
        prefix.len() > 0 ==> without_prefixes(prefix + s, prefix) == s,
{
    if prefix.len() > 0 {
        assert(prefix =~= (prefix + s).subrange(0, prefix.len() as int));
        assert((prefix + s).skip(prefix.len() as int) =~= s);
    }
}

/// The address of an object has the bucket before the host and the object behind
/// it, whether or not the host was given with a scheme, and with slashes behind it.
pub proof fn law_object_address_is_built_of_its_parts(
    host: Seq<char>,
    slashes: Seq<char>,
    bucket: Seq<char>,
    obj_key: Seq<char>,
)
    requires
        host.len() > 0,
        host.last() != '/',
        !"https://"@.is_prefix_of(host + slashes),
        !"http://"@.is_prefix_of(host + slashes),
        forall|i: int| 0 <= i < slashes.len() ==> #[trigger] slashes[i] == '/',
    ensures
        ({
            let address = "https://"@ + bucket + "."@ + host + "/"@ + obj_key;
            &&& object_address(host + slashes, bucket, obj_key) == address
            &&& object_address("http://"@ + (host + slashes), bucket, obj_key) == address
            &&& object_address("https://"@ + (host + slashes), bucket, obj_key) == address
        }),
{
    reveal_strlit("https://");
    reveal_strlit("http://");
    let s = host + slashes;
    let f = |c: char| c == '/';
    lemma_without_prefix(s, "https://"@);
    lemma_without_prefix(s, "http://"@);
    let plain = "http://"@ + s;
    assert(!"https://"@.is_prefix_of(plain)) by {
        if "https://"@.is_prefix_of(plain) {
            assert("https://"@[4] == plain.subrange(0, 8)[4]);
            assert(plain[4] == "http://"@[4]);
        }
    }
    lemma_without_prefix(plain, "https://"@);
    assert forall|i: int| s.len() - slashes.len() <= i < s.len() implies f(#[trigger] s[i]) by {
        assert(s[i] == slashes[i - host.len()]);
    }
    assert(s[s.len() - slashes.len() - 1] == host.last());
    crate::text::lemma_trailing(s, f, slashes.len() as int);
    assert(s.take(s.len() - slashes.len()) =~= host);
}

/// A time is given in milliseconds wherever it fits.
pub proof fn law_times_are_kept(since_epoch: Option<u128>, r: Option<i64>)
    requires
        call_ensures(unix_time_ms, (since_epoch,), r),
    ensures
        r is Some <==> since_epoch is Some && since_epoch->0 <= i64::MAX,
        r is Some ==> r->0 == since_epoch->0,
{
}

/// A text goes into a query byte by byte of its UTF-8 form.
pub proof fn law_texts_are_encoded_by_their_bytes(value: &str, r: String)
    requires
        call_ensures(percent_encode, (value,), r),
    ensures
        r@ == percent_bytes(encode_utf8(value@)),
{
}

/// Two requests that follow each other have different identifiers, whatever the clock
/// says; and the running number goes up by one, until it starts again.
pub proof fn law_next_identifier_differs(
    ids: &mut RequestIds,
    time: u128,
    first: String,
    later: &mut RequestIds,
    later_time: u128,
    second: String,
)
    requires
        call_ensures(RequestIds::fresh, (ids, time), first),
        *old(later) == *final(ids),
        call_ensures(RequestIds::fresh, (later, later_time), second),
    ensures
        first@ != second@,
        old(ids).next < u64::MAX ==> final(ids).next == old(ids).next + 1,
        old(ids).next == u64::MAX ==> final(ids).next == 0,
{
    if first@ == second@ {
        law_request_ids_differ(
            time as nat,
            old(ids).next as nat,
            later_time as nat,
            old(later).next as nat,
        );
    }
}

} // verus!
