//! Strings as sequences of characters: trimming, splitting, joining, ASCII
//! case and the order of code points.

use vstd::prelude::*;

verus! {

// ---------------------------------------------------------------------------
// Model
// ---------------------------------------------------------------------------

/// The characters with the Unicode property `White_Space`.
pub open spec fn is_space(c: char) -> bool {
    ||| '\u{9}' <= c <= '\u{d}'
    ||| c == ' '
    ||| c == '\u{85}'
    ||| c == '\u{a0}'
    ||| c == '\u{1680}'
    ||| '\u{2000}' <= c <= '\u{200a}'
    ||| c == '\u{2028}'
    ||| c == '\u{2029}'
    ||| c == '\u{202f}'
    ||| c == '\u{205f}'
    ||| c == '\u{3000}'
}

/// How many characters at the start of `s` satisfy `f` before one does not.
pub open spec fn leading(s: Seq<char>, f: spec_fn(char) -> bool) -> nat
    decreases s.len(),
{
    if s.len() > 0 && f(s[0]) {
        1 + leading(s.drop_first(), f)
    } else {
        0
    }
}

/// How many characters at the end of `s` satisfy `f` after one does not.
pub open spec fn trailing(s: Seq<char>, f: spec_fn(char) -> bool) -> nat
    decreases s.len(),
{
    if s.len() > 0 && f(s.last()) {
        1 + trailing(s.drop_last(), f)
    } else {
        0
    }
}

/// `s` without the characters at its start that satisfy `f`.
pub open spec fn trim_start_by(s: Seq<char>, f: spec_fn(char) -> bool) -> Seq<char> {
    s.skip(leading(s, f) as int)
}

/// `s` without the characters at its end that satisfy `f`.
pub open spec fn trim_end_by(s: Seq<char>, f: spec_fn(char) -> bool) -> Seq<char> {
    s.take(s.len() - trailing(s, f))
}

/// `s` without white space at either end.
pub open spec fn trimmed(s: Seq<char>) -> Seq<char> {
    trim_end_by(trim_start_by(s, |c: char| is_space(c)), |c: char| is_space(c))
}

/// Nothing but white space.
pub open spec fn is_blank(s: Seq<char>) -> bool {
    forall|i: int| 0 <= i < s.len() ==> is_space(#[trigger] s[i])
}

/// `s` without the copies of `prefix` that it starts with.
pub open spec fn without_prefixes(s: Seq<char>, prefix: Seq<char>) -> Seq<char>
    decreases s.len(),
{
    if prefix.len() > 0 && prefix.is_prefix_of(s) {
        without_prefixes(s.skip(prefix.len() as int), prefix)
    } else {
        s
    }
}

/// The pieces of `s` between the occurrences of `sep`; one more than those.
pub open spec fn pieces(s: Seq<char>, sep: char) -> Seq<Seq<char>>
    decreases s.len(),
{
    if s.len() == 0 {
        seq![Seq::empty()]
    } else {
        let before = pieces(s.drop_last(), sep);
        if s.last() == sep {
            before.push(Seq::empty())
        } else {
            before.drop_last().push(before.last().push(s.last()))
        }
    }
}

/// The parts one after the other, with `sep` between neighbours.
pub open spec fn joined(parts: Seq<Seq<char>>, sep: Seq<char>) -> Seq<char>
    decreases parts.len(),
{
    if parts.len() == 0 {
        Seq::empty()
    } else if parts.len() == 1 {
        parts[0]
    } else {
        joined(parts.drop_last(), sep) + sep + parts.last()
    }
}

pub open spec fn lower(c: char) -> char {
    if 'A' <= c <= 'Z' {
        ((c as u32) + 32) as char
    } else {
        c
    }
}

pub open spec fn upper(c: char) -> char {
    if 'a' <= c <= 'z' {
        ((c as u32) - 32) as char
    } else {
        c
    }
}

/// `s` with the letters A to Z made small.
pub open spec fn ascii_lower(s: Seq<char>) -> Seq<char> {
    s.map_values(|c: char| lower(c))
}

/// `s` with the letters a to z made capital.
pub open spec fn ascii_upper(s: Seq<char>) -> Seq<char> {
    s.map_values(|c: char| upper(c))
}

/// Nothing but ASCII characters.
pub open spec fn is_ascii_text(s: Seq<char>) -> bool {
    forall|i: int| 0 <= i < s.len() ==> #[trigger] s[i] < '\u{80}'
}

/// `a` comes no later than `b` in the order of code points, the first
/// difference deciding and a prefix coming before what it starts.
pub open spec fn not_after(a: Seq<char>, b: Seq<char>) -> bool
    decreases a.len(),
{
    if a.len() == 0 {
        true
    } else if b.len() == 0 {
        false
    } else if a[0] == b[0] {
        not_after(a.drop_first(), b.drop_first())
    } else {
        a[0] < b[0]
    }
}

/// The texts of a list of strings.
pub open spec fn texts(list: Seq<String>) -> Seq<Seq<char>> {
    list.map_values(|s: String| s@)
}

// ---------------------------------------------------------------------------
// Characters
// ---------------------------------------------------------------------------

/// `String::push` appends one character.
pub assume_specification[ String::push ](s: &mut String, c: char)
    ensures
        final(s)@ == old(s)@.push(c),
;

/// The lower-case form of a text by the rules of Unicode.
pub uninterp spec fn lowercase(s: Seq<char>) -> Seq<char>;

/// `str::to_lowercase` depends on the text alone. In a text of ASCII characters it
/// makes the letters A to Z small.
pub assume_specification[ str::to_lowercase ](s: &str) -> (r: String)
    ensures
        r@ == lowercase(s@),
        is_ascii_text(s@) ==> r@ == ascii_lower(s@),
;

/// The characters of `s`, in order.
pub fn chars_of(s: &str) -> (r: Vec<char>)
    ensures
        r@ == s@,
{
    let mut out: Vec<char> = Vec::new();
    for c in it: s.chars()
        invariant
            out@ == it.seq().take(it.index() as int),
            it.seq() == s@,
    {
        out.push(c);
    }
    out
}

/// The string made of `chars[from..to]`.
pub fn string_of(chars: &Vec<char>, from: usize, to: usize) -> (r: String)
    requires
        from <= to <= chars@.len(),
    ensures
        r@ == chars@.subrange(from as int, to as int),
{
    let mut out = String::new();
    let mut i: usize = from;
    while i < to
        invariant
            from <= i <= to <= chars@.len(),
            out@ == chars@.subrange(from as int, i as int),
        decreases to - i,
    {
        out.push(chars[i]);
        i += 1;
        assert(out@ =~= chars@.subrange(from as int, i as int));
    }
    out
}

/// The string made of all of `chars`.
pub fn whole_string(chars: &Vec<char>) -> (r: String)
    ensures
        r@ == chars@,
{
    let r = string_of(chars, 0, chars.len());
    assert(chars@.subrange(0, chars@.len() as int) =~= chars@);
    r
}

/// Whether two strings hold the same characters.
pub fn same_text(a: &str, b: &str) -> (r: bool)
    ensures
        r == (a@ == b@),
{
    let a = chars_of(a);
    let b = chars_of(b);
    same_chars(&a, &b)
}

/// Whether two lists hold the same characters.
pub fn same_chars(a: &Vec<char>, b: &Vec<char>) -> (r: bool)
    ensures
        r == (a@ == b@),
{
    if a.len() != b.len() {
        return false;
    }
    let mut i: usize = 0;
    while i < a.len()
        invariant
            i <= a@.len(),
            a@.len() == b@.len(),
            forall|j: int| 0 <= j < i ==> a@[j] == b@[j],
        decreases a@.len() - i,
    {
        if a[i] != b[i] {
            return false;
        }
        i += 1;
    }
    assert(a@ =~= b@);
    true
}

/// Whether `chars` starts with `prefix`.
pub fn has_prefix(chars: &Vec<char>, prefix: &str) -> (r: bool)
    ensures
        r == prefix@.is_prefix_of(chars@),
{
    let prefix = chars_of(prefix);
    prefix_at(chars, 0, &prefix)
}

/// Whether `prefix` stands in `chars` at position `at`.
fn prefix_at(chars: &Vec<char>, at: usize, prefix: &Vec<char>) -> (r: bool)
    requires
        at <= chars@.len(),
    ensures
        r == prefix@.is_prefix_of(chars@.skip(at as int)),
        at == 0 ==> r == prefix@.is_prefix_of(chars@),
{
    assert(chars@.skip(0) =~= chars@);
    let count: usize = chars.len();
    if prefix.len() > count - at {
        return false;
    }
    let mut i: usize = 0;
    while i < prefix.len()
        invariant
            i <= prefix@.len(),
            count == chars@.len(),
            at + prefix@.len() <= count,
            forall|j: int| 0 <= j < i ==> prefix@[j] == chars@.skip(at as int)[j],
        decreases prefix@.len() - i,
    {
        if prefix[i] != chars[at + i] {
            assert(prefix@[i as int] != chars@.skip(at as int)[i as int]);
            assert(!(prefix@ =~= chars@.skip(at as int).subrange(0, prefix@.len() as int))) by {
                assert(chars@.skip(at as int).subrange(0, prefix@.len() as int)[i as int]
                    == chars@.skip(at as int)[i as int]);
            }
            return false;
        }
        i += 1;
    }
    assert(prefix@ =~= chars@.skip(at as int).subrange(0, prefix@.len() as int));
    true
}

// ---------------------------------------------------------------------------
// Trimming
// ---------------------------------------------------------------------------

/// The first position whose character does not satisfy `f` is what `leading` counts to.
pub proof fn lemma_leading(s: Seq<char>, f: spec_fn(char) -> bool, k: int)
    requires
        0 <= k <= s.len(),
        forall|i: int| 0 <= i < k ==> f(#[trigger] s[i]),
        k == s.len() || !f(s[k]),
    ensures
        leading(s, f) == k,
    decreases s.len(),
{
    if k > 0 {
        assert(f(s[0]));
        let t = s.drop_first();
        assert forall|i: int| 0 <= i < k - 1 implies f(#[trigger] t[i]) by {
            assert(t[i] == s[i + 1]);
        }
        lemma_leading(t, f, k - 1);
    }
}

/// The last position whose character does not satisfy `f` is where `trailing` stops.
pub proof fn lemma_trailing(s: Seq<char>, f: spec_fn(char) -> bool, k: int)
    requires
        0 <= k <= s.len(),
        forall|i: int| s.len() - k <= i < s.len() ==> f(#[trigger] s[i]),
        k == s.len() || !f(s[s.len() - k - 1]),
    ensures
        trailing(s, f) == k,
    decreases s.len(),
{
    if k > 0 {
        assert(f(s[s.len() - 1]));
        let t = s.drop_last();
        assert forall|i: int| t.len() - (k - 1) <= i < t.len() implies f(#[trigger] t[i]) by {
            assert(t[i] == s[i]);
        }
        lemma_trailing(t, f, k - 1);
    }
}

/// What `leading` counts satisfies `f`, and the next character does not.
pub proof fn lemma_leading_bounds(s: Seq<char>, f: spec_fn(char) -> bool)
    ensures
        leading(s, f) <= s.len(),
        forall|i: int| 0 <= i < leading(s, f) ==> f(#[trigger] s[i]),
        leading(s, f) < s.len() ==> !f(s[leading(s, f) as int]),
    decreases s.len(),
{
    if s.len() > 0 && f(s[0]) {
        let t = s.drop_first();
        lemma_leading_bounds(t, f);
        assert forall|i: int| 0 <= i < leading(s, f) implies f(#[trigger] s[i]) by {
            if i > 0 {
                assert(s[i] == t[i - 1]);
            }
        }
    }
}

/// What `trailing` counts satisfies `f`, and the character before does not.
pub proof fn lemma_trailing_bounds(s: Seq<char>, f: spec_fn(char) -> bool)
    ensures
        trailing(s, f) <= s.len(),
        forall|i: int| s.len() - trailing(s, f) <= i < s.len() ==> f(#[trigger] s[i]),
        trailing(s, f) < s.len() ==> !f(s[s.len() - trailing(s, f) - 1]),
    decreases s.len(),
{
    if s.len() > 0 && f(s.last()) {
        let t = s.drop_last();
        lemma_trailing_bounds(t, f);
        assert forall|i: int| s.len() - trailing(s, f) <= i < s.len() implies f(#[trigger] s[i]) by {
            if i < s.len() - 1 {
                assert(s[i] == t[i]);
            }
        }
    }
}

/// Trimming leaves no white space at either end, takes nothing else away, and
/// leaves nothing at all exactly of blank text.
pub proof fn lemma_trimmed(s: Seq<char>)
    ensures
        trimmed(s).len() > 0 ==> !is_space(trimmed(s)[0]) && !is_space(trimmed(s).last()),
        trimmed(s).len() == 0 <==> is_blank(s),
        exists|i: int, j: int| 0 <= i <= j <= s.len() && #[trigger] s.subrange(i, j) == trimmed(s),
{
    let f = |c: char| is_space(c);
    let a = trim_start_by(s, f);
    lemma_leading_bounds(s, f);
    lemma_trailing_bounds(a, f);
    let i = leading(s, f) as int;
    let j = s.len() - trailing(a, f);
    if trailing(a, f) == a.len() && a.len() > 0 {
        assert(f(a[0]));
        assert(a[0] == s[i]);
    }
    assert(s.subrange(i, j) =~= trimmed(s));
    if is_blank(s) {
        assert(i == s.len()) by {
            if i < s.len() {
                assert(is_space(s[i]));
            }
        }
    }
    if trimmed(s).len() == 0 {
        assert(a.len() == 0);
        assert forall|k: int| 0 <= k < s.len() implies is_space(#[trigger] s[k]) by {
            assert(f(s[k]));
        }
    }
}

/// Whether `c` is white space.
pub fn white(c: char) -> (r: bool)
    ensures
        r == is_space(c),
{
    ('\u{9}' <= c && c <= '\u{d}') || c == ' ' || c == '\u{85}' || c == '\u{a0}' || c == '\u{1680}'
        || ('\u{2000}' <= c && c <= '\u{200a}') || c == '\u{2028}' || c == '\u{2029}' || c
        == '\u{202f}' || c == '\u{205f}' || c == '\u{3000}'
}

/// `chars` without white space at either end.
pub fn trim_chars(chars: &Vec<char>) -> (r: Vec<char>)
    ensures
        r@ == trimmed(chars@),
{
    let ghost f = |c: char| is_space(c);
    let mut from: usize = 0;
    while from < chars.len() && white(chars[from])
        invariant
            from <= chars@.len(),
            forall|i: int| 0 <= i < from ==> f(#[trigger] chars@[i]),
            f == |c: char| is_space(c),
        decreases chars@.len() - from,
    {
        from += 1;
    }
    let ghost a = chars@.skip(from as int);
    proof {
        lemma_leading(chars@, f, from as int);
    }
    let mut to: usize = chars.len();
    while to > from && white(chars[to - 1])
        invariant
            from <= to <= chars@.len(),
            forall|i: int| to - from <= i < a.len() ==> f(#[trigger] a[i]),
            a == chars@.skip(from as int),
            f == |c: char| is_space(c),
        decreases to,
    {
        to -= 1;
        assert(a[to - from] == chars@[to as int]);
    }
    proof {
        if to > from {
            assert(a[to - from - 1] == chars@[to - 1]);
        }
        lemma_trailing(a, f, chars@.len() - to);
        assert(a.take(to - from) =~= chars@.subrange(from as int, to as int));
    }
    range_of(chars, from, to)
}

/// The list `chars[from..to]`.
pub fn range_of(chars: &Vec<char>, from: usize, to: usize) -> (r: Vec<char>)
    requires
        from <= to <= chars@.len(),
    ensures
        r@ == chars@.subrange(from as int, to as int),
{
    let mut out: Vec<char> = Vec::new();
    let mut i: usize = from;
    while i < to
        invariant
            from <= i <= to <= chars@.len(),
            out@ == chars@.subrange(from as int, i as int),
        decreases to - i,
    {
        out.push(chars[i]);
        i += 1;
        assert(out@ =~= chars@.subrange(from as int, i as int));
    }
    out
}

/// `s` without white space at either end.
pub fn trim(s: &str) -> (r: String)
    ensures
        r@ == trimmed(s@),
{
    let chars = chars_of(s);
    let inner = trim_chars(&chars);
    whole_string(&inner)
}

/// Whether `s` is empty or nothing but white space.
pub fn blank(s: &str) -> (r: bool)
    ensures
        r == is_blank(s@),
        r == (trimmed(s@).len() == 0),
{
    let chars = chars_of(s);
    let inner = trim_chars(&chars);
    proof {
        lemma_trimmed(s@);
    }
    inner.len() == 0
}

/// `chars` without the copies of `prefix` that it starts with.
pub fn strip_prefixes(chars: &Vec<char>, prefix: &str) -> (r: Vec<char>)
    ensures
        r@ == without_prefixes(chars@, prefix@),
{
    let p = chars_of(prefix);
    let count: usize = chars.len();
    let mut at: usize = 0;
    assert(chars@.skip(0) =~= chars@);
    while p.len() > 0 && prefix_at(chars, at, &p)
        invariant
            at <= count,
            count == chars@.len(),
            p@ == prefix@,
            without_prefixes(chars@, prefix@) == without_prefixes(chars@.skip(at as int), prefix@),
        decreases chars@.len() - at,
    {
        assert(p@.len() <= chars@.skip(at as int).len());
        assert(chars@.skip(at as int).skip(p@.len() as int) =~= chars@.skip(at + p@.len()));
        at += p.len();
    }
    assert(chars@.subrange(at as int, chars@.len() as int) =~= chars@.skip(at as int));
    range_of(chars, at, chars.len())
}

// ---------------------------------------------------------------------------
// Building
// ---------------------------------------------------------------------------

/// `a` followed by `b`.
pub fn concat2(a: &str, b: &str) -> (r: String)
    ensures
        r@ == a@ + b@,
{
    let mut out = a.to_owned();
    out.append(b);
    out
}

/// `a` followed by `b` and `c`.
pub fn concat3(a: &str, b: &str, c: &str) -> (r: String)
    ensures
        r@ == a@ + b@ + c@,
{
    let mut out = a.to_owned();
    out.append(b);
    out.append(c);
    out
}

/// The letters A to Z of `s` made small.
pub fn to_ascii_lower(s: &str) -> (r: Vec<char>)
    ensures
        r@ == ascii_lower(s@),
{
    let chars = chars_of(s);
    let mut out: Vec<char> = Vec::new();
    let mut i: usize = 0;
    while i < chars.len()
        invariant
            i <= chars@.len(),
            chars@ == s@,
            out@.len() == i,
            forall|j: int| 0 <= j < i ==> out@[j] == lower(s@[j]),
        decreases chars@.len() - i,
    {
        let c = chars[i];
        if 'A' <= c && c <= 'Z' {
            out.push(((c as u8) + 32) as char);
        } else {
            out.push(c);
        }
        i += 1;
    }
    assert(out@ =~= ascii_lower(s@));
    out
}

/// The letters a to z of `chars` made capital.
pub fn to_ascii_upper(chars: &Vec<char>) -> (r: Vec<char>)
    ensures
        r@ == ascii_upper(chars@),
{
    let mut out: Vec<char> = Vec::new();
    let mut i: usize = 0;
    while i < chars.len()
        invariant
            i <= chars@.len(),
            out@.len() == i,
            forall|j: int| 0 <= j < i ==> out@[j] == upper(chars@[j]),
        decreases chars@.len() - i,
    {
        let c = chars[i];
        if 'a' <= c && c <= 'z' {
            out.push(((c as u8) - 32) as char);
        } else {
            out.push(c);
        }
        i += 1;
    }
    assert(out@ =~= ascii_upper(chars@));
    out
}

/// Whether two strings agree but for the case of ASCII letters.
pub fn same_ignoring_ascii_case(a: &str, b: &str) -> (r: bool)
    ensures
        r == (ascii_lower(a@) == ascii_lower(b@)),
{
    let a = to_ascii_lower(a);
    let b = to_ascii_lower(b);
    same_chars(&a, &b)
}

/// The texts that a list of character lists holds.
pub open spec fn char_lists(lists: Seq<Vec<char>>) -> Seq<Seq<char>> {
    lists.map_values(|l: Vec<char>| l@)
}

/// The pieces of `s` between the occurrences of `sep`.
pub fn split(s: &str, sep: char) -> (r: Vec<Vec<char>>)
    ensures
        char_lists(r@) == pieces(s@, sep),
{
    let chars = chars_of(s);
    let mut done: Vec<Vec<char>> = Vec::new();
    let mut open: Vec<char> = Vec::new();
    let mut i: usize = 0;
    assert(chars@.take(0) =~= Seq::empty());
    assert(char_lists(done@).push(open@) =~= seq![Seq::<char>::empty()]);
    while i < chars.len()
        invariant
            i <= chars@.len(),
            char_lists(done@).push(open@) == pieces(chars@.take(i as int), sep),
        decreases chars@.len() - i,
    {
        let c = chars[i];
        let ghost before = char_lists(done@);
        let ghost piece = open@;
        proof {
            assert(chars@.take(i + 1).drop_last() =~= chars@.take(i as int));
            assert(chars@.take(i + 1).last() == c);
            assert(before.push(piece).drop_last() =~= before);
            assert(before.push(piece).last() == piece);
        }
        if c == sep {
            done.push(open);
            open = Vec::new();
            assert(char_lists(done@) =~= before.push(piece));
            assert(open@ =~= Seq::<char>::empty());
        } else {
            open.push(c);
        }
        i += 1;
    }
    assert(chars@.take(chars@.len() as int) =~= chars@);
    let ghost before = char_lists(done@);
    let ghost piece = open@;
    done.push(open);
    assert(char_lists(done@) =~= before.push(piece));
    done
}

/// The parts one after the other, with `sep` between neighbours.
pub fn join(parts: &Vec<Vec<char>>, sep: &str) -> (r: String)
    ensures
        r@ == joined(char_lists(parts@), sep@),
{
    let ghost all = char_lists(parts@);
    let mut out = String::new();
    let mut i: usize = 0;
    assert(all.take(0) =~= Seq::empty());
    while i < parts.len()
        invariant
            i <= parts@.len(),
            all == char_lists(parts@),
            out@ == joined(all.take(i as int), sep@),
        decreases parts@.len() - i,
    {
        proof {
            assert(all.take(i + 1).drop_last() =~= all.take(i as int));
            assert(all.take(i + 1).last() == parts@[i as int]@);
        }
        let part = whole_string(&parts[i]);
        if i > 0 {
            out.append(sep);
        }
        out.append(part.as_str());
        i += 1;
        assert(out@ =~= joined(all.take(i as int), sep@));
    }
    assert(all.take(all.len() as int) =~= all);
    out
}

/// The UTF-8 bytes of a text.
pub fn bytes_of(s: &str) -> (r: Vec<u8>)
    ensures
        r@ == vstd::utf8::encode_utf8(s@),
{
    let bytes = s.as_bytes();
    let mut out: Vec<u8> = Vec::new();
    let mut i: usize = 0;
    while i < bytes.len()
        invariant
            i <= bytes@.len(),
            out@ == bytes@.take(i as int),
        decreases bytes@.len() - i,
    {
        out.push(bytes[i]);
        assert(out@ =~= bytes@.take(i + 1));
        i += 1;
    }
    assert(bytes@.take(bytes@.len() as int) =~= bytes@);
    out
}

// ---------------------------------------------------------------------------
// Laws
// ---------------------------------------------------------------------------

/// The pieces of a text, put together again, make the text; there is at least one,
/// and none holds the separator.
pub proof fn law_pieces_join_back(s: Seq<char>, sep: char)
    ensures
        pieces(s, sep).len() > 0,
        joined(pieces(s, sep), seq![sep]) == s,
        forall|i: int| 0 <= i < pieces(s, sep).len() ==> !(#[trigger] pieces(s, sep)[i]).contains(sep),
    decreases s.len(),
{
    let all = pieces(s, sep);
    if s.len() == 0 {
        assert(joined(all, seq![sep]) =~= s);
        assert(!all[0].contains(sep));
    } else {
        let init = s.drop_last();
        law_pieces_join_back(init, sep);
        let before = pieces(init, sep);
        assert(s =~= init.push(s.last()));
        if s.last() == sep {
            assert(all.drop_last() =~= before);
            assert(joined(all, seq![sep]) =~= s);
            assert forall|i: int| 0 <= i < all.len() implies !(#[trigger] all[i]).contains(sep) by {
                if i < before.len() {
                    assert(all[i] == before[i]);
                }
            }
        } else {
            assert(all.drop_last() =~= before.drop_last());
            assert(joined(all, seq![sep]) =~= s);
            assert forall|i: int| 0 <= i < all.len() implies !(#[trigger] all[i]).contains(sep) by {
                if i < before.len() - 1 {
                    assert(all[i] == before[i]);
                } else {
                    let last = before.last();
                    assert(last == before[before.len() - 1]);
                    assert(!last.contains(sep));
                    assert forall|k: int| 0 <= k < all[i].len() implies all[i][k] != sep by {
                        if k < last.len() {
                            assert(all[i][k] == last[k]);
                        }
                    }
                }
            }
        }
    }
}

proof fn lemma_pieces_grow(a: Seq<char>, b: Seq<char>, sep: char)
    requires
        !b.contains(sep),
    ensures
        pieces(a + b, sep) == pieces(a, sep).drop_last().push(pieces(a, sep).last() + b),
    decreases b.len(),
{
    law_pieces_join_back(a, sep);
    let before = pieces(a, sep);
    if b.len() == 0 {
        assert(a + b =~= a);
        assert(before.last() + b =~= before.last());
        assert(before.drop_last().push(before.last()) =~= before);
    } else {
        let c = b.drop_last();
        assert forall|k: int| 0 <= k < c.len() implies c[k] != sep by {
            assert(b.contains(b[k]));
        }
        lemma_pieces_grow(a, c, sep);
        assert((a + b).drop_last() =~= a + c);
        assert(b.contains(b[b.len() - 1]));
        let mid = before.drop_last().push(before.last() + c);
        assert(mid.drop_last() =~= before.drop_last());
        assert((before.last() + c).push(b.last()) =~= before.last() + b);
    }
}

/// Parts that do not hold the separator, joined with the separator and a gap, fall
/// apart into the same parts again, all but the first with the gap in front.
pub proof fn law_joined_parts_split_back(parts: Seq<Seq<char>>, sep: char, gap: Seq<char>)
    requires
        parts.len() > 0,
        !gap.contains(sep),
        forall|i: int| 0 <= i < parts.len() ==> !(#[trigger] parts[i]).contains(sep),
    ensures
        pieces(joined(parts, seq![sep] + gap), sep).len() == parts.len(),
        forall|i: int|
            0 <= i < parts.len() ==> #[trigger] pieces(joined(parts, seq![sep] + gap), sep)[i] == (
            if i == 0 {
                parts[i]
            } else {
                gap + parts[i]
            }),
    decreases parts.len(),
{
    let none = Seq::<char>::empty();
    if parts.len() == 1 {
        lemma_pieces_grow(none, parts[0], sep);
        assert(none + parts[0] =~= parts[0]);
        assert(pieces(none, sep).last() + parts[0] =~= parts[0]);
    } else {
        let init = parts.drop_last();
        let last = parts.last();
        assert(last == parts[parts.len() - 1]);
        assert forall|i: int| 0 <= i < init.len() implies !(#[trigger] init[i]).contains(sep) by {
            assert(init[i] == parts[i]);
        }
        law_joined_parts_split_back(init, sep, gap);
        let head = joined(init, seq![sep] + gap);
        let closed = head.push(sep);
        let tail = gap + last;
        assert forall|k: int| 0 <= k < tail.len() implies tail[k] != sep by {
            if k < gap.len() {
                assert(gap.contains(gap[k]));
            } else {
                assert(last.contains(last[k - gap.len()]));
            }
        }
        assert(closed.drop_last() =~= head);
        assert(pieces(closed, sep) == pieces(head, sep).push(none));
        lemma_pieces_grow(closed, tail, sep);
        assert(closed + tail =~= head + (seq![sep] + gap) + last);
        assert(none + tail =~= tail);
        let all = pieces(joined(parts, seq![sep] + gap), sep);
        assert(pieces(closed, sep).drop_last() =~= pieces(head, sep));
        assert(all == pieces(head, sep).push(tail));
        assert forall|i: int| 0 <= i < parts.len() implies #[trigger] all[i] == (if i == 0 {
            parts[i]
        } else {
            gap + parts[i]
        }) by {
            if i < init.len() {
                assert(all[i] == pieces(head, sep)[i]);
                assert(init[i] == parts[i]);
            }
        }
    }
}

/// What is joined in two groups is what is joined in one.
pub proof fn law_joining_in_groups(a: Seq<Seq<char>>, b: Seq<Seq<char>>, sep: Seq<char>)
    requires
        a.len() > 0,
        b.len() > 0,
    ensures
        joined(a + b, sep) == joined(a, sep) + sep + joined(b, sep),
    decreases b.len(),
{
    if b.len() == 1 {
        assert((a + b).drop_last() =~= a);
        assert((a + b).last() == b[0]);
    } else {
        law_joining_in_groups(a, b.drop_last(), sep);
        assert((a + b).drop_last() =~= a + b.drop_last());
        assert((a + b).last() == b.last());
        assert(joined(a + b, sep) =~= joined(a, sep) + sep + joined(b, sep));
    }
}

/// Trimming takes away the white space around a text, and nothing of the text.
pub proof fn law_trimming_takes_white_space_only(before: Seq<char>, c: Seq<char>, behind: Seq<char>)
    requires
        is_blank(before),
        is_blank(behind),
        c.len() > 0,
        !is_space(c[0]),
        !is_space(c.last()),
    ensures
        trimmed(before + c + behind) == c,
{
    let f = |c: char| is_space(c);
    let s = before + c + behind;
    assert forall|i: int| 0 <= i < before.len() implies f(#[trigger] s[i]) by {
        assert(s[i] == before[i]);
    }
    assert(s[before.len() as int] == c[0]);
    lemma_leading(s, f, before.len() as int);
    let rest = s.skip(before.len() as int);
    assert(rest =~= c + behind);
    assert forall|i: int| rest.len() - behind.len() <= i < rest.len() implies f(
        #[trigger] rest[i],
    ) by {
        assert(rest[i] == behind[i - c.len()]);
    }
    assert(rest[rest.len() - behind.len() - 1] == c.last());
    lemma_trailing(rest, f, behind.len() as int);
    assert(rest.take(rest.len() - behind.len()) =~= c);
}

/// White space, by code points: tab to carriage return, space, next line, no-break
/// space, the Ogham space, the spaces of general punctuation, the two separators, the
/// narrow and the mathematical space, and the ideographic space.
pub proof fn law_white_space_by_code_points(c: char)
    ensures
        is_space(c) <==> {
            let code = c as int;
            ||| 9 <= code <= 13
            ||| code == 32
            ||| code == 0x85
            ||| code == 0xa0
            ||| code == 0x1680
            ||| 0x2000 <= code <= 0x200a
            ||| code == 0x2028 || code == 0x2029
            ||| code == 0x202f
            ||| code == 0x205f
            ||| code == 0x3000
        },
{
}

/// Only ASCII letters change their case, and each to the letter that is 32 code
/// points away. Going there and back changes nothing else.
pub proof fn law_only_ascii_letters_change_case(c: char)
    ensures
        65 <= c as int <= 90 ==> lower(c) as int == c as int + 32,
        !(65 <= c as int <= 90) ==> lower(c) == c,
        97 <= c as int <= 122 ==> upper(c) as int == c as int - 32,
        !(97 <= c as int <= 122) ==> upper(c) == c,
        upper(lower(c)) == upper(c),
        lower(upper(c)) == lower(c),
{
}

/// Two texts are the same but for the case of ASCII letters where they are as long as
/// each other and the same letter, large or small, stands at every place.
pub proof fn law_case_is_ignored_letter_by_letter(a: &str, b: &str, r: bool)
    requires
        call_ensures(same_ignoring_ascii_case, (a, b), r),
    ensures
        r <==> a@.len() == b@.len() && forall|i: int|
            0 <= i < a@.len() ==> lower(#[trigger] a@[i]) == lower(b@[i]),
{
    let x = ascii_lower(a@);
    let y = ascii_lower(b@);
    if r {
        assert(x.len() == y.len());
        assert forall|i: int| 0 <= i < a@.len() implies lower(#[trigger] a@[i]) == lower(b@[i]) by {
            assert(x[i] == y[i]);
        }
    } else if a@.len() == b@.len() && forall|i: int|
        0 <= i < a@.len() ==> lower(#[trigger] a@[i]) == lower(b@[i]) {
        assert forall|i: int| 0 <= i < x.len() implies x[i] == y[i] by {
            assert(lower(a@[i]) == lower(b@[i]));
        }
        assert(x =~= y);
    }
}

} // verus!
