//! File names: those that the sync engine keeps for itself, and those that
//! Windows accepts.

use crate::text::{
    ascii_lower, ascii_upper, chars_of, has_prefix, leading, range_of, to_ascii_lower,
    to_ascii_upper, trailing, trim_end_by, upper, whole_string,
};
use vstd::prelude::*;

verus! {

broadcast use vstd::seq_lib::group_seq_properties;

// ---------------------------------------------------------------------------
// Internal names
// ---------------------------------------------------------------------------

/// The names reserved for recycle-bin and staged upload objects, whatever the
/// case of their ASCII letters.
pub open spec fn internal_name(name: Seq<char>) -> bool {
    let n = ascii_lower(name);
    ||| ".quarkdrive-trash-"@.is_prefix_of(n)
    ||| "_quarkdrive_trash_"@.is_prefix_of(n)
    ||| ".quarkdrive-upload-"@.is_prefix_of(n)
    ||| ".quarkdrive-backup-"@.is_prefix_of(n)
}

/// Names reserved by the sync implementation for recycle-bin and staged
/// upload objects. They are implementation details, not user files, and must
/// never be exposed as remote placeholders or uploaded from the local mount.
pub fn is_internal_name(name: &str) -> (r: bool)
    ensures
        r == internal_name(name@),
{
    let n = to_ascii_lower(name);
    has_prefix(&n, ".quarkdrive-trash-") || has_prefix(&n, "_quarkdrive_trash_") || has_prefix(
        &n,
        ".quarkdrive-upload-",
    ) || has_prefix(&n, ".quarkdrive-backup-")
}

/// The name of the object that a replacement is uploaded to.
pub open spec fn staged_name(token: Seq<char>) -> Seq<char> {
    ".quarkdrive-upload-"@ + token
}

/// The name that the replaced object carries until it is deleted.
pub open spec fn backup_name(token: Seq<char>) -> Seq<char> {
    ".quarkdrive-backup-"@ + token
}

/// The names that a replacement gives to its objects on the way are internal,
/// whatever the token, so no listing shows them.
pub proof fn law_replacement_names_are_internal(token: Seq<char>)
    ensures
        internal_name(staged_name(token)),
        internal_name(backup_name(token)),
{
    reveal_strlit(".quarkdrive-upload-");
    reveal_strlit(".quarkdrive-backup-");
    let staged = ascii_lower(staged_name(token));
    let upload = ".quarkdrive-upload-"@;
    assert(upload =~= staged.subrange(0, upload.len() as int));
    let replaced = ascii_lower(backup_name(token));
    let backup = ".quarkdrive-backup-"@;
    assert(backup =~= replaced.subrange(0, backup.len() as int));
}

// ---------------------------------------------------------------------------
// Names that Windows accepts
// ---------------------------------------------------------------------------

/// The characters that a Windows file name may not hold.
pub open spec fn forbidden(c: char) -> bool {
    ||| c == '<'
    ||| c == '>'
    ||| c == ':'
    ||| c == '"'
    ||| c == '/'
    ||| c == '\\'
    ||| c == '|'
    ||| c == '?'
    ||| c == '*'
    ||| c < ' '
}

pub open spec fn space_or_dot(c: char) -> bool {
    c == ' ' || c == '.'
}

/// What comes before the first dot.
pub open spec fn stem(name: Seq<char>) -> Seq<char> {
    name.take(leading(name, |c: char| c != '.') as int)
}

/// The device names, in capital letters.
pub open spec fn device(name: Seq<char>) -> bool {
    ||| name == "CON"@
    ||| name == "PRN"@
    ||| name == "AUX"@
    ||| name == "NUL"@
    ||| name.len() == 4 && (name.take(3) == "COM"@ || name.take(3) == "LPT"@) && '1' <= name[3] <= '9'
}

/// Each forbidden character replaced by a full-width low line, spaces and dots
/// taken off the end, and a name put in for an empty one.
pub open spec fn cleaned(name: Seq<char>) -> Seq<char> {
    let shown = name.map_values(
        |c: char|
            if forbidden(c) {
                '＿'
            } else {
                c
            },
    );
    let cut = trim_end_by(shown, |c: char| space_or_dot(c));
    if cut.len() == 0 {
        "未命名"@
    } else {
        cut
    }
}

/// The cleaned name, with a full-width low line in front if its stem names a
/// device.
pub open spec fn safe_name(name: Seq<char>) -> Seq<char> {
    if device(ascii_upper(stem(cleaned(name)))) {
        seq!['＿'] + cleaned(name)
    } else {
        cleaned(name)
    }
}

fn is_forbidden(c: char) -> (r: bool)
    ensures
        r == forbidden(c),
{
    c == '<' || c == '>' || c == ':' || c == '"' || c == '/' || c == '\\' || c == '|' || c == '?'
        || c == '*' || c < ' '
}

/// Whether `name` is a device name in capital letters.
fn is_device(name: &Vec<char>) -> (r: bool)
    ensures
        r == device(name@),
{
    proof {
        reveal_strlit("CON");
        reveal_strlit("PRN");
        reveal_strlit("AUX");
        reveal_strlit("NUL");
        reveal_strlit("COM");
        reveal_strlit("LPT");
    }
    if name.len() == 3 {
        assert(name@.subrange(0, 3) =~= name@);
        has_prefix(name, "CON") || has_prefix(name, "PRN") || has_prefix(name, "AUX") || has_prefix(
            name,
            "NUL",
        )
    } else if name.len() == 4 {
        (has_prefix(name, "COM") || has_prefix(name, "LPT")) && '1' <= name[3] && name[3] <= '9'
    } else {
        false
    }
}

/// The name under which a remote item is shown in a Windows directory.
pub fn windows_name(name: &str) -> (r: String)
    ensures
        r@ == safe_name(name@),
{
    let mut value = chars_of(name);
    let ghost shown = name@.map_values(
        |c: char|
            if forbidden(c) {
                '＿'
            } else {
                c
            },
    );
    let mut i: usize = 0;
    while i < value.len()
        invariant
            i <= value@.len(),
            value@.len() == name@.len(),
            shown == name@.map_values(
                |c: char|
                    if forbidden(c) {
                        '＿'
                    } else {
                        c
                    },
            ),
            forall|j: int| 0 <= j < i ==> value@[j] == shown[j],
            forall|j: int| i <= j < value@.len() ==> value@[j] == name@[j],
        decreases value@.len() - i,
    {
        if is_forbidden(value[i]) {
            value.set(i, '＿');
        }
        i += 1;
    }
    assert(value@ =~= shown);
    let ghost end = |c: char| space_or_dot(c);
    assert(value@ =~= shown.take(shown.len() as int));
    while value.len() > 0 && (value[value.len() - 1] == ' ' || value[value.len() - 1] == '.')
        invariant
            value@.len() <= shown.len(),
            value@ == shown.take(value@.len() as int),
            forall|j: int| value@.len() <= j < shown.len() ==> end(#[trigger] shown[j]),
            end == |c: char| space_or_dot(c),
        decreases value@.len(),
    {
        let ghost count = value@.len();
        value.pop();
        assert(value@ =~= shown.take(value@.len() as int));
        assert(end(shown[count - 1]));
    }
    proof {
        crate::text::lemma_trailing(shown, end, shown.len() - value@.len());
    }
    if value.len() == 0 {
        value = chars_of("未命名");
    }
    assert(value@ == cleaned(name@));
    let mut cut: usize = 0;
    let ghost inner = |c: char| c != '.';
    while cut < value.len() && value[cut] != '.'
        invariant
            cut <= value@.len(),
            forall|j: int| 0 <= j < cut ==> inner(#[trigger] value@[j]),
            inner == |c: char| c != '.',
        decreases value@.len() - cut,
    {
        cut += 1;
    }
    proof {
        crate::text::lemma_leading(value@, inner, cut as int);
        assert(value@.subrange(0, cut as int) =~= value@.take(cut as int));
    }
    let stem = range_of(&value, 0, cut);
    let stem = to_ascii_upper(&stem);
    if is_device(&stem) {
        let mut out = String::new();
        out.push('＿');
        let rest = whole_string(&value);
        out.append(rest.as_str());
        assert(out@ =~= seq!['＿'] + value@);
        out
    } else {
        whole_string(&value)
    }
}

// ---------------------------------------------------------------------------
// Laws of the Windows names
// ---------------------------------------------------------------------------

/// A name that Windows takes as it stands: not empty, no forbidden character,
/// no space or dot at its end, and no device name before its first dot.
pub open spec fn legal_name(name: Seq<char>) -> bool {
    &&& name.len() > 0
    &&& forall|i: int| 0 <= i < name.len() ==> !forbidden(#[trigger] name[i])
    &&& !space_or_dot(name.last())
    &&& !device(ascii_upper(stem(name)))
}

proof fn lemma_cleaned(name: Seq<char>)
    ensures
        cleaned(name).len() > 0,
        forall|i: int| 0 <= i < cleaned(name).len() ==> !forbidden(#[trigger] cleaned(name)[i]),
        !space_or_dot(cleaned(name).last()),
{
    let shown = name.map_values(
        |c: char|
            if forbidden(c) {
                '＿'
            } else {
                c
            },
    );
    let end = |c: char| space_or_dot(c);
    crate::text::lemma_trailing_bounds(shown, end);
    reveal_strlit("未命名");
    let cut = trim_end_by(shown, end);
    if cut.len() > 0 {
        assert(!end(shown[shown.len() - trailing(shown, end) - 1]));
        assert(cut.last() == shown[shown.len() - trailing(shown, end) - 1]);
    }
}

proof fn lemma_marked_is_no_device(name: Seq<char>)
    requires
        name.len() > 0,
        name[0] == '＿',
    ensures
        !device(ascii_upper(stem(name))),
{
    reveal_strlit("CON");
    reveal_strlit("PRN");
    reveal_strlit("AUX");
    reveal_strlit("NUL");
    reveal_strlit("COM");
    reveal_strlit("LPT");
    let s = ascii_upper(stem(name));
    let inner = |c: char| c != '.';
    crate::text::lemma_leading_bounds(name, inner);
    if s.len() > 0 {
        assert(s[0] == upper(name[0]));
        assert(s[0] == '＿');
        assert(s.len() == 4 ==> s.take(3)[0] == '＿');
    }
}

/// Whatever the remote name, the name shown is one that Windows takes.
pub proof fn law_safe_name_is_legal(name: Seq<char>)
    ensures
        legal_name(safe_name(name)),
{
    lemma_cleaned(name);
    let c = cleaned(name);
    let out = safe_name(name);
    if device(ascii_upper(stem(c))) {
        lemma_marked_is_no_device(out);
        assert(out.last() == c.last());
        assert forall|i: int| 0 <= i < out.len() implies !forbidden(#[trigger] out[i]) by {
            if i > 0 {
                assert(out[i] == c[i - 1]);
            }
        }
    }
}

/// A legal name is shown unchanged.
pub proof fn law_legal_name_is_kept(name: Seq<char>)
    requires
        legal_name(name),
    ensures
        safe_name(name) == name,
{
    let shown = name.map_values(
        |c: char|
            if forbidden(c) {
                '＿'
            } else {
                c
            },
    );
    assert(shown =~= name);
    let end = |c: char| space_or_dot(c);
    crate::text::lemma_trailing(shown, end, 0);
    assert(shown.take(shown.len() as int) =~= name);
}

/// Cleaning a name twice is the same as cleaning it once.
pub proof fn law_safe_name_is_stable(name: Seq<char>)
    ensures
        safe_name(safe_name(name)) == safe_name(name),
{
    law_safe_name_is_legal(name);
    law_legal_name_is_kept(safe_name(name));
}

/// The names that the sync engine keeps for itself: the case of ASCII letters does
/// not count, whatever follows one of the four beginnings is internal, and nothing
/// is that begins with another character than theirs or is shorter than they are.
pub proof fn law_internal_names(name: Seq<char>, rest: Seq<char>)
    ensures
        internal_name(ascii_lower(name)) == internal_name(name),
        internal_name(".quarkdrive-trash-"@ + rest),
        internal_name("_quarkdrive_trash_"@ + rest),
        internal_name(".quarkdrive-upload-"@ + rest),
        internal_name(".quarkdrive-backup-"@ + rest),
        internal_name(name) ==> name.len() >= 18 && (name[0] == '.' || name[0] == '_'),
        internal_name(name) ==> ascii_lower(name).subrange(1, 11) == "quarkdrive"@,
{
    reveal_strlit(".quarkdrive-trash-");
    reveal_strlit("_quarkdrive_trash_");
    reveal_strlit(".quarkdrive-upload-");
    reveal_strlit(".quarkdrive-backup-");
    reveal_strlit("quarkdrive");
    assert(ascii_lower(ascii_lower(name)) =~= ascii_lower(name));
    lemma_beginning(".quarkdrive-trash-"@, rest);
    lemma_beginning("_quarkdrive_trash_"@, rest);
    lemma_beginning(".quarkdrive-upload-"@, rest);
    lemma_beginning(".quarkdrive-backup-"@, rest);
    let n = ascii_lower(name);
    if internal_name(name) {
        assert(n[0] == '.' || n[0] == '_') by {
            lemma_same_beginning(".quarkdrive-trash-"@, n);
            lemma_same_beginning("_quarkdrive_trash_"@, n);
            lemma_same_beginning(".quarkdrive-upload-"@, n);
            lemma_same_beginning(".quarkdrive-backup-"@, n);
        }
        assert(n[0] == crate::text::lower(name[0]));
        lemma_same_beginning(".quarkdrive-trash-"@, n);
        lemma_same_beginning("_quarkdrive_trash_"@, n);
        lemma_same_beginning(".quarkdrive-upload-"@, n);
        lemma_same_beginning(".quarkdrive-backup-"@, n);
        assert(n.subrange(1, 11) =~= "quarkdrive"@);
    }
}

proof fn lemma_same_beginning(prefix: Seq<char>, s: Seq<char>)
    ensures
        prefix.is_prefix_of(s) ==> prefix.len() <= s.len() && forall|i: int|
            0 <= i < prefix.len() ==> #[trigger] s[i] == prefix[i],
{
    if prefix.is_prefix_of(s) {
        assert forall|i: int| 0 <= i < prefix.len() implies #[trigger] s[i] == prefix[i] by {
            assert(prefix[i] == s.subrange(0, prefix.len() as int)[i]);
        }
    }
}

proof fn lemma_beginning(prefix: Seq<char>, rest: Seq<char>)
    requires
        forall|i: int| 0 <= i < prefix.len() ==> !('A' <= #[trigger] prefix[i] <= 'Z'),
    ensures
        prefix.is_prefix_of(ascii_lower(prefix + rest)),
{
    let all = ascii_lower(prefix + rest);
    assert(prefix =~= all.subrange(0, prefix.len() as int));
}

/// A name that is shown holds none of the characters that Windows forbids: none of
/// `<>:"/\|?*`, and no control character. It is not empty, and does not end with a
/// space or a dot.
pub proof fn law_shown_name_has_no_forbidden_character(name: &str, r: String)
    requires
        call_ensures(windows_name, (name,), r),
    ensures
        r@.len() > 0,
        r@.last() != ' ' && r@.last() != '.',
        forall|i: int| 0 <= i < r@.len() ==> taken(#[trigger] r@[i]),
{
    law_safe_name_is_legal(name@);
    assert forall|i: int| 0 <= i < r@.len() implies taken(#[trigger] r@[i]) by {
        assert(!forbidden(r@[i]));
    }
}

/// A name that is shown is no device name, and no device name with something
/// behind a dot, in letters of either case.
pub proof fn law_shown_name_is_no_device(name: &str, r: String, beginning: Seq<char>, rest: Seq<char>)
    requires
        call_ensures(windows_name, (name,), r),
        r@ == beginning + rest,
        rest.len() == 0 || rest[0] == '.',
        !beginning.contains('.'),
    ensures
        no_device(ascii_upper(beginning)),
{
    law_safe_name_is_legal(name@);
    lemma_stem(r@, beginning, rest);
    lemma_devices(ascii_upper(beginning));
}

proof fn lemma_devices(b: Seq<char>)
    requires
        !device(b),
    ensures
        b != "CON"@ && b != "PRN"@ && b != "AUX"@ && b != "NUL"@,
        forall|d: char| '1' <= d <= '9' ==> b != #[trigger] "COM"@.push(d),
        forall|d: char| '1' <= d <= '9' ==> b != #[trigger] "LPT"@.push(d),
{
    reveal_strlit("COM");
    reveal_strlit("LPT");
    assert forall|d: char| '1' <= d <= '9' implies b != #[trigger] "COM"@.push(d) by {
        let name = "COM"@.push(d);
        assert(name.len() == 4 && name[3] == d);
        assert(name.take(3) =~= "COM"@);
        assert(device(name));
    }
    assert forall|d: char| '1' <= d <= '9' implies b != #[trigger] "LPT"@.push(d) by {
        let name = "LPT"@.push(d);
        assert(name.len() == 4 && name[3] == d);
        assert(name.take(3) =~= "LPT"@);
        assert(device(name));
    }
}

/// The characters that Windows takes in a name.
pub open spec fn taken(c: char) -> bool {
    &&& c != '<' && c != '>' && c != ':' && c != '"' && c != '/' && c != '\\' && c != '|'
    &&& c != '?' && c != '*' && c as int >= 32
}

/// None of the device names.
pub open spec fn no_device(b: Seq<char>) -> bool {
    &&& b != "CON"@ && b != "PRN"@ && b != "AUX"@ && b != "NUL"@
    &&& forall|d: char| '1' <= d <= '9' ==> b != #[trigger] "COM"@.push(d)
    &&& forall|d: char| '1' <= d <= '9' ==> b != #[trigger] "LPT"@.push(d)
}

/// What Windows takes is kept: a name that does not end with a space or a dot, and
/// has no device name before its first dot, keeps its length and every character
/// that Windows takes, and any other becomes a full-width low line.
pub proof fn law_shown_name_keeps_the_rest(
    name: &str,
    r: String,
    beginning: Seq<char>,
    rest: Seq<char>,
)
    requires
        call_ensures(windows_name, (name,), r),
        name@.len() > 0,
        name@.last() != ' ' && name@.last() != '.',
        name@ == beginning + rest,
        rest.len() == 0 || rest[0] == '.',
        !beginning.contains('.'),
        no_device(ascii_upper(beginning)),
    ensures
        r@.len() == name@.len(),
        forall|i: int|
            0 <= i < name@.len() ==> #[trigger] r@[i] == (if taken(name@[i]) {
                name@[i]
            } else {
                '＿'
            }),
{
    let shown = name@.map_values(
        |c: char|
            if forbidden(c) {
                '＿'
            } else {
                c
            },
    );
    lemma_stem(name@, beginning, rest);
    lemma_no_device(ascii_upper(beginning));
    lemma_nothing_cut(name@, shown);
    lemma_same_stem(name@, shown);
}

proof fn lemma_no_device(b: Seq<char>)
    requires
        no_device(b),
    ensures
        !device(b),
{
    if b.len() == 4 {
        assert(b =~= b.take(3).push(b[3]));
    }
}

proof fn lemma_stem(name: Seq<char>, beginning: Seq<char>, rest: Seq<char>)
    requires
        name == beginning + rest,
        rest.len() == 0 || rest[0] == '.',
        !beginning.contains('.'),
    ensures
        stem(name) == beginning,
{
    let inner = |c: char| c != '.';
    assert forall|i: int| 0 <= i < beginning.len() implies inner(#[trigger] name[i]) by {
        assert(name[i] == beginning[i]);
        assert(beginning.contains(beginning[i]));
    }
    assert(beginning.len() < name.len() ==> name[beginning.len() as int] == rest[0]);
    crate::text::lemma_leading(name, inner, beginning.len() as int);
    assert(name.take(beginning.len() as int) =~= beginning);
}

proof fn lemma_nothing_cut(name: Seq<char>, shown: Seq<char>)
    requires
        name.len() > 0,
        name.last() != ' ' && name.last() != '.',
        shown == name.map_values(
            |c: char|
                if forbidden(c) {
                    '＿'
                } else {
                    c
                },
        ),
    ensures
        cleaned(name) == shown,
{
    let end = |c: char| space_or_dot(c);
    assert(shown.last() == shown[shown.len() - 1]);
    assert(name.last() == name[name.len() - 1]);
    assert(!end(shown.last()));
    crate::text::lemma_trailing(shown, end, 0);
    assert(shown.take(shown.len() as int) =~= shown);
}

proof fn lemma_same_stem(name: Seq<char>, shown: Seq<char>)
    requires
        shown.len() == name.len(),
        forall|i: int|
            0 <= i < name.len() ==> #[trigger] shown[i] == (if forbidden(name[i]) {
                '＿'
            } else {
                name[i]
            }),
        !device(ascii_upper(stem(name))),
    ensures
        !device(ascii_upper(stem(shown))),
{
    reveal_strlit("CON");
    reveal_strlit("PRN");
    reveal_strlit("AUX");
    reveal_strlit("NUL");
    reveal_strlit("COM");
    reveal_strlit("LPT");
    let inner = |c: char| c != '.';
    crate::text::lemma_leading_bounds(name, inner);
    let k = leading(name, inner) as int;
    assert forall|i: int| 0 <= i < k implies inner(#[trigger] shown[i]) by {
        assert(inner(name[i]));
    }
    assert(k < name.len() ==> shown[k] == name[k]);
    crate::text::lemma_leading(shown, inner, k);
    let a = ascii_upper(stem(name));
    let b = ascii_upper(stem(shown));
    assert(a.len() == k && b.len() == k);
    if exists|i: int| 0 <= i < k && forbidden(#[trigger] name[i]) {
        let i = choose|i: int| 0 <= i < k && forbidden(#[trigger] name[i]);
        assert(b[i] == upper(shown[i]));
        assert(b[i] == '＿');
        if k == 4 && i < 3 {
            assert(b.take(3)[i] == '＿');
        }
    } else {
        assert(b =~= a) by {
            assert forall|i: int| 0 <= i < k implies b[i] == a[i] by {
                assert(!forbidden(name[i]));
                assert(shown[i] == name[i]);
            }
        }
    }
}

/// A name that is internal is, in small letters, one of the four beginnings and
/// something behind it.
pub proof fn law_only_these_names_are_internal(name: &str, r: bool)
    requires
        call_ensures(is_internal_name, (name,), r),
    ensures
        r <==> exists|rest: Seq<char>|
            {
                let n = ascii_lower(name@);
                ||| n == #[trigger] (".quarkdrive-trash-"@ + rest)
                ||| n == "_quarkdrive_trash_"@ + rest
                ||| n == ".quarkdrive-upload-"@ + rest
                ||| n == ".quarkdrive-backup-"@ + rest
            },
{
    let n = ascii_lower(name@);
    let a = ".quarkdrive-trash-"@;
    let b = "_quarkdrive_trash_"@;
    let c = ".quarkdrive-upload-"@;
    let d = ".quarkdrive-backup-"@;
    if r {
        let p = if a.is_prefix_of(n) {
            a
        } else if b.is_prefix_of(n) {
            b
        } else if c.is_prefix_of(n) {
            c
        } else {
            d
        };
        let rest = n.skip(p.len() as int);
        assert(n =~= p + rest);
        assert(a + rest == a + rest);
    }
    if exists|rest: Seq<char>|
        {
            ||| n == #[trigger] (a + rest)
            ||| n == b + rest
            ||| n == c + rest
            ||| n == d + rest
        } {
        let rest = choose|rest: Seq<char>|
            {
                ||| n == #[trigger] (a + rest)
                ||| n == b + rest
                ||| n == c + rest
                ||| n == d + rest
            };
        assert(a =~= (a + rest).subrange(0, a.len() as int));
        assert(b =~= (b + rest).subrange(0, b.len() as int));
        assert(c =~= (c + rest).subrange(0, c.len() as int));
        assert(d =~= (d + rest).subrange(0, d.len() as int));
    }
}

/// A space or a dot at the end of a name makes no difference to how it is shown.
pub proof fn law_spaces_and_dots_at_the_end_do_not_matter(
    name: &str,
    longer: &str,
    c: char,
    r: String,
    s: String,
)
    requires
        call_ensures(windows_name, (name,), r),
        call_ensures(windows_name, (longer,), s),
        c == ' ' || c == '.',
        longer@ == name@.push(c),
    ensures
        s@ == r@,
{
    let show = |c: char|
        if forbidden(c) {
            '＿'
        } else {
            c
        };
    let end = |c: char| space_or_dot(c);
    let short = name@.map_values(show);
    let long = longer@.map_values(show);
    assert(long =~= short.push(c));
    assert(long.drop_last() =~= short);
    assert(end(long.last()));
    crate::text::lemma_trailing_bounds(short, end);
    assert(trailing(long, end) == 1 + trailing(short, end));
    assert(trim_end_by(long, end) =~= trim_end_by(short, end));
}

/// A device name that is otherwise fit to be shown gets a full-width low line in
/// front, and nothing else.
pub proof fn law_devices_are_marked(name: &str, r: String, beginning: Seq<char>, rest: Seq<char>)
    requires
        call_ensures(windows_name, (name,), r),
        name@.len() > 0,
        name@.last() != ' ' && name@.last() != '.',
        forall|i: int| 0 <= i < name@.len() ==> taken(#[trigger] name@[i]),
        name@ == beginning + rest,
        rest.len() == 0 || rest[0] == '.',
        !beginning.contains('.'),
        !no_device(ascii_upper(beginning)),
    ensures
        r@ == seq!['＿'] + name@,
{
    let shown = name@.map_values(
        |c: char|
            if forbidden(c) {
                '＿'
            } else {
                c
            },
    );
    assert forall|i: int| 0 <= i < name@.len() implies shown[i] == name@[i] by {
        assert(taken(name@[i]));
    }
    assert(shown =~= name@);
    lemma_nothing_cut(name@, shown);
    lemma_stem(name@, beginning, rest);
    if !device(ascii_upper(beginning)) {
        lemma_devices(ascii_upper(beginning));
    }
}

} // verus!
