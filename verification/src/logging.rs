//! The log: where it lies, and the end of it that is shown.

use crate::config::option_path;
use crate::path::{ComponentView, LocalPath, PathView};
use crate::text::concat2;
use vstd::prelude::*;
use vstd::utf8::{encode_utf8, pop_first_scalar, valid_utf8};

verus! {

/// The directory below which the log lies: that of local data, or that of
/// configurations, or the current one.
pub open spec fn log_directory(
    data_local: Option<PathView>,
    config: Option<PathView>,
    current: PathView,
) -> PathView {
    match data_local {
        Some(directory) => directory,
        None => match config {
            Some(directory) => directory,
            None => current,
        },
    }
}

/// The place of the log in a directory.
pub open spec fn log_place(directory: PathView, separator: char) -> PathView {
    directory.child("QuarkDrive"@, separator).child("quarkdrive.log"@, separator)
}

/// The place of the log. It is settled the first time that it is asked for, and
/// `known` from then on. The separator is the platform's.
pub fn path(
    known: &mut Option<LocalPath>,
    data_local: Option<LocalPath>,
    config: Option<LocalPath>,
    current: LocalPath,
    separator: char,
) -> (r: LocalPath)
    ensures
        *final(known) is Some,
        r@ == (*final(known))->0@,
        match *old(known) {
            Some(place) => r@ == place@,
            None => {
                let directory = log_directory(
                    option_path(data_local),
                    option_path(config),
                    current@,
                );
                r@ == log_place(directory, separator) && r@.absolute == directory.absolute
                    && r@.components == directory.components + seq![
                    ComponentView::Normal("QuarkDrive"@),
                    ComponentView::Normal("quarkdrive.log"@),
                ]
            },
        },
{
    if let Some(place) = known {
        return place.clone();
    }
    let directory = match data_local {
        Some(directory) => directory,
        None => match config {
            Some(directory) => directory,
            None => current,
        },
    };
    let place = directory.child("QuarkDrive", separator).child("quarkdrive.log", separator);
    assert(place@.components =~= directory@.components + seq![
        ComponentView::Normal("QuarkDrive"@),
        ComponentView::Normal("quarkdrive.log"@),
    ]);
    *known = Some(place.clone());
    place
}

// ---------------------------------------------------------------------------
// The end of the log
// ---------------------------------------------------------------------------

/// The place behind the first line feed, if there is one.
pub open spec fn behind_first_line(bytes: Seq<u8>) -> Option<nat>
    decreases bytes.len(),
{
    if bytes.len() == 0 {
        None
    } else if bytes[0] == 10 {
        Some(1)
    } else {
        match behind_first_line(bytes.skip(1)) {
            Some(place) => Some(place + 1),
            None => None,
        }
    }
}

/// The end of a log: all of it if it is short enough, else the last `max_bytes`
/// bytes, from the first line that begins there.
pub open spec fn tail(bytes: Seq<u8>, max_bytes: nat) -> Seq<u8> {
    if bytes.len() <= max_bytes {
        bytes
    } else {
        let end = bytes.skip(bytes.len() - max_bytes);
        match behind_first_line(end) {
            Some(place) => end.skip(place as int),
            None => end,
        }
    }
}

fn copy_from(bytes: &Vec<u8>, start: usize) -> (r: Vec<u8>)
    requires
        start <= bytes@.len(),
    ensures
        r@ == bytes@.skip(start as int),
{
    let mut out: Vec<u8> = Vec::new();
    let mut i: usize = start;
    while i < bytes.len()
        invariant
            start <= i <= bytes@.len(),
            out@ == bytes@.subrange(start as int, i as int),
        decreases bytes@.len() - i,
    {
        out.push(bytes[i]);
        assert(out@ =~= bytes@.subrange(start as int, i + 1));
        i += 1;
    }
    assert(out@ =~= bytes@.skip(start as int));
    out
}

/// The end of a log: all of it if it is short enough, else the last `max_bytes`
/// bytes, from the first line that begins there.
pub fn log_tail(bytes: Vec<u8>, max_bytes: usize) -> (r: Vec<u8>)
    ensures
        r@ == tail(bytes@, max_bytes as nat),
{
    if bytes.len() <= max_bytes {
        return bytes;
    }
    let start: usize = bytes.len() - max_bytes;
    let ghost end = bytes@.skip(start as int);
    let mut i: usize = start;
    assert(bytes@.skip(start as int) =~= end.skip(0));
    while i < bytes.len()
        invariant
            start <= i <= bytes@.len(),
            end == bytes@.skip(start as int),
            behind_first_line(end) == (match behind_first_line(bytes@.skip(i as int)) {
                Some(place) => Some((place + i - start) as nat),
                None => None,
            }),
            tail(bytes@, max_bytes as nat) == (match behind_first_line(end) {
                Some(place) => end.skip(place as int),
                None => end,
            }),
        decreases bytes@.len() - i,
    {
        let ghost rest = bytes@.skip(i as int);
        assert(rest[0] == bytes@[i as int]);
        assert(rest.skip(1) =~= bytes@.skip(i + 1));
        if bytes[i] == 10 {
            assert(behind_first_line(end) == Some((i + 1 - start) as nat));
            assert(end.skip(i + 1 - start) =~= bytes@.skip(i + 1));
            return copy_from(&bytes, i + 1);
        }
        i += 1;
    }
    copy_from(&bytes, start)
}

/// The text that some bytes hold, with replacement characters where they are not
/// UTF-8.
pub uninterp spec fn lossy_text(bytes: Seq<u8>) -> Seq<char>;

/// `String::from_utf8_lossy`, whose result is the text itself where the bytes are
/// UTF-8.
#[verifier::external_body]
fn from_utf8_lossy(bytes: &[u8]) -> (r: String)
    ensures
        r@ == lossy_text(bytes@),
        valid_utf8(bytes@) ==> encode_utf8(r@) == bytes@,
{
    String::from_utf8_lossy(bytes).into_owned()
}

/// The end of a log as a text. A log that is not there is empty.
pub fn read_tail(contents: Option<Vec<u8>>, max_bytes: usize) -> (r: String)
    ensures
        match contents {
            Some(bytes) => {
                let end = tail(bytes@, max_bytes as nat);
                r@ == lossy_text(end) && (valid_utf8(end) ==> encode_utf8(r@) == end)
            },
            None => r@.len() == 0,
        },
{
    match contents {
        Some(bytes) => {
            let end = log_tail(bytes, max_bytes);
            from_utf8_lossy(end.as_slice())
        },
        None => String::new(),
    }
}

/// What is shown of the log, or why it cannot be shown.
pub fn log_text(read: Result<String, String>) -> (r: String)
    ensures
        r@ == (match read {
            Ok(text) => text@,
            Err(reason) => "日志读取失败："@ + reason@,
        }),
{
    match read {
        Ok(text) => text,
        Err(reason) => concat2("日志读取失败：", reason.as_str()),
    }
}

// ---------------------------------------------------------------------------
// Laws
// ---------------------------------------------------------------------------

proof fn lemma_behind_first_line(bytes: Seq<u8>)
    ensures
        match behind_first_line(bytes) {
            Some(place) => 0 < place <= bytes.len() && bytes[place - 1] == 10 && forall|i: int|
                0 <= i < place - 1 ==> bytes[i] != 10,
            None => forall|i: int| 0 <= i < bytes.len() ==> bytes[i] != 10,
        },
    decreases bytes.len(),
{
    if bytes.len() > 0 && bytes[0] != 10 {
        let rest = bytes.skip(1);
        lemma_behind_first_line(rest);
        assert forall|i: int| 1 <= i < bytes.len() implies bytes[i] == rest[i - 1] by {}
    }
}

/// What is shown of a log is the end of it, is no longer than was asked for, and
/// begins where a line begins, unless the whole of what fits is part of one line.
pub proof fn law_tail_is_the_end(bytes: Seq<u8>, max_bytes: nat)
    ensures
        ({
            let end = tail(bytes, max_bytes);
            let start = bytes.len() - end.len();
            &&& end.len() <= max_bytes || end == bytes
            &&& 0 <= start
            &&& end == bytes.skip(start)
            &&& start == 0 || bytes[start - 1] == 10 || (end.len() == max_bytes && forall|i: int|
                start <= i < bytes.len() ==> bytes[i] != 10)
        }),
{
    if bytes.len() > max_bytes {
        let from = bytes.len() - max_bytes;
        let end = bytes.skip(from);
        lemma_behind_first_line(end);
        match behind_first_line(end) {
            Some(place) => {
                assert(end.skip(place as int) =~= bytes.skip(from + place));
                assert(bytes[from + place - 1] == end[place - 1]);
            },
            None => {
                assert forall|i: int| from <= i < bytes.len() implies bytes[i] != 10 by {
                    assert(bytes[i] == end[i - from]);
                }
            },
        }
    } else {
        assert(bytes.skip(0) =~= bytes);
    }
}

/// Lines of text stay text: where a log is UTF-8 and the end that is shown begins
/// where a line begins, that end is UTF-8 too.
pub proof fn law_tail_of_text_is_text(bytes: Seq<u8>, max_bytes: nat)
    requires
        valid_utf8(bytes),
        ({
            let start = bytes.len() - tail(bytes, max_bytes).len();
            start == 0 || bytes[start - 1] == 10
        }),
    ensures
        valid_utf8(tail(bytes, max_bytes)),
{
    law_tail_is_the_end(bytes, max_bytes);
    let end = tail(bytes, max_bytes);
    let start = bytes.len() - end.len();
    if start == 0 {
        assert(end =~= bytes);
    } else {
        assert(!vstd::utf8::is_continuation_byte(10u8)) by (bit_vector);
        vstd::utf8::is_char_boundary_iff_not_is_continuation_byte(bytes, start - 1);
        vstd::utf8::valid_utf8_split(bytes, start - 1);
        let line = bytes.subrange(start - 1, bytes.len() as int);
        assert(line[0] == 10);
        assert(vstd::utf8::is_leading_byte_width_1(10u8)) by (bit_vector);
        assert(!vstd::utf8::is_leading_byte_width_2(10u8)) by (bit_vector);
        assert(!vstd::utf8::is_leading_byte_width_3(10u8)) by (bit_vector);
        assert(!vstd::utf8::is_leading_byte_width_4(10u8)) by (bit_vector);
        assert(pop_first_scalar(line) =~= end);
    }
}

/// As much of a log is shown as can be: no line that begins among the bytes that fit
/// is left out.
pub proof fn law_tail_leaves_out_no_line(bytes: Vec<u8>, max_bytes: usize, r: Vec<u8>, line: int)
    requires
        call_ensures(log_tail, (bytes, max_bytes), r),
        0 < line <= bytes@.len(),
        bytes@[line - 1] == 10,
        bytes@.len() - line < max_bytes,
    ensures
        r@.len() >= bytes@.len() - line,
        r@ == bytes@.skip(bytes@.len() - r@.len()),
        bytes@.len() <= max_bytes ==> r@ == bytes@,
        bytes@.len() > max_bytes ==> r@.len() <= max_bytes,
{
    law_tail_is_the_end(bytes@, max_bytes as nat);
    if bytes@.len() > max_bytes {
        let from = bytes@.len() - max_bytes;
        let end = bytes@.skip(from);
        lemma_behind_first_line(end);
        assert(end[line - 1 - from] == 10);
    }
}

/// The log lies below the directory for local data where there is one, else below
/// that for configurations, else below the current one; and it stays where it was
/// found first.
pub proof fn law_log_stays_where_it_is(
    known: &mut Option<LocalPath>,
    data_local: Option<LocalPath>,
    config: Option<LocalPath>,
    current: LocalPath,
    separator: char,
    r: LocalPath,
)
    requires
        call_ensures(path, (known, data_local, config, current, separator), r),
    ensures
        *final(known) is Some,
        (*final(known))->0@ == r@,
        *old(known) matches Some(place) ==> r@ == place@,
        *old(known) is None ==> {
            let directory = if data_local is Some {
                data_local->0@
            } else if config is Some {
                config->0@
            } else {
                current@
            };
            &&& r@.descends(directory)
            &&& r@.absolute == directory.absolute
            &&& r@.components.len() == directory.components.len() + 2
            &&& r@.components.last() == ComponentView::Normal("quarkdrive.log"@)
        },
{
    if *old(known) is None {
        let directory = log_directory(option_path(data_local), option_path(config), current@);
        let names = seq![
            ComponentView::Normal("QuarkDrive"@),
            ComponentView::Normal("quarkdrive.log"@),
        ];
        crate::path::law_descent(r@, directory, directory, names);
    }
}

/// What is shown of a log that is text is the end of it, and of none nothing.
pub proof fn law_shown_log_is_its_end(contents: Option<Vec<u8>>, max_bytes: usize, r: String)
    requires
        call_ensures(read_tail, (contents, max_bytes), r),
    ensures
        contents is None ==> r@.len() == 0,
        contents matches Some(bytes) ==> (valid_utf8(bytes@) && bytes@.len() <= max_bytes
            ==> encode_utf8(r@) == bytes@),
{
}

/// A log that could be read is shown as it is, and otherwise why it could not.
pub proof fn law_log_or_its_failure_is_shown(read: Result<String, String>, r: String)
    requires
        call_ensures(log_text, (read,), r),
    ensures
        read matches Ok(text) ==> r@ == text@,
        read matches Err(reason) ==> r@ == "日志读取失败："@ + reason@,
{
}

} // verus!
