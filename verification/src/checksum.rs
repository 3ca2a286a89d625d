//! Hashes of contents, and the texts that headers carry them in.

use crate::digits::{hex_bytes, hex_of};
use base64::Engine;
use md5::Digest;
use vstd::prelude::*;

verus! {

// ---------------------------------------------------------------------------
// MD5 and SHA-1
// ---------------------------------------------------------------------------

/// `md5::Md5`, an MD5 computation under way.
#[verifier::external_type_specification]
#[verifier::external_body]
pub struct ExMd5(md5::Md5);

/// `sha1::Sha1`, a SHA-1 computation under way.
#[verifier::external_type_specification]
#[verifier::external_body]
pub struct ExSha1(sha1::Sha1);

/// The bytes that an MD5 computation has taken in.
pub uninterp spec fn md5_taken(h: md5::Md5) -> Seq<u8>;

/// The bytes that a SHA-1 computation has taken in.
pub uninterp spec fn sha1_taken(h: sha1::Sha1) -> Seq<u8>;

/// The MD5 hash of some bytes.
pub uninterp spec fn md5_hash(bytes: Seq<u8>) -> Seq<u8>;

/// The SHA-1 hash of some bytes.
pub uninterp spec fn sha1_hash(bytes: Seq<u8>) -> Seq<u8>;

/// `md5::Md5::new` starts with nothing taken in.
#[verifier::external_body]
fn md5_new() -> (r: md5::Md5)
    ensures
        md5_taken(r) == Seq::<u8>::empty(),
{
    md5::Md5::new()
}

/// `md5::Md5::update` takes in more bytes.
#[verifier::external_body]
fn md5_update(h: &mut md5::Md5, bytes: &[u8])
    ensures
        md5_taken(*final(h)) == md5_taken(*old(h)) + bytes@,
{
    h.update(bytes)
}

/// `md5::Md5::finalize` gives the hash, of 16 bytes, of all that was taken in.
#[verifier::external_body]
fn md5_finalize(h: md5::Md5) -> (r: Vec<u8>)
    ensures
        r@ == md5_hash(md5_taken(h)),
        r@.len() == 16,
{
    h.finalize().to_vec()
}

/// `sha1::Sha1::new` starts with nothing taken in.
#[verifier::external_body]
fn sha1_new() -> (r: sha1::Sha1)
    ensures
        sha1_taken(r) == Seq::<u8>::empty(),
{
    sha1::Sha1::new()
}

/// `sha1::Sha1::update` takes in more bytes.
#[verifier::external_body]
fn sha1_update(h: &mut sha1::Sha1, bytes: &[u8])
    ensures
        sha1_taken(*final(h)) == sha1_taken(*old(h)) + bytes@,
{
    h.update(bytes)
}

/// `sha1::Sha1::finalize` gives the hash, of 20 bytes, of all that was taken in.
#[verifier::external_body]
fn sha1_finalize(h: sha1::Sha1) -> (r: Vec<u8>)
    ensures
        r@ == sha1_hash(sha1_taken(h)),
        r@.len() == 20,
{
    h.finalize().to_vec()
}

/// Both hashes of a file, computed while the file is read.
pub struct FileHashes {
    md5: md5::Md5,
    sha1: sha1::Sha1,
}

impl FileHashes {
    /// The bytes that were taken in so far.
    pub closed spec fn content(&self) -> Seq<u8> {
        md5_taken(self.md5)
    }

    /// Both computations have taken in the same bytes.
    pub closed spec fn wf(&self) -> bool {
        md5_taken(self.md5) == sha1_taken(self.sha1)
    }

    /// Nothing read yet.
    pub fn new() -> (r: FileHashes)
        ensures
            r.wf(),
            r.content() == Seq::<u8>::empty(),
    {
        FileHashes { md5: md5_new(), sha1: sha1_new() }
    }

    /// Takes in the bytes that were read next.
    pub fn update(&mut self, bytes: &[u8])
        requires
            old(self).wf(),
        ensures
            final(self).wf(),
            final(self).content() == old(self).content() + bytes@,
    {
        md5_update(&mut self.md5, bytes);
        sha1_update(&mut self.sha1, bytes);
    }

    /// The MD5 and the SHA-1 hash of the file, in hexadecimal.
    pub fn finish(self) -> (r: (String, String))
        requires
            self.wf(),
        ensures
            r.0@ == hex_bytes(md5_hash(self.content())),
            r.1@ == hex_bytes(sha1_hash(self.content())),
    {
        let md5 = md5_finalize(self.md5);
        let sha1 = sha1_finalize(self.sha1);
        (hex_of(md5.as_slice()), hex_of(sha1.as_slice()))
    }
}

/// The hash of a file does not depend on how it was cut into pieces: taking in
/// two pieces is taking in the one that they make.
pub proof fn law_pieces_do_not_matter(
    start: FileHashes,
    first: Seq<u8>,
    second: Seq<u8>,
    middle: FileHashes,
    stepwise: FileHashes,
    at_once: FileHashes,
)
    requires
        middle.content() == start.content() + first,
        stepwise.content() == middle.content() + second,
        at_once.content() == start.content() + (first + second),
    ensures
        md5_hash(stepwise.content()) == md5_hash(at_once.content()),
        sha1_hash(stepwise.content()) == sha1_hash(at_once.content()),
{
    assert(stepwise.content() =~= at_once.content());
}

// ---------------------------------------------------------------------------
// Base 64
// ---------------------------------------------------------------------------

/// The sign of a six-bit number in the standard alphabet.
pub open spec fn base64_sign(v: int) -> char {
    if v < 26 {
        (65 + v) as char
    } else if v < 52 {
        (97 + v - 26) as char
    } else if v < 62 {
        (48 + v - 52) as char
    } else if v == 62 {
        '+'
    } else {
        '/'
    }
}

/// Base 64 with padding: four signs for three bytes.
pub open spec fn base64_text(b: Seq<u8>) -> Seq<char>
    decreases b.len(),
{
    if b.len() == 0 {
        Seq::empty()
    } else if b.len() == 1 {
        seq![base64_sign(b[0] as int / 4), base64_sign(b[0] as int % 4 * 16), '=', '=']
    } else if b.len() == 2 {
        seq![
            base64_sign(b[0] as int / 4),
            base64_sign(b[0] as int % 4 * 16 + b[1] as int / 16),
            base64_sign(b[1] as int % 16 * 4),
            '=',
        ]
    } else {
        seq![
            base64_sign(b[0] as int / 4),
            base64_sign(b[0] as int % 4 * 16 + b[1] as int / 16),
            base64_sign(b[1] as int % 16 * 4 + b[2] as int / 64),
            base64_sign(b[2] as int % 64),
        ] + base64_text(b.skip(3))
    }
}

/// The base 64 form of so many bytes, a third longer, can be held in memory.
pub open spec fn base64_fits(len: nat) -> bool {
    len <= usize::MAX / 8 * 3
}

/// `base64::Engine::encode` of the standard engine, which pads.
#[verifier::external_body]
fn base64_encode(bytes: &[u8]) -> (r: String)
    requires
        base64_fits(bytes@.len()),
    ensures
        r@ == base64_text(bytes@),
{
    base64::engine::general_purpose::STANDARD.encode(bytes)
}

/// Bytes in base 64.
pub fn base64_of(bytes: &[u8]) -> (r: String)
    requires
        base64_fits(bytes@.len()),
    ensures
        r@ == base64_text(bytes@),
{
    base64_encode(bytes)
}

/// The MD5 hash of a text's UTF-8 form, in base 64.
pub fn content_md5(text: &str) -> (r: String)
    ensures
        r@ == base64_text(md5_hash(vstd::utf8::encode_utf8(text@))),
{
    let mut h = md5_new();
    md5_update(&mut h, text.as_bytes());
    assert(md5_taken(h) =~= vstd::utf8::encode_utf8(text@));
    let hash = md5_finalize(h);
    base64_encode(hash.as_slice())
}

// ---------------------------------------------------------------------------
// Dates
// ---------------------------------------------------------------------------

/// The first second that an HTTP date cannot express: the year 10000.
pub const HTTP_DATE_END: u64 = 253402300800;

/// The HTTP date of a number of seconds since the epoch.
pub uninterp spec fn http_date_text(seconds: u64) -> Seq<char>;

/// `httpdate::fmt_http_date` for a time given in seconds since the epoch. It
/// panics from the year 10000 on.
#[verifier::external_body]
fn fmt_http_date(seconds: u64) -> (r: String)
    requires
        seconds < HTTP_DATE_END,
    ensures
        r@ == http_date_text(seconds),
{
    httpdate::fmt_http_date(std::time::UNIX_EPOCH + std::time::Duration::from_secs(seconds))
}

/// The HTTP date of a number of seconds since the epoch.
pub fn http_date(seconds: u64) -> (r: String)
    requires
        seconds < HTTP_DATE_END,
    ensures
        r@ == http_date_text(seconds),
{
    fmt_http_date(seconds)
}

// ---------------------------------------------------------------------------
// Laws
// ---------------------------------------------------------------------------

/// Every byte of a file counts for its hashes, in the order in which it was read: two
/// pieces that were taken in one after the other have the hashes of what they make
/// together, and each hash comes out under its own name.
pub proof fn law_hashes_are_those_of_all_bytes(
    start: FileHashes,
    one: &mut FileHashes,
    first: &[u8],
    two: &mut FileHashes,
    second: &[u8],
    r: (String, String),
)
    requires
        call_ensures(FileHashes::new, (), start),
        *old(one) == start,
        call_ensures(FileHashes::update, (one, first), ()),
        *old(two) == *final(one),
        call_ensures(FileHashes::update, (two, second), ()),
        call_ensures(FileHashes::finish, (*final(two),), r),
    ensures
        r.0@ == hex_bytes(md5_hash(first@ + second@)),
        r.1@ == hex_bytes(sha1_hash(first@ + second@)),
{
    assert(final(two).content() =~= first@ + second@);
}

/// Whatever was taken in before, what is taken in next comes behind it.
pub proof fn law_bytes_are_taken_in(h: &mut FileHashes, bytes: &[u8])
    requires
        old(h).wf(),
        call_ensures(FileHashes::update, (h, bytes), ()),
    ensures
        final(h).wf(),
        final(h).content() == old(h).content() + bytes@,
{
}

} // verus!
