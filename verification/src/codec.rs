//! Encodings the library relies on: base64, SHA-256 digests, gzip
//! compression and single-entry tar archives.  Each outside call sits
//! behind one trusted wrapper whose contract names or states its result.

use vstd::prelude::*;

use base64::Engine;
use std::io::Write;

verus! {

/// The standard base64 encoding (with padding) of the UTF-8 bytes of a string.
pub uninterp spec fn b64_of(s: Seq<char>) -> Seq<char>;

/// Relies on base64's `STANDARD` engine `encode`: the standard alphabet
/// with padding, a function of the input alone.
#[verifier::external_body]
pub(crate) fn b64_encode_str(s: &str) -> (r: String)
    ensures
        r@ == b64_of(s@),
{
    base64::engine::general_purpose::STANDARD.encode(s.as_bytes())
}

/// Relies on base64's `STANDARD` engine `decode`: it accepts exactly what
/// `encode` emits and inverts it, so decoding the encoding of `t` yields
/// the UTF-8 bytes of `t`, which convert back to `t`.
#[verifier::external_body]
pub(crate) fn b64_decode_str(s: &str) -> (r: Option<String>)
    ensures
        forall|t: Seq<char>| s@ == b64_of(t) ==> r is Some && r->0@ == t,
{
    match base64::engine::general_purpose::STANDARD.decode(s.as_bytes()) {
        Ok(bytes) => String::from_utf8(bytes).ok(),
        Err(_) => None,
    }
}

pub open spec fn is_hex_lower_char(c: char) -> bool {
    crate::strutil::is_digit_char(c) || (('a' as u32) <= (c as u32) && (c as u32) <= ('f' as u32))
}

/// The lowercase hex form of the SHA-256 digest of a byte sequence.
pub uninterp spec fn sha256_hex_of(data: Seq<u8>) -> Seq<char>;

/// Relies on sha256's `digest`: the SHA-256 of the bytes rendered as 64
/// lowercase hex characters, a function of the bytes alone.
#[verifier::external_body]
pub(crate) fn sha256_hex(data: &[u8]) -> (r: String)
    ensures
        r@ == sha256_hex_of(data@),
        r@.len() == 64,
        forall|i: int| 0 <= i < 64 ==> is_hex_lower_char(#[trigger] r@[i]),
{
    sha256::digest(data)
}

/// The gzip stream that flate2 produces for a byte sequence at the default
/// compression level.
pub uninterp spec fn gzip_of(data: Seq<u8>) -> Seq<u8>;

/// Relies on flate2's `GzEncoder` at the default level: flate2 writes a
/// fixed header (mtime 0, OS byte 255, chosen for reproducible streams),
/// so the output is a function of the input bytes alone.  Writing into a
/// `Vec` cannot fail.
#[verifier::external_body]
pub(crate) fn gzip_compress(data: &[u8]) -> (r: Vec<u8>)
    ensures
        r@ == gzip_of(data@),
{
    let mut encoder = flate2::write::GzEncoder::new(Vec::new(), flate2::Compression::default());
    encoder.write_all(data).unwrap();
    encoder.finish().unwrap()
}

/// Whether the path holds a `..` component: a `..` bounded by `/` or by
/// the path's ends.
pub open spec fn has_dotdot_component(p: Seq<char>) -> bool {
    exists|i: int|
        {
            &&& 0 <= i
            &&& i + 2 <= p.len()
            &&& (#[trigger] p[i]) == '.'
            &&& p[i + 1] == '.'
            &&& (i == 0 || p[i - 1] == '/')
            &&& (i + 2 == p.len() || p[i + 2] == '/')
        }
}

/// The tar archive holding one file entry with the given path, mode and
/// contents.
pub uninterp spec fn tar_file_of(path: Seq<char>, mode: u32, data: Seq<u8>) -> Seq<u8>;

/// Relies on tar's `Builder` and `Header::new_gnu`: the header starts
/// zeroed with mtime 0 and `append_data` fills in only the path, mode,
/// size and checksum, so the archive bytes are a function of the entry
/// path, mode and contents alone.  Writing into a `Vec` cannot fail, and
/// `append_data` errors only on a path that is absolute, holds a NUL
/// byte or a `..` component, or normalizes to nothing — the `requires`
/// leave all of those out, so the unwraps cannot fire.
#[verifier::external_body]
pub(crate) fn tar_single_file(path: &str, mode: u32, data: &[u8]) -> (r: Vec<u8>)
    requires
        path@.len() > 0,
        path@[0] != '/',
        !path@.contains('\0'),
        exists|i: int| 0 <= i < path@.len() && (#[trigger] path@[i]) != '/' && path@[i] != '.',
        !has_dotdot_component(path@),
    ensures
        r@ == tar_file_of(path@, mode, data@),
{
    let mut builder = tar::Builder::new(Vec::new());
    let mut header = tar::Header::new_gnu();
    header.set_mode(mode);
    header.set_size(data.len() as u64);
    builder.append_data(&mut header, path, data).unwrap();
    builder.into_inner().unwrap()
}

} // verus!
