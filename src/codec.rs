//! Byte-level building blocks of the record encoding: little-endian integers
//! and length-prefixed UTF-8 text fields.

use vstd::bytes::*;
use vstd::prelude::*;
use vstd::slice::*;
use vstd::utf8::*;

verus! {

broadcast use vstd::utf8::group_utf8_lib;

/// The encoding of one text field: its UTF-8 byte length as a little-endian
/// `u64`, followed by the UTF-8 bytes.
pub open spec fn field_bytes(s: Seq<char>) -> Seq<u8> {
    spec_u64_to_le_bytes(encode_utf8(s).len() as u64) + encode_utf8(s)
}

/// Parses one text field at the start of `b`: the decoded text and the number
/// of bytes consumed, or `None` if `b` does not start with a well-formed field.
pub open spec fn parse_field(b: Seq<u8>) -> Option<(Seq<char>, int)> {
    if b.len() < 8 {
        None
    } else {
        let n = spec_u64_from_le_bytes(b.subrange(0, 8)) as int;
        if b.len() - 8 < n {
            None
        } else if valid_utf8(b.subrange(8, 8 + n)) {
            Some((decode_utf8(b.subrange(8, 8 + n)), 8 + n))
        } else {
            None
        }
    }
}

/// Parses a little-endian `u64` at the start of `b`.
pub open spec fn parse_u64(b: Seq<u8>) -> Option<u64> {
    if b.len() < 8 {
        None
    } else {
        Some(spec_u64_from_le_bytes(b.subrange(0, 8)))
    }
}

pub proof fn lemma_parse_u64_bytes(x: u64, rest: Seq<u8>)
    ensures
        parse_u64(spec_u64_to_le_bytes(x) + rest) == Some(x),
        spec_u64_to_le_bytes(x).len() == 8,
{
    lemma_auto_spec_u64_to_from_le_bytes();
    let b = spec_u64_to_le_bytes(x) + rest;
    assert(b.subrange(0, 8) =~= spec_u64_to_le_bytes(x));
}

pub proof fn lemma_parse_u64_prefix(b: Seq<u8>)
    requires
        parse_u64(b) is Some,
    ensures
        b =~= spec_u64_to_le_bytes(parse_u64(b)->0) + b.subrange(8, b.len() as int),
{
    lemma_auto_spec_u64_to_from_le_bytes();
    assert(spec_u64_to_le_bytes(spec_u64_from_le_bytes(b.subrange(0, 8))) == b.subrange(0, 8));
}

/// A text whose UTF-8 length can be written in a field's length prefix.
pub open spec fn field_fits(s: Seq<char>) -> bool {
    encode_utf8(s).len() <= u64::MAX
}

/// A field followed by anything parses back to its text.
pub proof fn lemma_parse_field_bytes(s: Seq<char>, rest: Seq<u8>)
    requires
        field_fits(s),
    ensures
        parse_field(field_bytes(s) + rest) == Some((s, field_bytes(s).len() as int)),
{
    lemma_auto_spec_u64_to_from_le_bytes();
    let e = encode_utf8(s);
    let len_bytes = spec_u64_to_le_bytes(e.len() as u64);
    let b = field_bytes(s) + rest;
    assert(len_bytes.len() == 8);
    assert(b.subrange(0, 8) =~= len_bytes);
    assert(b.subrange(8, 8 + e.len() as int) =~= e);
}

/// A parsed field is exactly the encoding of its text.
pub proof fn lemma_parse_field_prefix(b: Seq<u8>, s: Seq<char>, end: int)
    requires
        parse_field(b) == Some((s, end)),
    ensures
        field_fits(s),
        b =~= field_bytes(s) + b.subrange(end, b.len() as int),
{
    lemma_auto_spec_u64_to_from_le_bytes();
    let n = spec_u64_from_le_bytes(b.subrange(0, 8)) as int;
    let body = b.subrange(8, 8 + n);
    assert(encode_utf8(decode_utf8(body)) == body);
    assert(spec_u64_to_le_bytes(spec_u64_from_le_bytes(b.subrange(0, 8))) == b.subrange(0, 8));
}

/// Relies on `String::from_utf8`: it succeeds exactly on valid UTF-8, and the
/// text then holds the decoded characters.
#[verifier::external_body]
fn string_from_utf8(bytes: Vec<u8>) -> (r: Option<String>)
    ensures
        r is Some <==> valid_utf8(bytes@),
        r matches Some(s) ==> s@ == decode_utf8(bytes@),
{
    String::from_utf8(bytes).ok()
}

/// Appends `x` as eight little-endian bytes.
pub fn push_u64(out: &mut Vec<u8>, x: u64)
    ensures
        final(out)@ == old(out)@ + spec_u64_to_le_bytes(x),
{
    let b = u64_to_le_bytes(x);
    out.extend_from_slice(b.as_slice());
}

/// Appends the field encoding of `s`.
pub fn push_field(out: &mut Vec<u8>, s: &str)
    ensures
        field_fits(s@),
        final(out)@ == old(out)@ + field_bytes(s@),
{
    let b = s.as_bytes();
    let n = b.len();
    push_u64(out, n as u64);
    out.extend_from_slice(b);
    assert(final(out)@ =~= old(out)@ + field_bytes(s@));
}

/// Reads a little-endian `u64` at `pos`.
pub fn read_u64(b: &[u8], pos: usize) -> (r: Option<u64>)
    requires
        pos <= b@.len(),
    ensures
        r == parse_u64(b@.subrange(pos as int, b@.len() as int)),
{
    let len = b.len();
    if len - pos < 8 {
        None
    } else {
        let x = u64_from_le_bytes(slice_subrange(b, pos, pos + 8));
        assert(b@.subrange(pos as int, pos + 8) =~= b@.subrange(pos as int, len as int).subrange(0, 8));
        Some(x)
    }
}

/// Reads a text field at `pos`: the text and the position just past it.
pub fn read_field(b: &[u8], pos: usize) -> (r: Option<(String, usize)>)
    requires
        pos <= b@.len(),
    ensures
        match parse_field(b@.subrange(pos as int, b@.len() as int)) {
            Some((s, n)) => r matches Some((t, next)) && t@ == s && next == pos + n,
            None => r is None,
        },
{
    let len = b.len();
    let ghost rest = b@.subrange(pos as int, len as int);
    if len - pos < 8 {
        return None;
    }
    let n = u64_from_le_bytes(slice_subrange(b, pos, pos + 8));
    assert(b@.subrange(pos as int, pos + 8) =~= rest.subrange(0, 8));
    if ((len - pos - 8) as u64) < n {
        return None;
    }
    let end = pos + 8 + n as usize;
    let body = slice_subrange(b, pos + 8, end);
    assert(body@ =~= rest.subrange(8, 8 + n));
    match string_from_utf8(slice_to_vec(body)) {
        Some(s) => Some((s, end)),
        None => None,
    }
}

} // verus!
