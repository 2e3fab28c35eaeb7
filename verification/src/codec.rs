use vstd::prelude::*;

use vstd::slice::slice_subrange;
use vstd::slice::slice_to_vec;
use vstd::utf8::decode_utf8;
use vstd::utf8::encode_utf8;
use vstd::utf8::encode_utf8_decode_utf8;
use vstd::utf8::encode_utf8_valid_utf8;
use vstd::utf8::valid_utf8;

use crate::errors::Error;

verus! {

/// The number a little-endian four-byte prefix denotes.
pub open spec fn le32(b: Seq<u8>) -> int
    recommends
        b.len() == 4,
{
    b[0] + 256 * b[1] + 65536 * b[2] + 16777216 * b[3]
}

/// The little-endian four-byte encoding of a number.
pub open spec fn le32_bytes(n: u32) -> Seq<u8> {
    seq![
        (n % 256) as u8,
        ((n / 256) % 256) as u8,
        ((n / 65536) % 256) as u8,
        ((n / 16777216) % 256) as u8,
    ]
}

proof fn lemma_le32_roundtrip(n: u32)
    ensures
        le32(le32_bytes(n)) == n,
{
    assert(n % 256 + 256 * ((n / 256) % 256) + 65536 * ((n / 65536) % 256) + 16777216 * ((n
        / 16777216) % 256) == n) by (bit_vector);
}

/// The wire format of a key/value parameter: the key's UTF-8 bytes,
/// preceded by their count as a little-endian `u32`, then the value's in
/// the same form. Bytes after the second string are ignored.
///
/// `None` stands for a buffer that does not decode: one too short for a
/// length prefix, one whose announced string runs past the end, or one
/// whose string bytes are not valid UTF-8.
pub open spec fn parse_entry_spec(b: Seq<u8>) -> Option<(Seq<char>, Seq<char>)> {
    if b.len() < 4 {
        None
    } else {
        let klen = le32(b.subrange(0, 4));
        if b.len() - 4 < klen {
            None
        } else {
            let kb = b.subrange(4, 4 + klen);
            if b.len() - 4 - klen < 4 {
                None
            } else {
                let vlen = le32(b.subrange(4 + klen, 8 + klen));
                if b.len() - 8 - klen < vlen {
                    None
                } else {
                    let vb = b.subrange(8 + klen, 8 + klen + vlen);
                    if valid_utf8(kb) && valid_utf8(vb) {
                        Some((decode_utf8(kb), decode_utf8(vb)))
                    } else {
                        None
                    }
                }
            }
        }
    }
}

/// Relies on `String::from_utf8`: it succeeds exactly on valid UTF-8
/// input, and the characters of the string it returns are the decoding
/// of the input bytes, as `vstd::utf8` states them.
#[verifier::external_body]
fn string_from_utf8(bytes: Vec<u8>) -> (r: Option<String>)
    ensures
        r is Some <==> valid_utf8(bytes@),
        r matches Some(s) ==> s@ == decode_utf8(bytes@),
{
    String::from_utf8(bytes).ok()
}

/// Read the little-endian `u32` at offset `off`.
fn read_le32(bytes: &[u8], off: usize) -> (n: u32)
    requires
        off + 4 <= bytes@.len(),
    ensures
        n == le32(bytes@.subrange(off as int, off as int + 4)),
{
    let b0 = bytes[off] as u32;
    let b1 = bytes[off + 1] as u32;
    let b2 = bytes[off + 2] as u32;
    let b3 = bytes[off + 3] as u32;
    b0 + 256 * b1 + 65536 * b2 + 16777216 * b3
}

/// Decode a parameter buffer into its key/value pair.
///
/// Returns `Ok` exactly on the buffers `parse_entry_spec` accepts, with
/// the strings it denotes, and `Err(MalformedParameter)` on every other
/// buffer.
pub fn parse_entry(bytes: &[u8]) -> (r: Result<(String, String), Error>)
    ensures
        match parse_entry_spec(bytes@) {
            Some(kv) => r matches Ok(p) && p.0@ == kv.0 && p.1@ == kv.1,
            None => r == Err::<(String, String), Error>(Error::MalformedParameter),
        },
{
    let n = bytes.len();
    if n < 4 {
        return Err(Error::MalformedParameter);
    }
    let klen = read_le32(bytes, 0) as usize;
    if n - 4 < klen {
        return Err(Error::MalformedParameter);
    }
    let kb = slice_to_vec(slice_subrange(bytes, 4, 4 + klen));
    if n - 4 - klen < 4 {
        return Err(Error::MalformedParameter);
    }
    let vlen = read_le32(bytes, 4 + klen) as usize;
    if n - 8 - klen < vlen {
        return Err(Error::MalformedParameter);
    }
    let vb = slice_to_vec(slice_subrange(bytes, 8 + klen, 8 + klen + vlen));
    let key = match string_from_utf8(kb) {
        Some(s) => s,
        None => {
            return Err(Error::MalformedParameter);
        },
    };
    let value = match string_from_utf8(vb) {
        Some(s) => s,
        None => {
            return Err(Error::MalformedParameter);
        },
    };
    Ok((key, value))
}

/// Append the little-endian four-byte encoding of `n`.
fn push_le32(out: &mut Vec<u8>, n: u32)
    ensures
        final(out)@ == old(out)@ + le32_bytes(n),
{
    out.push((n % 256) as u8);
    out.push((n / 256 % 256) as u8);
    out.push((n / 65536 % 256) as u8);
    out.push((n / 16777216 % 256) as u8);
    proof {
        assert(out@ =~= old(out)@ + le32_bytes(n));
    }
}

/// Encode a key/value pair in the wire format that `parse_entry` reads.
///
/// Succeeds whenever both strings' UTF-8 byte runs fit a `u32` length
/// prefix, and the buffer it returns decodes back to exactly the given
/// pair.
pub fn encode_entry(key: &String, value: &String) -> (r: Option<Vec<u8>>)
    ensures
        r matches Some(b) ==> parse_entry_spec(b@) == Some((key@, value@)),
        encode_utf8(key@).len() <= u32::MAX && encode_utf8(value@).len() <= u32::MAX ==> r
            is Some,
{
    let kb = key.as_str().as_bytes();
    let vb = value.as_str().as_bytes();
    if kb.len() > u32::MAX as usize || vb.len() > u32::MAX as usize {
        return None;
    }
    let klen = kb.len() as u32;
    let vlen = vb.len() as u32;
    let mut out: Vec<u8> = Vec::new();
    push_le32(&mut out, klen);
    let mut kbv = slice_to_vec(kb);
    out.append(&mut kbv);
    push_le32(&mut out, vlen);
    let mut vbv = slice_to_vec(vb);
    out.append(&mut vbv);
    proof {
        lemma_le32_roundtrip(klen);
        lemma_le32_roundtrip(vlen);
        encode_utf8_valid_utf8(key@);
        encode_utf8_valid_utf8(value@);
        encode_utf8_decode_utf8(key@);
        encode_utf8_decode_utf8(value@);
        let b = out@;
        let ks = encode_utf8(key@);
        let vs = encode_utf8(value@);
        assert(b == le32_bytes(klen) + ks + le32_bytes(vlen) + vs);
        assert(b.len() == 8 + ks.len() + vs.len());
        assert(b.subrange(0, 4) =~= le32_bytes(klen));
        assert(b.subrange(4, 4 + ks.len() as int) =~= ks);
        assert(b.subrange(4 + ks.len() as int, 8 + ks.len() as int) =~= le32_bytes(vlen));
        assert(b.subrange(8 + ks.len() as int, 8 + ks.len() as int + vs.len() as int) =~= vs);
        assert(parse_entry_spec(b) == Some((key@, value@)));
    }
    Some(out)
}

} // verus!
