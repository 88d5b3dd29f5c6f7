//! The building blocks of the binary token encoding: little-endian
//! integers, length-prefixed byte strings and length-prefixed UTF-8 text.
//!
//! Each block has a serializer and a parser that takes it off the front of
//! a byte sequence, and the two are inverse to each other.

use vstd::prelude::*;
use vstd::bytes::*;
use vstd::slice::*;
use vstd::string::*;
use vstd::utf8::*;

verus! {

/// A length that a 32-bit length prefix can hold.
pub open spec fn fits(n: nat) -> bool {
    n <= u32::MAX
}

/// A byte string behind its length.
#[verifier::opaque]
pub open spec fn ser_bytes(b: Seq<u8>) -> Seq<u8> {
    spec_u32_to_le_bytes(b.len() as u32) + b
}

/// A text as UTF-8 behind its length in bytes.
#[verifier::opaque]
pub open spec fn ser_text(t: Seq<char>) -> Seq<u8> {
    ser_bytes(encode_utf8(t))
}

/// A text whose UTF-8 form a length prefix can hold.
pub open spec fn text_fits(t: Seq<char>) -> bool {
    fits(encode_utf8(t).len())
}

/// Takes a 32-bit integer off the front of `s`: four bytes, lowest first.
#[verifier::opaque]
pub open spec fn parse_u32(s: Seq<u8>) -> Option<(u32, Seq<u8>)> {
    if s.len() >= 4 {
        Some((spec_u32_from_le_bytes(s.take(4)), s.skip(4)))
    } else {
        None
    }
}

/// Takes a 64-bit integer off the front of `s`: eight bytes, lowest first.
#[verifier::opaque]
pub open spec fn parse_u64(s: Seq<u8>) -> Option<(u64, Seq<u8>)> {
    if s.len() >= 8 {
        Some((spec_u64_from_le_bytes(s.take(8)), s.skip(8)))
    } else {
        None
    }
}

/// Takes a byte string off the front of `s`: its length, then as many
/// bytes.
#[verifier::opaque]
pub open spec fn parse_bytes(s: Seq<u8>) -> Option<(Seq<u8>, Seq<u8>)> {
    match parse_u32(s) {
        Some((n, rest)) => if rest.len() >= n {
            Some((rest.take(n as int), rest.skip(n as int)))
        } else {
            None
        },
        None => None,
    }
}

/// Takes a text off the front of `s`: a byte string that is UTF-8.
#[verifier::opaque]
pub open spec fn parse_text(s: Seq<u8>) -> Option<(Seq<char>, Seq<u8>)> {
    match parse_bytes(s) {
        Some((b, rest)) => if valid_utf8(b) {
            Some((decode_utf8(b), rest))
        } else {
            None
        },
        None => None,
    }
}

/// A 32-bit integer that was written is read back, and what follows it is
/// left.
pub proof fn lemma_u32_written_is_read(x: u32, rest: Seq<u8>)
    ensures
        parse_u32(spec_u32_to_le_bytes(x) + rest) == Some((x, rest)),
{
    reveal(parse_u32);
    lemma_auto_spec_u32_to_from_le_bytes();
    let s = spec_u32_to_le_bytes(x) + rest;
    assert(s.take(4) =~= spec_u32_to_le_bytes(x));
    assert(s.skip(4) =~= rest);
}

/// Bytes that a 32-bit integer was read from begin with what is written
/// for it.
pub proof fn lemma_u32_read_is_written(s: Seq<u8>)
    requires
        parse_u32(s) is Some,
    ensures
        s == spec_u32_to_le_bytes(parse_u32(s)->Some_0.0) + parse_u32(s)->Some_0.1,
{
    reveal(parse_u32);
    lemma_auto_spec_u32_to_from_le_bytes();
    assert(s =~= s.take(4) + s.skip(4));
}

/// A 64-bit integer that was written is read back, and what follows it is
/// left.
pub proof fn lemma_u64_written_is_read(x: u64, rest: Seq<u8>)
    ensures
        parse_u64(spec_u64_to_le_bytes(x) + rest) == Some((x, rest)),
{
    reveal(parse_u64);
    lemma_auto_spec_u64_to_from_le_bytes();
    let s = spec_u64_to_le_bytes(x) + rest;
    assert(s.take(8) =~= spec_u64_to_le_bytes(x));
    assert(s.skip(8) =~= rest);
}

/// Bytes that a 64-bit integer was read from begin with what is written
/// for it.
pub proof fn lemma_u64_read_is_written(s: Seq<u8>)
    requires
        parse_u64(s) is Some,
    ensures
        s == spec_u64_to_le_bytes(parse_u64(s)->Some_0.0) + parse_u64(s)->Some_0.1,
{
    reveal(parse_u64);
    lemma_auto_spec_u64_to_from_le_bytes();
    assert(s =~= s.take(8) + s.skip(8));
}

/// A byte string that was written is read back, and what follows it is
/// left.
pub proof fn lemma_bytes_written_is_read(b: Seq<u8>, rest: Seq<u8>)
    requires
        fits(b.len()),
    ensures
        parse_bytes(ser_bytes(b) + rest) == Some((b, rest)),
{
    reveal(ser_bytes);
    reveal(parse_bytes);
    let n = b.len() as u32;
    lemma_u32_written_is_read(n, b + rest);
    assert(ser_bytes(b) + rest =~= spec_u32_to_le_bytes(n) + (b + rest));
    assert((b + rest).take(n as int) =~= b);
    assert((b + rest).skip(n as int) =~= rest);
}

/// Bytes that a byte string was read from begin with what is written for
/// it, and its length fits the prefix.
pub proof fn lemma_bytes_read_is_written(s: Seq<u8>)
    requires
        parse_bytes(s) is Some,
    ensures
        fits(parse_bytes(s)->Some_0.0.len()),
        s == ser_bytes(parse_bytes(s)->Some_0.0) + parse_bytes(s)->Some_0.1,
{
    reveal(ser_bytes);
    reveal(parse_bytes);
    reveal(parse_u32);
    lemma_u32_read_is_written(s);
    let (n, rest) = parse_u32(s)->Some_0;
    let b = rest.take(n as int);
    assert(rest =~= b + rest.skip(n as int));
    assert(s =~= ser_bytes(b) + rest.skip(n as int));
}

/// A text that was written is read back, and what follows it is left.
pub proof fn lemma_text_written_is_read(t: Seq<char>, rest: Seq<u8>)
    requires
        text_fits(t),
    ensures
        parse_text(ser_text(t) + rest) == Some((t, rest)),
{
    reveal(ser_text);
    reveal(parse_text);
    lemma_bytes_written_is_read(encode_utf8(t), rest);
    encode_utf8_valid_utf8(t);
    encode_utf8_decode_utf8(t);
}

/// Bytes that a text was read from begin with what is written for it.
pub proof fn lemma_text_read_is_written(s: Seq<u8>)
    requires
        parse_text(s) is Some,
    ensures
        text_fits(parse_text(s)->Some_0.0),
        s == ser_text(parse_text(s)->Some_0.0) + parse_text(s)->Some_0.1,
{
    reveal(ser_text);
    reveal(parse_text);
    lemma_bytes_read_is_written(s);
    decode_utf8_encode_utf8(parse_bytes(s)->Some_0.0);
}

/// `String::from_utf8`: the text that `bytes` are the UTF-8 form of, or
/// nothing where they are not UTF-8.
#[verifier::external_body]
pub(crate) fn text_from_utf8(bytes: Vec<u8>) -> (text: Option<String>)
    ensures
        text is Some <==> valid_utf8(bytes@),
        text is Some ==> text->Some_0@ == decode_utf8(bytes@),
{
    match String::from_utf8(bytes) {
        Ok(text) => Some(text),
        Err(_) => None,
    }
}

/// Appends `x` in four bytes.
pub fn put_u32(out: &mut Vec<u8>, x: u32)
    ensures
        final(out)@ == old(out)@ + spec_u32_to_le_bytes(x),
{
    let b = u32_to_le_bytes(x);
    out.extend_from_slice(b.as_slice());
}

/// Appends `x` in eight bytes.
pub fn put_u64(out: &mut Vec<u8>, x: u64)
    ensures
        final(out)@ == old(out)@ + spec_u64_to_le_bytes(x),
{
    let b = u64_to_le_bytes(x);
    out.extend_from_slice(b.as_slice());
}

/// Appends `b` behind its length.
pub fn put_bytes(out: &mut Vec<u8>, b: &[u8])
    requires
        fits(b@.len()),
    ensures
        final(out)@ == old(out)@ + ser_bytes(b@),
{
    proof {
        reveal(ser_bytes);
    }
    let ghost before = out@;
    put_u32(out, b.len() as u32);
    out.extend_from_slice(b);
    assert(out@ =~= before + ser_bytes(b@));
}

/// Appends `t` as UTF-8 behind its length.
pub fn put_text(out: &mut Vec<u8>, t: &str)
    requires
        text_fits(t@),
    ensures
        final(out)@ == old(out)@ + ser_text(t@),
{
    proof {
        reveal(ser_text);
    }
    put_bytes(out, t.as_bytes());
}

/// Whether a length prefix can hold the UTF-8 form of `t`.
pub fn text_is_short(t: &str) -> (short: bool)
    ensures
        short == text_fits(t@),
{
    t.as_bytes().len() <= 0xffff_ffff
}

/// Takes a 32-bit integer off `bytes` at `pos`.
pub fn read_u32(bytes: &[u8], pos: usize) -> (out: Option<(u32, usize)>)
    requires
        pos <= bytes@.len(),
    ensures
        match out {
            Some((x, next)) => pos <= next <= bytes@.len() && parse_u32(bytes@.skip(pos as int))
                == Some((x, bytes@.skip(next as int))),
            None => parse_u32(bytes@.skip(pos as int)) is None,
        },
{
    proof {
        reveal(parse_u32);
    }
    if bytes.len() - pos < 4 {
        return None;
    }
    let x = u32_from_le_bytes(slice_subrange(bytes, pos, pos + 4));
    assert(bytes@.skip(pos as int).take(4) =~= bytes@.subrange(pos as int, pos + 4));
    assert(bytes@.skip(pos as int).skip(4) =~= bytes@.skip(pos + 4));
    Some((x, pos + 4))
}

/// Takes a 64-bit integer off `bytes` at `pos`.
pub fn read_u64(bytes: &[u8], pos: usize) -> (out: Option<(u64, usize)>)
    requires
        pos <= bytes@.len(),
    ensures
        match out {
            Some((x, next)) => pos <= next <= bytes@.len() && parse_u64(bytes@.skip(pos as int))
                == Some((x, bytes@.skip(next as int))),
            None => parse_u64(bytes@.skip(pos as int)) is None,
        },
{
    proof {
        reveal(parse_u64);
    }
    if bytes.len() - pos < 8 {
        return None;
    }
    let x = u64_from_le_bytes(slice_subrange(bytes, pos, pos + 8));
    assert(bytes@.skip(pos as int).take(8) =~= bytes@.subrange(pos as int, pos + 8));
    assert(bytes@.skip(pos as int).skip(8) =~= bytes@.skip(pos + 8));
    Some((x, pos + 8))
}

/// Takes a length-prefixed byte string off `bytes` at `pos`; the string is
/// given by where it starts, and `next` is where it ends.
pub fn read_span(bytes: &[u8], pos: usize) -> (out: Option<(usize, usize)>)
    requires
        pos <= bytes@.len(),
    ensures
        match out {
            Some((start, next)) => pos <= start <= next <= bytes@.len() && parse_bytes(
                bytes@.skip(pos as int),
            ) == Some((bytes@.subrange(start as int, next as int), bytes@.skip(next as int))),
            None => parse_bytes(bytes@.skip(pos as int)) is None,
        },
{
    proof {
        reveal(parse_bytes);
    }
    let (n, start) = match read_u32(bytes, pos) {
        Some(r) => r,
        None => {
            return None;
        },
    };
    if bytes.len() - start < n as usize {
        return None;
    }
    let next = start + n as usize;
    assert(bytes@.skip(start as int).take(n as int) =~= bytes@.subrange(start as int, next as int));
    assert(bytes@.skip(start as int).skip(n as int) =~= bytes@.skip(next as int));
    Some((start, next))
}

/// Takes a length-prefixed byte string off `bytes` at `pos`.
pub fn read_bytes(bytes: &[u8], pos: usize) -> (out: Option<(Vec<u8>, usize)>)
    requires
        pos <= bytes@.len(),
    ensures
        match out {
            Some((b, next)) => pos <= next <= bytes@.len() && parse_bytes(bytes@.skip(pos as int))
                == Some((b@, bytes@.skip(next as int))),
            None => parse_bytes(bytes@.skip(pos as int)) is None,
        },
{
    match read_span(bytes, pos) {
        Some((start, next)) => Some((slice_to_vec(slice_subrange(bytes, start, next)), next)),
        None => None,
    }
}

/// Takes a length-prefixed text off `bytes` at `pos`.
pub fn read_text(bytes: &[u8], pos: usize) -> (out: Option<(String, usize)>)
    requires
        pos <= bytes@.len(),
    ensures
        match out {
            Some((t, next)) => pos <= next <= bytes@.len() && parse_text(bytes@.skip(pos as int))
                == Some((t@, bytes@.skip(next as int))),
            None => parse_text(bytes@.skip(pos as int)) is None,
        },
{
    proof {
        reveal(parse_text);
    }
    match read_span(bytes, pos) {
        Some((start, next)) => match text_from_utf8(
            slice_to_vec(slice_subrange(bytes, start, next)),
        ) {
            Some(t) => Some((t, next)),
            None => None,
        },
        None => None,
    }
}

/// A text as UTF-8 behind its length in eight bytes. Every text can be
/// written so.
#[verifier::opaque]
pub open spec fn ser_long_text(t: Seq<char>) -> Seq<u8> {
    spec_u64_to_le_bytes(encode_utf8(t).len() as u64) + encode_utf8(t)
}

/// Texts one after the other, each as `ser_long_text` writes it.
pub open spec fn ser_long_items(ts: Seq<Seq<char>>) -> Seq<u8>
    decreases ts.len(),
{
    if ts.len() == 0 {
        Seq::empty()
    } else {
        ser_long_items(ts.drop_last()) + ser_long_text(ts.last())
    }
}

/// A list of texts: their number in eight bytes, then the texts.
#[verifier::opaque]
pub open spec fn ser_long_list(ts: Seq<Seq<char>>) -> Seq<u8> {
    spec_u64_to_le_bytes(ts.len() as u64) + ser_long_items(ts)
}

/// Appends `t` as UTF-8 behind its length in eight bytes.
pub fn put_long_text(out: &mut Vec<u8>, t: &str)
    ensures
        final(out)@ == old(out)@ + ser_long_text(t@),
{
    proof {
        reveal(ser_long_text);
    }
    let ghost before = out@;
    let bytes = t.as_bytes();
    put_u64(out, bytes.len() as u64);
    out.extend_from_slice(bytes);
    assert(out@ =~= before + ser_long_text(t@));
}

/// Appends the texts of `ts` behind their number in eight bytes.
pub fn put_long_list(out: &mut Vec<u8>, ts: &Vec<String>)
    ensures
        final(out)@ == old(out)@ + ser_long_list(ts.deep_view()),
{
    proof {
        reveal(ser_long_list);
    }
    let ghost before = out@;
    let ghost all = ts.deep_view();
    put_u64(out, ts.len() as u64);
    let ghost head = out@;
    let mut i: usize = 0;
    assert(out@ =~= head + ser_long_items(all.take(0)));
    while i < ts.len()
        invariant
            i <= ts.len(),
            all == ts.deep_view(),
            out@ == head + ser_long_items(all.take(i as int)),
        decreases ts.len() - i,
    {
        let ghost upto = all.take(i + 1);
        let ghost sofar = out@;
        assert(upto.last() == all[i as int]);
        assert(upto.drop_last() =~= all.take(i as int));
        put_long_text(out, ts[i].as_str());
        assert(out@ =~= head + ser_long_items(upto));
        i += 1;
    }
    assert(all.take(i as int) =~= all);
    assert(out@ =~= before + ser_long_list(all));
}

} // verus!
