//! The primitive layer of the binary wire format: fixed-width little-endian
//! integers, length-prefixed byte strings and UTF-8 text.
//!
//! Every value has one encoding. Decoding reads one value at a position of a
//! buffer and yields the value and the position just behind it.

use vstd::prelude::*;
use vstd::slice::{slice_subrange, slice_to_vec};
use vstd::utf8::{decode_utf8, encode_utf8, valid_utf8};

verus! {

/// Why a buffer does not hold a value of the wire format at a position.
#[derive(Debug, Clone, Copy, PartialEq, Eq, Structural)]
pub enum DecodeError {
    /// The buffer ends before the value does.
    Truncated,
    /// A variant index or an option marker has no meaning.
    UnknownTag,
    /// A text field is not valid UTF-8.
    InvalidText,
}

/// `e` stands in `b` from position `pos` on.
pub open spec fn occurs_at(b: Seq<u8>, pos: int, e: Seq<u8>) -> bool {
    &&& 0 <= pos
    &&& pos + e.len() <= b.len()
    &&& b.subrange(pos, pos + e.len()) == e
}

/// Where `e1 + e2` stands, `e1` stands, and `e2` right behind it.
pub proof fn lemma_occurs_at_concat(b: Seq<u8>, pos: int, e1: Seq<u8>, e2: Seq<u8>)
    requires
        occurs_at(b, pos, e1 + e2),
    ensures
        occurs_at(b, pos, e1),
        occurs_at(b, pos + e1.len(), e2),
{
    let whole = b.subrange(pos, pos + (e1 + e2).len());
    assert(b.subrange(pos, pos + e1.len()) =~= whole.subrange(0, e1.len() as int));
    assert(whole.subrange(0, e1.len() as int) =~= e1);
    assert(b.subrange(pos + e1.len(), pos + e1.len() + e2.len()) =~= whole.subrange(
        e1.len() as int,
        (e1 + e2).len() as int,
    ));
    assert(whole.subrange(e1.len() as int, (e1 + e2).len() as int) =~= e2);
}

/// Two stretches of a buffer that touch make up the stretch that spans them.
pub proof fn lemma_subrange_join(b: Seq<u8>, from: int, middle: int, to: int)
    requires
        0 <= from <= middle <= to <= b.len(),
    ensures
        b.subrange(from, to) == b.subrange(from, middle) + b.subrange(middle, to),
{
    assert(b.subrange(from, to) =~= b.subrange(from, middle) + b.subrange(middle, to));
}

/// The four bytes of `x`, least significant first.
#[verifier::opaque]
pub open spec fn u32_bytes(x: u32) -> Seq<u8> {
    seq![
        (x % 256) as u8,
        ((x / 256) % 256) as u8,
        ((x / 65536) % 256) as u8,
        (x / 16777216) as u8,
    ]
}

/// The number whose little-endian bytes are `b0`, `b1`, `b2`, `b3`.
#[verifier::opaque]
pub open spec fn u32_of_bytes(b0: u8, b1: u8, b2: u8, b3: u8) -> u32 {
    (b0 as int + 256 * (b1 as int) + 65536 * (b2 as int) + 16777216 * (b3 as int)) as u32
}

/// The `u32` that `b` holds at `pos`.
pub open spec fn u32_at(b: Seq<u8>, pos: int) -> Result<(u32, int), DecodeError> {
    if 0 <= pos && pos + 4 <= b.len() {
        Ok((u32_of_bytes(b[pos], b[pos + 1], b[pos + 2], b[pos + 3]), pos + 4))
    } else {
        Err(DecodeError::Truncated)
    }
}

/// Where the encoding of a `u32` stands, that `u32` is read, and reading ends
/// right behind the encoding.
pub proof fn lemma_u32_round_trip(b: Seq<u8>, pos: int, x: u32)
    requires
        occurs_at(b, pos, u32_bytes(x)),
    ensures
        u32_at(b, pos) == Ok::<(u32, int), DecodeError>((x, pos + 4)),
{
    reveal(u32_bytes);
    reveal(u32_of_bytes);
    let e = u32_bytes(x);
    let s = b.subrange(pos, pos + 4);
    assert(b[pos] == s[0] && b[pos + 1] == s[1] && b[pos + 2] == s[2] && b[pos + 3] == s[3]);
    assert(s[0] == e[0] && s[1] == e[1] && s[2] == e[2] && s[3] == e[3]);
}

/// The digits of a number in base 256 are the digits it was put together
/// from.
proof fn lemma_base_256_digits(b0: int, b1: int, b2: int, b3: int)
    requires
        0 <= b0 < 256,
        0 <= b1 < 256,
        0 <= b2 < 256,
        0 <= b3 < 256,
    ensures
        ({
            let x = b0 + 256 * b1 + 65536 * b2 + 16777216 * b3;
            &&& 0 <= x < 4294967296
            &&& x % 256 == b0
            &&& (x / 256) % 256 == b1
            &&& (x / 65536) % 256 == b2
            &&& x / 16777216 == b3
        }),
{
    let y2 = b2 + 256 * b3;
    let y1 = b1 + 256 * y2;
    let x = b0 + 256 * y1;
    assert(x == b0 + 256 * b1 + 65536 * b2 + 16777216 * b3);
    assert(x / 256 == y1 && x % 256 == b0);
    assert(y1 / 256 == y2 && y1 % 256 == b1);
    assert(y2 / 256 == b3 && y2 % 256 == b2);
    assert(x / 65536 == y2) by {
        assert(x / 65536 == (x / 256) / 256);
    }
    assert(x / 16777216 == b3) by {
        assert(x / 16777216 == (x / 65536) / 256);
    }
}

/// What is read as a `u32` is written as the four bytes it was read from.
pub proof fn lemma_u32_canonical(b: Seq<u8>, pos: int)
    ensures
        u32_at(b, pos) matches Ok((x, next)) ==> (0 <= pos && next == pos + 4 && next <= b.len()
            && b.subrange(pos, next) == u32_bytes(x)),
{
    if let Ok((x, next)) = u32_at(b, pos) {
        lemma_base_256_digits(
            b[pos] as int,
            b[pos + 1] as int,
            b[pos + 2] as int,
            b[pos + 3] as int,
        );
        reveal(u32_bytes);
        reveal(u32_of_bytes);
        assert(b.subrange(pos, next) =~= u32_bytes(x));
    }
}

/// A `u32` takes four bytes.
pub broadcast proof fn lemma_u32_bytes_len(x: u32)
    ensures
        #[trigger] u32_bytes(x).len() == 4,
{
    reveal(u32_bytes);
}

/// Appends the encoding of `x` to `out`.
pub fn write_u32(out: &mut Vec<u8>, x: u32)
    ensures
        final(out)@ == old(out)@ + u32_bytes(x),
{
    proof {
        reveal(u32_bytes);
    }
    out.push((x % 256) as u8);
    out.push(((x / 256) % 256) as u8);
    out.push(((x / 65536) % 256) as u8);
    out.push((x / 16777216) as u8);
    assert(out@ =~= old(out)@ + u32_bytes(x));
}

/// Reads the `u32` at `pos`.
pub fn read_u32(buf: &[u8], pos: usize) -> (r: Result<(u32, usize), DecodeError>)
    ensures
        match r {
            Ok((x, next)) => u32_at(buf@, pos as int) == Ok::<(u32, int), DecodeError>(
                (x, next as int),
            ),
            Err(e) => u32_at(buf@, pos as int) == Err::<(u32, int), DecodeError>(e),
        },
{
    if pos > buf.len() || buf.len() - pos < 4 {
        return Err(DecodeError::Truncated);
    }
    proof {
        reveal(u32_of_bytes);
    }
    let b0: u32 = buf[pos] as u32;
    let b1: u32 = buf[pos + 1] as u32;
    let b2: u32 = buf[pos + 2] as u32;
    let b3: u32 = buf[pos + 3] as u32;
    Ok((b0 + 256 * b1 + 65536 * b2 + 16777216 * b3, pos + 4))
}

/// The eight bytes of `x`, least significant first.
pub open spec fn u64_bytes(x: u64) -> Seq<u8> {
    u32_bytes((x % 4294967296) as u32) + u32_bytes((x / 4294967296) as u32)
}

/// The `u64` that `b` holds at `pos`.
pub open spec fn u64_at(b: Seq<u8>, pos: int) -> Result<(u64, int), DecodeError> {
    if 0 <= pos && pos + 8 <= b.len() {
        let low = u32_of_bytes(b[pos], b[pos + 1], b[pos + 2], b[pos + 3]);
        let high = u32_of_bytes(b[pos + 4], b[pos + 5], b[pos + 6], b[pos + 7]);
        Ok(((low as int + 4294967296 * (high as int)) as u64, pos + 8))
    } else {
        Err(DecodeError::Truncated)
    }
}

/// Where the encoding of a `u64` stands, that `u64` is read, and reading ends
/// right behind the encoding.
pub proof fn lemma_u64_round_trip(b: Seq<u8>, pos: int, x: u64)
    requires
        occurs_at(b, pos, u64_bytes(x)),
    ensures
        u64_at(b, pos) == Ok::<(u64, int), DecodeError>((x, pos + 8)),
{
    let low = (x % 4294967296) as u32;
    let high = (x / 4294967296) as u32;
    lemma_u32_bytes_len(low);
    lemma_u32_bytes_len(high);
    lemma_occurs_at_concat(b, pos, u32_bytes(low), u32_bytes(high));
    lemma_u32_round_trip(b, pos, low);
    lemma_u32_round_trip(b, pos + 4, high);
    assert(u32_at(b, pos) == Ok::<(u32, int), DecodeError>((low, pos + 4)));
    assert(u32_at(b, pos + 4) == Ok::<(u32, int), DecodeError>((high, pos + 8)));
}

/// What is read as a `u64` is written as the eight bytes it was read from.
pub proof fn lemma_u64_canonical(b: Seq<u8>, pos: int)
    ensures
        u64_at(b, pos) matches Ok((x, next)) ==> (0 <= pos && next == pos + 8 && next <= b.len()
            && b.subrange(pos, next) == u64_bytes(x)),
{
    if let Ok((x, next)) = u64_at(b, pos) {
        lemma_u32_canonical(b, pos);
        lemma_u32_canonical(b, pos + 4);
        lemma_subrange_join(b, pos, pos + 4, pos + 8);
        let low = u32_of_bytes(b[pos], b[pos + 1], b[pos + 2], b[pos + 3]);
        let high = u32_of_bytes(b[pos + 4], b[pos + 5], b[pos + 6], b[pos + 7]);
        assert((x % 4294967296) as u32 == low);
        assert((x / 4294967296) as u32 == high);
    }
}

/// A `u64` takes eight bytes.
pub broadcast proof fn lemma_u64_bytes_len(x: u64)
    ensures
        #[trigger] u64_bytes(x).len() == 8,
{
    lemma_u32_bytes_len((x % 4294967296) as u32);
    lemma_u32_bytes_len((x / 4294967296) as u32);
}

/// Appends the encoding of `x` to `out`.
pub fn write_u64(out: &mut Vec<u8>, x: u64)
    ensures
        final(out)@ == old(out)@ + u64_bytes(x),
{
    write_u32(out, (x % 4294967296) as u32);
    write_u32(out, (x / 4294967296) as u32);
    assert(out@ =~= old(out)@ + u64_bytes(x));
}

/// Reads the `u64` at `pos`.
pub fn read_u64(buf: &[u8], pos: usize) -> (r: Result<(u64, usize), DecodeError>)
    ensures
        match r {
            Ok((x, next)) => u64_at(buf@, pos as int) == Ok::<(u64, int), DecodeError>(
                (x, next as int),
            ),
            Err(e) => u64_at(buf@, pos as int) == Err::<(u64, int), DecodeError>(e),
        },
{
    if pos > buf.len() || buf.len() - pos < 8 {
        return Err(DecodeError::Truncated);
    }
    match read_u32(buf, pos) {
        Ok((low, middle)) => match read_u32(buf, middle) {
            Ok((high, next)) => Ok((low as u64 + 4294967296 * (high as u64), next)),
            Err(e) => Err(e),
        },
        Err(e) => Err(e),
    }
}

/// The unsigned number with the same 32 bits as `x` in two's complement.
pub open spec fn i32_bits(x: i32) -> u32 {
    if x >= 0 {
        x as u32
    } else {
        (x + 4294967296) as u32
    }
}

/// The signed number with the same 32 bits as `x` in two's complement.
pub open spec fn i32_of_bits(x: u32) -> i32 {
    if x < 2147483648 {
        x as i32
    } else {
        (x - 4294967296) as i32
    }
}

/// The four bytes of `x` in two's complement, least significant first.
pub open spec fn i32_bytes(x: i32) -> Seq<u8> {
    u32_bytes(i32_bits(x))
}

/// The `i32` that `b` holds at `pos`.
pub open spec fn i32_at(b: Seq<u8>, pos: int) -> Result<(i32, int), DecodeError> {
    match u32_at(b, pos) {
        Ok((bits, next)) => Ok((i32_of_bits(bits), next)),
        Err(e) => Err(e),
    }
}

/// Where the encoding of an `i32` stands, that `i32` is read, and reading
/// ends right behind the encoding.
pub proof fn lemma_i32_round_trip(b: Seq<u8>, pos: int, x: i32)
    requires
        occurs_at(b, pos, i32_bytes(x)),
    ensures
        i32_at(b, pos) == Ok::<(i32, int), DecodeError>((x, pos + 4)),
        i32_bytes(x).len() == 4,
{
    lemma_u32_bytes_len(i32_bits(x));
    lemma_u32_round_trip(b, pos, i32_bits(x));
}

/// What is read as an `i32` is written as the four bytes it was read from.
pub proof fn lemma_i32_canonical(b: Seq<u8>, pos: int)
    ensures
        i32_at(b, pos) matches Ok((x, next)) ==> (0 <= pos && next == pos + 4 && next <= b.len()
            && b.subrange(pos, next) == i32_bytes(x)),
{
    lemma_u32_canonical(b, pos);
}

/// Appends the encoding of `x` to `out`.
pub fn write_i32(out: &mut Vec<u8>, x: i32)
    ensures
        final(out)@ == old(out)@ + i32_bytes(x),
{
    let bits: u32 = if x >= 0 {
        x as u32
    } else {
        (x as i64 + 4294967296) as u32
    };
    write_u32(out, bits);
}

/// Reads the `i32` at `pos`.
pub fn read_i32(buf: &[u8], pos: usize) -> (r: Result<(i32, usize), DecodeError>)
    ensures
        match r {
            Ok((x, next)) => i32_at(buf@, pos as int) == Ok::<(i32, int), DecodeError>(
                (x, next as int),
            ),
            Err(e) => i32_at(buf@, pos as int) == Err::<(i32, int), DecodeError>(e),
        },
{
    match read_u32(buf, pos) {
        Ok((bits, next)) => {
            let x: i32 = if bits < 2147483648 {
                bits as i32
            } else {
                (bits as i64 - 4294967296) as i32
            };
            Ok((x, next))
        },
        Err(e) => Err(e),
    }
}

/// An optional `i32`: a marker byte, 0 for none and 1 for some, then the
/// number where there is one.
pub open spec fn option_i32_bytes(x: Option<i32>) -> Seq<u8> {
    match x {
        None => seq![0u8],
        Some(v) => seq![1u8] + i32_bytes(v),
    }
}

/// The optional `i32` that `b` holds at `pos`.
pub open spec fn option_i32_at(b: Seq<u8>, pos: int) -> Result<(Option<i32>, int), DecodeError> {
    if 0 <= pos && pos + 1 <= b.len() {
        if b[pos] == 0 {
            Ok((None, pos + 1))
        } else if b[pos] == 1 {
            match i32_at(b, pos + 1) {
                Ok((v, next)) => Ok((Some(v), next)),
                Err(e) => Err(e),
            }
        } else {
            Err(DecodeError::UnknownTag)
        }
    } else {
        Err(DecodeError::Truncated)
    }
}

/// Where the encoding of an optional `i32` stands, that value is read, and
/// reading ends right behind the encoding.
pub proof fn lemma_option_i32_round_trip(b: Seq<u8>, pos: int, x: Option<i32>)
    requires
        occurs_at(b, pos, option_i32_bytes(x)),
    ensures
        option_i32_at(b, pos) == Ok::<(Option<i32>, int), DecodeError>(
            (x, pos + option_i32_bytes(x).len()),
        ),
{
    let e = option_i32_bytes(x);
    match x {
        None => {
            assert(b[pos] == b.subrange(pos, pos + e.len())[0]);
        },
        Some(v) => {
            lemma_u32_bytes_len(i32_bits(v));
            assert(b[pos] == b.subrange(pos, pos + e.len())[0]);
            lemma_occurs_at_concat(b, pos, seq![1u8], i32_bytes(v));
            lemma_i32_round_trip(b, pos + 1, v);
        },
    }
}

/// What is read as an optional `i32` is written as the bytes it was read
/// from.
pub proof fn lemma_option_i32_canonical(b: Seq<u8>, pos: int)
    ensures
        option_i32_at(b, pos) matches Ok((x, next)) ==> (0 <= pos <= next <= b.len()
            && b.subrange(pos, next) == option_i32_bytes(x)),
{
    if let Ok((x, next)) = option_i32_at(b, pos) {
        match x {
            None => {
                assert(b.subrange(pos, next) =~= seq![0u8]);
            },
            Some(v) => {
                lemma_i32_canonical(b, pos + 1);
                lemma_subrange_join(b, pos, pos + 1, next);
                assert(b.subrange(pos, pos + 1) =~= seq![1u8]);
            },
        }
    }
}

/// Appends the encoding of `x` to `out`.
pub fn write_option_i32(out: &mut Vec<u8>, x: Option<i32>)
    ensures
        final(out)@ == old(out)@ + option_i32_bytes(x),
{
    match x {
        None => {
            out.push(0u8);
            assert(out@ =~= old(out)@ + option_i32_bytes(x));
        },
        Some(v) => {
            out.push(1u8);
            write_i32(out, v);
            assert(out@ =~= old(out)@ + option_i32_bytes(x));
        },
    }
}

/// Reads the optional `i32` at `pos`.
pub fn read_option_i32(buf: &[u8], pos: usize) -> (r: Result<(Option<i32>, usize), DecodeError>)
    ensures
        match r {
            Ok((x, next)) => option_i32_at(buf@, pos as int) == Ok::<
                (Option<i32>, int),
                DecodeError,
            >((x, next as int)),
            Err(e) => option_i32_at(buf@, pos as int) == Err::<(Option<i32>, int), DecodeError>(e),
        },
{
    if pos >= buf.len() {
        return Err(DecodeError::Truncated);
    }
    let marker: u8 = buf[pos];
    if marker == 0 {
        Ok((None, pos + 1))
    } else if marker == 1 {
        match read_i32(buf, pos + 1) {
            Ok((v, next)) => Ok((Some(v), next)),
            Err(e) => Err(e),
        }
    } else {
        Err(DecodeError::UnknownTag)
    }
}

/// A byte string short enough for its length to be written as a `u64`.
pub open spec fn blob_fits(s: Seq<u8>) -> bool {
    s.len() <= u64::MAX
}

/// A byte string: its length as a `u64`, then the bytes.
pub open spec fn blob_bytes(s: Seq<u8>) -> Seq<u8> {
    u64_bytes(s.len() as u64) + s
}

/// The byte string that `b` holds at `pos`.
pub open spec fn blob_at(b: Seq<u8>, pos: int) -> Result<(Seq<u8>, int), DecodeError> {
    match u64_at(b, pos) {
        Ok((n, start)) => if start + n <= b.len() {
            Ok((b.subrange(start, start + n), start + n))
        } else {
            Err(DecodeError::Truncated)
        },
        Err(e) => Err(e),
    }
}

/// Where the encoding of a byte string stands, that byte string is read, and
/// reading ends right behind the encoding.
pub proof fn lemma_blob_round_trip(b: Seq<u8>, pos: int, s: Seq<u8>)
    requires
        blob_fits(s),
        occurs_at(b, pos, blob_bytes(s)),
    ensures
        blob_at(b, pos) == Ok::<(Seq<u8>, int), DecodeError>((s, pos + blob_bytes(s).len())),
        blob_bytes(s).len() == 8 + s.len(),
{
    lemma_u64_bytes_len(s.len() as u64);
    lemma_occurs_at_concat(b, pos, u64_bytes(s.len() as u64), s);
    lemma_u64_round_trip(b, pos, s.len() as u64);
}

/// What is read as a byte string is written as the bytes it was read from.
pub proof fn lemma_blob_canonical(b: Seq<u8>, pos: int)
    ensures
        blob_at(b, pos) matches Ok((s, next)) ==> (0 <= pos <= next <= b.len() && blob_fits(s)
            && b.subrange(pos, next) == blob_bytes(s)),
{
    if let Ok((s, next)) = blob_at(b, pos) {
        lemma_u64_canonical(b, pos);
        lemma_subrange_join(b, pos, pos + 8, next);
    }
}

/// Appends `src` to `out`.
pub fn extend_bytes(out: &mut Vec<u8>, src: &[u8])
    ensures
        final(out)@ == old(out)@ + src@,
{
    let mut i: usize = 0;
    while i < src.len()
        invariant
            i <= src.len(),
            out@ == old(out)@ + src@.subrange(0, i as int),
        decreases src.len() - i,
    {
        out.push(src[i]);
        i = i + 1;
        assert(out@ =~= old(out)@ + src@.subrange(0, i as int));
    }
    assert(src@.subrange(0, i as int) =~= src@);
}

/// Appends the encoding of `s` to `out`.
pub fn write_blob(out: &mut Vec<u8>, s: &[u8])
    ensures
        final(out)@ == old(out)@ + blob_bytes(s@),
        blob_fits(s@),
{
    write_u64(out, s.len() as u64);
    extend_bytes(out, s);
    assert(out@ =~= old(out)@ + blob_bytes(s@));
}

/// Reads the byte string at `pos`.
pub fn read_blob(buf: &[u8], pos: usize) -> (r: Result<(Vec<u8>, usize), DecodeError>)
    ensures
        match r {
            Ok((s, next)) => blob_at(buf@, pos as int) == Ok::<(Seq<u8>, int), DecodeError>(
                (s@, next as int),
            ),
            Err(e) => blob_at(buf@, pos as int) == Err::<(Seq<u8>, int), DecodeError>(e),
        },
{
    match read_u64(buf, pos) {
        Ok((n, start)) => {
            if n > (buf.len() - start) as u64 {
                return Err(DecodeError::Truncated);
            }
            let end: usize = start + n as usize;
            let s = slice_to_vec(slice_subrange(buf, start, end));
            Ok((s, end))
        },
        Err(e) => Err(e),
    }
}

/// Text whose UTF-8 encoding is short enough for a `u64` length.
pub open spec fn text_fits(s: Seq<char>) -> bool {
    blob_fits(encode_utf8(s))
}

/// Text: the byte string of its UTF-8 encoding.
pub open spec fn text_bytes(s: Seq<char>) -> Seq<u8> {
    blob_bytes(encode_utf8(s))
}

/// The text that `b` holds at `pos`.
pub open spec fn text_at(b: Seq<u8>, pos: int) -> Result<(Seq<char>, int), DecodeError> {
    match blob_at(b, pos) {
        Ok((raw, next)) => if valid_utf8(raw) {
            Ok((decode_utf8(raw), next))
        } else {
            Err(DecodeError::InvalidText)
        },
        Err(e) => Err(e),
    }
}

/// Where the encoding of a text stands, that text is read, and reading ends
/// right behind the encoding.
pub proof fn lemma_text_round_trip(b: Seq<u8>, pos: int, s: Seq<char>)
    requires
        text_fits(s),
        occurs_at(b, pos, text_bytes(s)),
    ensures
        text_at(b, pos) == Ok::<(Seq<char>, int), DecodeError>((s, pos + text_bytes(s).len())),
        text_bytes(s).len() == 8 + encode_utf8(s).len(),
{
    lemma_blob_round_trip(b, pos, encode_utf8(s));
    vstd::utf8::encode_utf8_valid_utf8(s);
    vstd::utf8::encode_utf8_decode_utf8(s);
}

/// What is read as text is written as the bytes it was read from.
pub proof fn lemma_text_canonical(b: Seq<u8>, pos: int)
    ensures
        text_at(b, pos) matches Ok((s, next)) ==> (0 <= pos <= next <= b.len() && text_fits(s)
            && b.subrange(pos, next) == text_bytes(s)),
{
    if let Ok((s, next)) = text_at(b, pos) {
        lemma_blob_canonical(b, pos);
        let raw = blob_at(b, pos)->Ok_0.0;
        vstd::utf8::decode_utf8_encode_utf8(raw);
    }
}

/// Calls `String::from_utf8` and drops the detail of its error. By the
/// documentation of the standard library the call succeeds exactly on valid
/// UTF-8, and the string then consists of the characters that the bytes encode.
#[verifier::external_body]
pub(crate) fn string_from_utf8(raw: Vec<u8>) -> (r: Option<String>)
    ensures
        r is Some <==> valid_utf8(raw@),
        r matches Some(s) ==> s@ == decode_utf8(raw@),
{
    String::from_utf8(raw).ok()
}

/// Appends the encoding of `s` to `out`.
pub fn write_text(out: &mut Vec<u8>, s: &str)
    ensures
        final(out)@ == old(out)@ + text_bytes(s@),
        text_fits(s@),
{
    write_blob(out, s.as_bytes());
}

/// Reads the text at `pos`.
pub fn read_text(buf: &[u8], pos: usize) -> (r: Result<(String, usize), DecodeError>)
    ensures
        match r {
            Ok((s, next)) => text_at(buf@, pos as int) == Ok::<(Seq<char>, int), DecodeError>(
                (s@, next as int),
            ),
            Err(e) => text_at(buf@, pos as int) == Err::<(Seq<char>, int), DecodeError>(e),
        },
{
    match read_blob(buf, pos) {
        Ok((raw, next)) => match string_from_utf8(raw) {
            Some(s) => Ok((s, next)),
            None => Err(DecodeError::InvalidText),
        },
        Err(e) => Err(e),
    }
}

} // verus!
