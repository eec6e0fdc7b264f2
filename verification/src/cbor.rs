//! Byte-level primitives of the wire format.
//!
//! The format is the subset of CBOR that the schema needs: unsigned
//! integers, definite-length text strings and definite-length maps, every
//! length and integer written in its shortest form.

use vstd::prelude::*;
use vstd::slice::*;
use vstd::utf8::*;

verus! {

/// Major type of an unsigned integer item.
pub const MAJOR_UNSIGNED: u8 = 0;

/// Major type of a text string item.
pub const MAJOR_TEXT: u8 = 3;

/// Major type of a map item.
pub const MAJOR_MAP: u8 = 5;

/// `piece` occurs in `bytes`, starting at index `pos`.
pub open spec fn has_at(bytes: Seq<u8>, pos: int, piece: Seq<u8>) -> bool {
    &&& 0 <= pos
    &&& pos + piece.len() <= bytes.len()
    &&& forall|i: int| 0 <= i < piece.len() ==> bytes[pos + i] == #[trigger] piece[i]
}

/// Where parsing continues when `piece` is found at `pos`, if it is.
pub open spec fn expect(bytes: Seq<u8>, pos: int, piece: Seq<u8>) -> Option<int> {
    if has_at(bytes, pos, piece) {
        Some(pos + piece.len())
    } else {
        None
    }
}

/// A concatenation found at `pos` places its two halves one after the other.
pub proof fn has_at_concat(bytes: Seq<u8>, pos: int, left: Seq<u8>, right: Seq<u8>)
    requires
        has_at(bytes, pos, left + right),
    ensures
        has_at(bytes, pos, left),
        has_at(bytes, pos + left.len(), right),
{
    let whole = left + right;
    assert forall|i: int| 0 <= i < left.len() implies bytes[pos + i] == #[trigger] left[i] by {
        assert(whole[i] == left[i]);
    }
    assert forall|i: int| 0 <= i < right.len() implies bytes[pos + left.len() + i]
        == #[trigger] right[i] by {
        assert(whole[left.len() + i] == right[i]);
    }
}

/// Every byte sequence holds itself at index 0.
pub proof fn has_at_self(bytes: Seq<u8>)
    ensures
        has_at(bytes, 0, bytes),
{
}

/// Two pieces that stand one behind the other stand as their concatenation.
pub proof fn has_at_join(bytes: Seq<u8>, pos: int, left: Seq<u8>, right: Seq<u8>)
    requires
        has_at(bytes, pos, left),
        has_at(bytes, pos + left.len(), right),
    ensures
        has_at(bytes, pos, left + right),
{
    let whole = left + right;
    assert forall|i: int| 0 <= i < whole.len() implies bytes[pos + i] == #[trigger] whole[i] by {
        if i < left.len() {
            assert(whole[i] == left[i]);
        } else {
            let j = i - left.len();
            assert(whole[i] == right[j]);
            assert(bytes[pos + left.len() + j] == right[j]);
        }
    }
}

/// A piece that stands at index 0 and is as long as the bytes is the bytes.
pub proof fn has_at_whole(bytes: Seq<u8>, piece: Seq<u8>)
    requires
        has_at(bytes, 0, piece),
        piece.len() == bytes.len(),
    ensures
        bytes == piece,
{
    assert forall|i: int| 0 <= i < piece.len() implies bytes[i] == piece[i] by {
        assert(bytes[0 + i] == piece[i]);
    }
    assert(bytes =~= piece);
}

/// The two bytes at `pos`, read as a big-endian number.
pub open spec fn be16(bytes: Seq<u8>, pos: int) -> int {
    bytes[pos] * 0x100 + bytes[pos + 1]
}

/// The four bytes at `pos`, read as a big-endian number.
pub open spec fn be32(bytes: Seq<u8>, pos: int) -> int {
    be16(bytes, pos) * 0x1_0000 + be16(bytes, pos + 2)
}

/// The eight bytes at `pos`, read as a big-endian number.
pub open spec fn be64(bytes: Seq<u8>, pos: int) -> int {
    be32(bytes, pos) * 0x1_0000_0000 + be32(bytes, pos + 4)
}

/// A number below 2^16 as two big-endian bytes.
pub open spec fn be16_bytes(n: int) -> Seq<u8> {
    seq![(n / 0x100) as u8, (n % 0x100) as u8]
}

/// A number below 2^32 as four big-endian bytes.
pub open spec fn be32_bytes(n: int) -> Seq<u8> {
    be16_bytes(n / 0x1_0000) + be16_bytes(n % 0x1_0000)
}

/// A number below 2^64 as eight big-endian bytes.
pub open spec fn be64_bytes(n: int) -> Seq<u8> {
    be32_bytes(n / 0x1_0000_0000) + be32_bytes(n % 0x1_0000_0000)
}

/// The head of an item: major type and argument, the argument in the
/// shortest of the five widths that holds it.
pub open spec fn head_bytes(major: u8, n: u64) -> Seq<u8>
    recommends
        major < 8,
{
    let lead = major * 32;
    if n < 24 {
        seq![(lead + n) as u8]
    } else if n < 0x100 {
        seq![(lead + 24) as u8, n as u8]
    } else if n < 0x1_0000 {
        seq![(lead + 25) as u8] + be16_bytes(n as int)
    } else if n < 0x1_0000_0000 {
        seq![(lead + 26) as u8] + be32_bytes(n as int)
    } else {
        seq![(lead + 27) as u8] + be64_bytes(n as int)
    }
}

/// The head of major type `major` that starts at `pos`: its argument and the
/// index behind it. `None` where the bytes run out, the major type differs,
/// the width is none of the five, or a shorter width would have held the
/// argument.
#[verifier::opaque]
pub open spec fn parse_head(bytes: Seq<u8>, pos: int, major: u8) -> Option<(u64, int)> {
    if 0 <= pos < bytes.len() {
        let info = bytes[pos] % 32;
        if bytes[pos] / 32 != major {
            None
        } else if info < 24 {
            Some((info as u64, pos + 1))
        } else if info == 24 {
            if pos + 2 <= bytes.len() && bytes[pos + 1] >= 24 {
                Some((bytes[pos + 1] as u64, pos + 2))
            } else {
                None
            }
        } else if info == 25 {
            if pos + 3 <= bytes.len() && be16(bytes, pos + 1) >= 0x100 {
                Some((be16(bytes, pos + 1) as u64, pos + 3))
            } else {
                None
            }
        } else if info == 26 {
            if pos + 5 <= bytes.len() && be32(bytes, pos + 1) >= 0x1_0000 {
                Some((be32(bytes, pos + 1) as u64, pos + 5))
            } else {
                None
            }
        } else if info == 27 {
            if pos + 9 <= bytes.len() && be64(bytes, pos + 1) >= 0x1_0000_0000 {
                Some((be64(bytes, pos + 1) as u64, pos + 9))
            } else {
                None
            }
        } else {
            None
        }
    } else {
        None
    }
}

/// Two big-endian bytes that were written are read back as the number.
pub proof fn be16_of_be16_bytes(bytes: Seq<u8>, pos: int, n: int)
    requires
        0 <= n < 0x1_0000,
        has_at(bytes, pos, be16_bytes(n)),
    ensures
        be16(bytes, pos) == n,
{
    let piece = be16_bytes(n);
    assert(bytes[pos + 0] == piece[0]);
    assert(bytes[pos + 1] == piece[1]);
}

/// Four big-endian bytes that were written are read back as the number.
pub proof fn be32_of_be32_bytes(bytes: Seq<u8>, pos: int, n: int)
    requires
        0 <= n < 0x1_0000_0000,
        has_at(bytes, pos, be32_bytes(n)),
    ensures
        be32(bytes, pos) == n,
{
    has_at_concat(bytes, pos, be16_bytes(n / 0x1_0000), be16_bytes(n % 0x1_0000));
    be16_of_be16_bytes(bytes, pos, n / 0x1_0000);
    be16_of_be16_bytes(bytes, pos + 2, n % 0x1_0000);
}

/// Eight big-endian bytes that were written are read back as the number.
pub proof fn be64_of_be64_bytes(bytes: Seq<u8>, pos: int, n: int)
    requires
        0 <= n < 0x1_0000_0000_0000_0000,
        has_at(bytes, pos, be64_bytes(n)),
    ensures
        be64(bytes, pos) == n,
{
    has_at_concat(bytes, pos, be32_bytes(n / 0x1_0000_0000), be32_bytes(n % 0x1_0000_0000));
    be32_of_be32_bytes(bytes, pos, n / 0x1_0000_0000);
    be32_of_be32_bytes(bytes, pos + 4, n % 0x1_0000_0000);
}

/// A head that was written is read back, with its argument, wherever it
/// stands.
pub proof fn parse_head_of_head_bytes(bytes: Seq<u8>, pos: int, major: u8, n: u64)
    requires
        major < 8,
        has_at(bytes, pos, head_bytes(major, n)),
    ensures
        parse_head(bytes, pos, major) == Some((n, pos + head_bytes(major, n).len())),
{
    reveal(parse_head);
    let head = head_bytes(major, n);
    assert(bytes[pos + 0] == head[0]);
    if n < 24 {
    } else if n < 0x100 {
        assert(bytes[pos + 1] == head[1]);
    } else if n < 0x1_0000 {
        has_at_concat(bytes, pos, seq![(major * 32 + 25) as u8], be16_bytes(n as int));
        be16_of_be16_bytes(bytes, pos + 1, n as int);
    } else if n < 0x1_0000_0000 {
        has_at_concat(bytes, pos, seq![(major * 32 + 26) as u8], be32_bytes(n as int));
        be32_of_be32_bytes(bytes, pos + 1, n as int);
    } else {
        has_at_concat(bytes, pos, seq![(major * 32 + 27) as u8], be64_bytes(n as int));
        be64_of_be64_bytes(bytes, pos + 1, n as int);
    }
}

/// The two bytes at `pos` are the big-endian form of the number they read
/// as.
pub proof fn be16_bytes_of_be16(bytes: Seq<u8>, pos: int)
    requires
        0 <= pos,
        pos + 2 <= bytes.len(),
    ensures
        has_at(bytes, pos, be16_bytes(be16(bytes, pos))),
        0 <= be16(bytes, pos) < 0x1_0000,
{
    let n = be16(bytes, pos);
    let piece = be16_bytes(n);
    assert(n / 0x100 == bytes[pos] && n % 0x100 == bytes[pos + 1]);
    assert forall|i: int| 0 <= i < piece.len() implies bytes[pos + i] == #[trigger] piece[i] by {
        if i == 0 {
            assert(piece[0] == bytes[pos]);
        } else {
            assert(piece[1] == bytes[pos + 1]);
        }
    }
}

/// The four bytes at `pos` are the big-endian form of the number they read
/// as.
pub proof fn be32_bytes_of_be32(bytes: Seq<u8>, pos: int)
    requires
        0 <= pos,
        pos + 4 <= bytes.len(),
    ensures
        has_at(bytes, pos, be32_bytes(be32(bytes, pos))),
        0 <= be32(bytes, pos) < 0x1_0000_0000,
{
    let n = be32(bytes, pos);
    be16_bytes_of_be16(bytes, pos);
    be16_bytes_of_be16(bytes, pos + 2);
    assert(n / 0x1_0000 == be16(bytes, pos) && n % 0x1_0000 == be16(bytes, pos + 2));
    has_at_join(bytes, pos, be16_bytes(n / 0x1_0000), be16_bytes(n % 0x1_0000));
}

/// The eight bytes at `pos` are the big-endian form of the number they read
/// as.
pub proof fn be64_bytes_of_be64(bytes: Seq<u8>, pos: int)
    requires
        0 <= pos,
        pos + 8 <= bytes.len(),
    ensures
        has_at(bytes, pos, be64_bytes(be64(bytes, pos))),
        0 <= be64(bytes, pos) < 0x1_0000_0000_0000_0000,
{
    let n = be64(bytes, pos);
    be32_bytes_of_be32(bytes, pos);
    be32_bytes_of_be32(bytes, pos + 4);
    assert(n / 0x1_0000_0000 == be32(bytes, pos) && n % 0x1_0000_0000 == be32(bytes, pos + 4));
    has_at_join(bytes, pos, be32_bytes(n / 0x1_0000_0000), be32_bytes(n % 0x1_0000_0000));
}

/// A head that is read stands there as it would be written: the reader
/// accepts no other form of it.
pub proof fn head_bytes_of_parse_head(bytes: Seq<u8>, pos: int, major: u8)
    requires
        parse_head(bytes, pos, major) is Some,
    ensures
        has_at(bytes, pos, head_bytes(major, parse_head(bytes, pos, major).unwrap().0)),
        parse_head(bytes, pos, major).unwrap().1 == pos + head_bytes(
            major,
            parse_head(bytes, pos, major).unwrap().0,
        ).len(),
{
    reveal(parse_head);
    let n = parse_head(bytes, pos, major).unwrap().0;
    let info = bytes[pos] % 32;
    let head = head_bytes(major, n);
    let lead = seq![bytes[pos]];
    assert(has_at(bytes, pos, lead)) by {
        assert forall|i: int| 0 <= i < lead.len() implies bytes[pos + i] == #[trigger] lead[i] by {
            assert(lead[0] == bytes[pos]);
        }
    }
    if info < 24 {
        assert(head =~= lead);
    } else if info == 24 {
        let rest = seq![bytes[pos + 1]];
        assert(has_at(bytes, pos + 1, rest)) by {
            assert forall|i: int| 0 <= i < rest.len() implies bytes[pos + 1 + i]
                == #[trigger] rest[i] by {
                assert(rest[0] == bytes[pos + 1]);
            }
        }
        has_at_join(bytes, pos, lead, rest);
        assert(head =~= lead + rest);
    } else if info == 25 {
        be16_bytes_of_be16(bytes, pos + 1);
        has_at_join(bytes, pos, lead, be16_bytes(n as int));
        assert(head =~= lead + be16_bytes(n as int));
    } else if info == 26 {
        be32_bytes_of_be32(bytes, pos + 1);
        has_at_join(bytes, pos, lead, be32_bytes(n as int));
        assert(head =~= lead + be32_bytes(n as int));
    } else {
        be64_bytes_of_be64(bytes, pos + 1);
        has_at_join(bytes, pos, lead, be64_bytes(n as int));
        assert(head =~= lead + be64_bytes(n as int));
    }
}

/// Appends a number below 2^16 as two big-endian bytes.
fn write_be16(out: &mut Vec<u8>, n: u64)
    requires
        n < 0x1_0000,
    ensures
        final(out)@ == old(out)@ + be16_bytes(n as int),
{
    out.push((n / 0x100) as u8);
    out.push((n % 0x100) as u8);
    assert(out@ =~= old(out)@ + be16_bytes(n as int));
}

/// Appends a number below 2^32 as four big-endian bytes.
fn write_be32(out: &mut Vec<u8>, n: u64)
    requires
        n < 0x1_0000_0000,
    ensures
        final(out)@ == old(out)@ + be32_bytes(n as int),
{
    write_be16(out, n / 0x1_0000);
    write_be16(out, n % 0x1_0000);
    assert(out@ =~= old(out)@ + be32_bytes(n as int));
}

/// Appends a number as eight big-endian bytes.
fn write_be64(out: &mut Vec<u8>, n: u64)
    ensures
        final(out)@ == old(out)@ + be64_bytes(n as int),
{
    write_be32(out, n / 0x1_0000_0000);
    write_be32(out, n % 0x1_0000_0000);
    assert(out@ =~= old(out)@ + be64_bytes(n as int));
}

/// Appends the head of an item to `out`.
pub fn write_head(out: &mut Vec<u8>, major: u8, n: u64)
    requires
        major < 8,
    ensures
        final(out)@ == old(out)@ + head_bytes(major, n),
{
    let lead: u8 = major * 32;
    if n < 24 {
        out.push(lead + (n as u8));
    } else if n < 0x100 {
        out.push(lead + 24);
        out.push(n as u8);
    } else if n < 0x1_0000 {
        out.push(lead + 25);
        write_be16(out, n);
    } else if n < 0x1_0000_0000 {
        out.push(lead + 26);
        write_be32(out, n);
    } else {
        out.push(lead + 27);
        write_be64(out, n);
    }
    assert(out@ =~= old(out)@ + head_bytes(major, n));
}

/// Reads the two bytes at `pos` as a big-endian number.
fn read_be16(bytes: &[u8], pos: usize) -> (value: u64)
    requires
        pos + 2 <= bytes@.len(),
    ensures
        value == be16(bytes@, pos as int),
{
    (bytes[pos] as u64) * 0x100 + (bytes[pos + 1] as u64)
}

/// Reads the four bytes at `pos` as a big-endian number.
fn read_be32(bytes: &[u8], pos: usize) -> (value: u64)
    requires
        pos + 4 <= bytes@.len() <= usize::MAX,
    ensures
        value == be32(bytes@, pos as int),
{
    read_be16(bytes, pos) * 0x1_0000 + read_be16(bytes, pos + 2)
}

/// Reads the eight bytes at `pos` as a big-endian number.
fn read_be64(bytes: &[u8], pos: usize) -> (value: u64)
    requires
        pos + 8 <= bytes@.len() <= usize::MAX,
    ensures
        value == be64(bytes@, pos as int),
{
    read_be32(bytes, pos) * 0x1_0000_0000 + read_be32(bytes, pos + 4)
}

/// Reads the head of major type `major` that starts at `pos`.
pub fn read_head(bytes: &[u8], pos: usize, major: u8) -> (r: Option<(u64, usize)>)
    ensures
        match r {
            Some((n, end)) => parse_head(bytes@, pos as int, major) == Some((n, end as int)) && pos
                < end <= bytes@.len(),
            None => parse_head(bytes@, pos as int, major) is None,
        },
{
    reveal(parse_head);
    if pos >= bytes.len() {
        return None;
    }
    let lead: u8 = bytes[pos];
    let info: u8 = lead % 32;
    if lead / 32 != major {
        return None;
    }
    if info < 24 {
        return Some((info as u64, pos + 1));
    }
    if info > 27 {
        return None;
    }
    let remaining: usize = bytes.len() - pos - 1;
    if info == 24 {
        if remaining < 1 {
            return None;
        }
        let n: u8 = bytes[pos + 1];
        if n >= 24 {
            Some((n as u64, pos + 2))
        } else {
            None
        }
    } else if info == 25 {
        if remaining < 2 {
            return None;
        }
        let n: u64 = read_be16(bytes, pos + 1);
        if n >= 0x100 {
            Some((n, pos + 3))
        } else {
            None
        }
    } else if info == 26 {
        if remaining < 4 {
            return None;
        }
        let n: u64 = read_be32(bytes, pos + 1);
        if n >= 0x1_0000 {
            Some((n, pos + 5))
        } else {
            None
        }
    } else {
        if remaining < 8 {
            return None;
        }
        let n: u64 = read_be64(bytes, pos + 1);
        if n >= 0x1_0000_0000 {
            Some((n, pos + 9))
        } else {
            None
        }
    }
}

/// The byte sequence is valid UTF-8 exactly when `core::str::from_utf8`
/// accepts it, and the string it then returns holds the characters that the
/// bytes encode. The standard library documents the check; it is not proved
/// here.
pub assume_specification[ core::str::from_utf8 ](v: &[u8]) -> (r: Result<
    &str,
    core::str::Utf8Error,
>)
    ensures
        r is Ok <==> valid_utf8(v@),
        r matches Ok(s) ==> s@ == decode_utf8(v@),
;

/// The error of `core::str::from_utf8`; nothing is read from it.
#[verifier::external_type_specification]
#[verifier::external_body]
pub struct ExUtf8Error(core::str::Utf8Error);

/// The UTF-8 form of the string is short enough for a text item's head.
pub open spec fn text_fits(s: Seq<char>) -> bool {
    encode_utf8(s).len() <= u64::MAX
}

/// A text item: a head with the length in bytes, then the string in UTF-8.
pub open spec fn text_bytes(s: Seq<char>) -> Seq<u8> {
    head_bytes(MAJOR_TEXT, encode_utf8(s).len() as u64) + encode_utf8(s)
}

/// The text item that starts at `pos`: its string and the index behind it.
/// `None` where there is no text head, the bytes run out before the length
/// is reached, or the payload is not valid UTF-8.
pub open spec fn parse_text(bytes: Seq<u8>, pos: int) -> Option<(Seq<char>, int)> {
    match parse_head(bytes, pos, MAJOR_TEXT) {
        Some((n, start)) => {
            let payload = bytes.subrange(start, start + n);
            if start + n <= bytes.len() && valid_utf8(payload) {
                Some((decode_utf8(payload), start + n))
            } else {
                None
            }
        },
        None => None,
    }
}

/// The unsigned integer item that starts at `pos`, and the index behind it.
pub open spec fn parse_unsigned(bytes: Seq<u8>, pos: int) -> Option<(u64, int)> {
    parse_head(bytes, pos, MAJOR_UNSIGNED)
}

/// A text item that was written is read back, with its string, wherever it
/// stands.
pub proof fn parse_text_of_text_bytes(bytes: Seq<u8>, pos: int, s: Seq<char>)
    requires
        text_fits(s),
        has_at(bytes, pos, text_bytes(s)),
    ensures
        parse_text(bytes, pos) == Some((s, pos + text_bytes(s).len())),
{
    let payload = encode_utf8(s);
    let head = head_bytes(MAJOR_TEXT, payload.len() as u64);
    has_at_concat(bytes, pos, head, payload);
    parse_head_of_head_bytes(bytes, pos, MAJOR_TEXT, payload.len() as u64);
    let start = pos + head.len();
    assert(bytes.subrange(start, start + payload.len()) =~= payload);
    encode_utf8_valid_utf8(s);
    encode_utf8_decode_utf8(s);
}

/// A text item that is read stands there as it would be written: the
/// reader accepts no other form of it.
pub proof fn text_bytes_of_parse_text(bytes: Seq<u8>, pos: int)
    requires
        parse_text(bytes, pos) is Some,
    ensures
        text_fits(parse_text(bytes, pos).unwrap().0),
        has_at(bytes, pos, text_bytes(parse_text(bytes, pos).unwrap().0)),
        parse_text(bytes, pos).unwrap().1 == pos + text_bytes(
            parse_text(bytes, pos).unwrap().0,
        ).len(),
{
    let (n, start) = parse_head(bytes, pos, MAJOR_TEXT).unwrap();
    let payload = bytes.subrange(start, start + n);
    head_bytes_of_parse_head(bytes, pos, MAJOR_TEXT);
    decode_utf8_encode_utf8(payload);
    assert(has_at(bytes, start, payload)) by {
        assert forall|i: int| 0 <= i < payload.len() implies bytes[start + i]
            == #[trigger] payload[i] by {}
    }
    has_at_join(bytes, pos, head_bytes(MAJOR_TEXT, n), payload);
}

/// Appends a text item to `out`.
pub fn write_text(out: &mut Vec<u8>, s: &str)
    ensures
        final(out)@ == old(out)@ + text_bytes(s@),
        text_fits(s@),
{
    let payload = s.as_bytes();
    write_head(out, MAJOR_TEXT, payload.len() as u64);
    out.extend_from_slice(payload);
    assert(out@ =~= old(out)@ + text_bytes(s@));
}

/// Reads the text item that starts at `pos`.
pub fn read_text(bytes: &[u8], pos: usize) -> (r: Option<(String, usize)>)
    ensures
        match r {
            Some((s, end)) => parse_text(bytes@, pos as int) == Some((s@, end as int)) && pos
                < end <= bytes@.len(),
            None => parse_text(bytes@, pos as int) is None,
        },
{
    match read_head(bytes, pos, MAJOR_TEXT) {
        None => None,
        Some((n, start)) => {
            if n > (bytes.len() - start) as u64 {
                return None;
            }
            let end: usize = start + (n as usize);
            match core::str::from_utf8(slice_subrange(bytes, start, end)) {
                Ok(s) => Some((s.to_owned(), end)),
                Err(_) => None,
            }
        },
    }
}

/// Reads the unsigned integer item that starts at `pos`.
pub fn read_unsigned(bytes: &[u8], pos: usize) -> (r: Option<(u64, usize)>)
    ensures
        match r {
            Some((n, end)) => parse_unsigned(bytes@, pos as int) == Some((n, end as int)) && pos
                < end <= bytes@.len(),
            None => parse_unsigned(bytes@, pos as int) is None,
        },
{
    read_head(bytes, pos, MAJOR_UNSIGNED)
}

/// Tells whether `piece` stands at `pos`, and if so where it ends.
pub fn expect_bytes(bytes: &[u8], pos: usize, piece: &[u8]) -> (r: Option<usize>)
    ensures
        match r {
            Some(end) => expect(bytes@, pos as int, piece@) == Some(end as int),
            None => expect(bytes@, pos as int, piece@) is None,
        },
{
    if pos > bytes.len() || piece.len() > bytes.len() - pos {
        return None;
    }
    let mut i: usize = 0;
    while i < piece.len()
        invariant
            i <= piece@.len(),
            pos + piece@.len() <= bytes@.len() <= usize::MAX,
            forall|j: int| 0 <= j < i ==> bytes@[pos + j] == #[trigger] piece@[j],
        decreases piece@.len() - i,
    {
        if bytes[pos + i] != piece[i] {
            assert(bytes@[pos + i] != piece@[i as int]);
            return None;
        }
        i = i + 1;
    }
    Some(pos + piece.len())
}

} // verus!
