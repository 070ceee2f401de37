//! Tag-length-value fields with a variable-length length prefix.
//!
//! A field is one tag byte, the value's length as a varint of one to four
//! bytes, then the value. A reader that meets a tag it does not know can still
//! step over the field, which keeps the layout open to new tags.
use vstd::prelude::*;
use crate::error::KenvError;
use crate::bytes::append_bytes;

verus! {

/// Bytes of the varint that encodes `v`:
/// below 128 one byte (top bit 0); below 16384 two bytes (top bits 10);
/// below 2097152 three bytes (top bits 110); otherwise four bytes (top bits 111).
pub open spec fn varint_bytes(v: u32) -> Seq<u8> {
    if v < 128 {
        seq![v as u8]
    } else if v < 16384 {
        seq![0x80u8 | ((v >> 8u32) as u8), (v & 0xFFu32) as u8]
    } else if v < 2097152 {
        seq![0xC0u8 | ((v >> 16u32) as u8), ((v >> 8u32) & 0xFFu32) as u8, (v & 0xFFu32) as u8]
    } else {
        seq![
            0xE0u8 | ((v >> 24u32) as u8),
            ((v >> 16u32) & 0xFFu32) as u8,
            ((v >> 8u32) & 0xFFu32) as u8,
            (v & 0xFFu32) as u8,
        ]
    }
}

/// The value and width of the varint at the start of `b`, or `None` where
/// `b` is empty or shorter than the width its first byte announces.
pub open spec fn varint_decode(b: Seq<u8>) -> Option<(u32, nat)> {
    if b.len() == 0 {
        None
    } else {
        let first = b[0];
        if first & 0x80u8 == 0 {
            Some((first as u32, 1))
        } else if first & 0xC0u8 == 0x80u8 {
            if b.len() < 2 {
                None
            } else {
                Some(((((first & 0x3Fu8) as u32) << 8u32) | (b[1] as u32), 2))
            }
        } else if first & 0xE0u8 == 0xC0u8 {
            if b.len() < 3 {
                None
            } else {
                Some(
                    (
                        (((first & 0x1Fu8) as u32) << 16u32) | ((b[1] as u32) << 8u32) | (
                        b[2] as u32),
                        3,
                    ),
                )
            }
        } else {
            if b.len() < 4 {
                None
            } else {
                Some(
                    (
                        (((first & 0x1Fu8) as u32) << 24u32) | ((b[1] as u32) << 16u32) | ((
                        b[2] as u32) << 8u32) | (b[3] as u32),
                        4,
                    ),
                )
            }
        }
    }
}

/// Largest value whose varint reads back unchanged: the four-byte form keeps
/// 29 bits of the value.
pub const VARINT_MAX: u32 = 0x1FFF_FFFF;

/// Writes the varint of `value` to the front of `buf` and returns its width.
pub fn encode_varint(value: u32, buf: &mut [u8]) -> (res: Result<usize, KenvError>)
    requires
        old(buf)@.len() >= varint_bytes(value).len(),
    ensures
        res matches Ok(n) && n == varint_bytes(value).len(),
        final(buf)@ == varint_bytes(value) + old(buf)@.skip(varint_bytes(value).len() as int),
{
    if value < 128 {
        buf[0] = value as u8;
        assert(final(buf)@ =~= varint_bytes(value) + old(buf)@.skip(1));
        Ok(1)
    } else if value < 16384 {
        buf[0] = 0x80u8 | ((value >> 8u32) as u8);
        buf[1] = (value & 0xFFu32) as u8;
        assert(final(buf)@ =~= varint_bytes(value) + old(buf)@.skip(2));
        Ok(2)
    } else if value < 2097152 {
        buf[0] = 0xC0u8 | ((value >> 16u32) as u8);
        buf[1] = ((value >> 8u32) & 0xFFu32) as u8;
        buf[2] = (value & 0xFFu32) as u8;
        assert(final(buf)@ =~= varint_bytes(value) + old(buf)@.skip(3));
        Ok(3)
    } else {
        buf[0] = 0xE0u8 | ((value >> 24u32) as u8);
        buf[1] = ((value >> 16u32) & 0xFFu32) as u8;
        buf[2] = ((value >> 8u32) & 0xFFu32) as u8;
        buf[3] = (value & 0xFFu32) as u8;
        assert(final(buf)@ =~= varint_bytes(value) + old(buf)@.skip(4));
        Ok(4)
    }
}

/// Reads the varint at the start of `buf`: its value and its width.
pub fn decode_varint(buf: &[u8]) -> (res: Result<(u32, usize), KenvError>)
    ensures
        match varint_decode(buf@) {
            Some((v, n)) => res == Ok::<(u32, usize), KenvError>((v, n as usize)),
            None => res == Err::<(u32, usize), KenvError>(KenvError::InvalidVaultFormat),
        },
{
    if buf.len() == 0 {
        return Err(KenvError::InvalidVaultFormat);
    }
    let first = buf[0];
    if first & 0x80u8 == 0 {
        Ok((first as u32, 1))
    } else if first & 0xC0u8 == 0x80u8 {
        if buf.len() < 2 {
            return Err(KenvError::InvalidVaultFormat);
        }
        let val = (((first & 0x3Fu8) as u32) << 8u32) | (buf[1] as u32);
        Ok((val, 2))
    } else if first & 0xE0u8 == 0xC0u8 {
        if buf.len() < 3 {
            return Err(KenvError::InvalidVaultFormat);
        }
        let val = (((first & 0x1Fu8) as u32) << 16u32) | ((buf[1] as u32) << 8u32) | (
        buf[2] as u32);
        Ok((val, 3))
    } else {
        if buf.len() < 4 {
            return Err(KenvError::InvalidVaultFormat);
        }
        let val = (((first & 0x1Fu8) as u32) << 24u32) | ((buf[1] as u32) << 16u32) | ((
        buf[2] as u32) << 8u32) | (buf[3] as u32);
        Ok((val, 4))
    }
}

/// A varint of a value up to [`VARINT_MAX`] reads back as that value and
/// width, whatever bytes follow it.
pub proof fn lemma_varint_roundtrip(v: u32, rest: Seq<u8>)
    requires
        v <= VARINT_MAX,
    ensures
        varint_decode(varint_bytes(v) + rest) == Some((v, varint_bytes(v).len())),
{
    let b = varint_bytes(v) + rest;
    if v < 128 {
        let b0 = v as u8;
        assert(b[0] == b0);
        assert(b0 & 0x80u8 == 0 && b0 as u32 == v) by (bit_vector)
            requires
                b0 == v as u8,
                v < 128,
        ;
    } else if v < 16384 {
        let b0 = 0x80u8 | ((v >> 8u32) as u8);
        let b1 = (v & 0xFFu32) as u8;
        assert(b[0] == b0 && b[1] == b1);
        assert(b0 & 0x80u8 != 0 && b0 & 0xC0u8 == 0x80u8 && ((((b0 & 0x3Fu8) as u32) << 8u32)
            | (b1 as u32)) == v) by (bit_vector)
            requires
                b0 == 0x80u8 | ((v >> 8u32) as u8),
                b1 == (v & 0xFFu32) as u8,
                128 <= v < 16384,
        ;
    } else if v < 2097152 {
        let b0 = 0xC0u8 | ((v >> 16u32) as u8);
        let b1 = ((v >> 8u32) & 0xFFu32) as u8;
        let b2 = (v & 0xFFu32) as u8;
        assert(b[0] == b0 && b[1] == b1 && b[2] == b2);
        assert(b0 & 0x80u8 != 0 && b0 & 0xC0u8 != 0x80u8 && b0 & 0xE0u8 == 0xC0u8 && ((((b0
            & 0x1Fu8) as u32) << 16u32) | ((b1 as u32) << 8u32) | (b2 as u32)) == v)
            by (bit_vector)
            requires
                b0 == 0xC0u8 | ((v >> 16u32) as u8),
                b1 == ((v >> 8u32) & 0xFFu32) as u8,
                b2 == (v & 0xFFu32) as u8,
                16384 <= v < 2097152,
        ;
    } else {
        let b0 = 0xE0u8 | ((v >> 24u32) as u8);
        let b1 = ((v >> 16u32) & 0xFFu32) as u8;
        let b2 = ((v >> 8u32) & 0xFFu32) as u8;
        let b3 = (v & 0xFFu32) as u8;
        assert(b[0] == b0 && b[1] == b1 && b[2] == b2 && b[3] == b3);
        assert(b0 & 0x80u8 != 0 && b0 & 0xC0u8 != 0x80u8 && b0 & 0xE0u8 != 0xC0u8 && ((((b0
            & 0x1Fu8) as u32) << 24u32) | ((b1 as u32) << 16u32) | ((b2 as u32) << 8u32) | (
        b3 as u32)) == v) by (bit_vector)
            requires
                b0 == 0xE0u8 | ((v >> 24u32) as u8),
                b1 == ((v >> 16u32) & 0xFFu32) as u8,
                b2 == ((v >> 8u32) & 0xFFu32) as u8,
                b3 == (v & 0xFFu32) as u8,
                2097152 <= v <= 0x1FFF_FFFFu32,
        ;
    }
}

/// Bytes that [`write_field`] appends for `tag` and `value`.
pub open spec fn field_bytes(tag: u8, value: Seq<u8>) -> Seq<u8> {
    seq![tag] + varint_bytes(value.len() as u32) + value
}

/// Appends one field: the tag, the varint of the value's length, the value.
///
/// The length is written as a 32-bit count, so a value longer than
/// `u32::MAX` bytes has its length cut to the low 32 bits.
pub fn write_field(writer: &mut Vec<u8>, tag: u8, value: &[u8]) -> (res: Result<(), KenvError>)
    ensures
        res is Ok,
        final(writer)@ == old(writer)@ + field_bytes(tag, value@),
{
    writer.push(tag);
    let mut len_buf = [0u8; 4];
    let len = value.len() as u32;
    let len_bytes = encode_varint(len, &mut len_buf);
    let n = match len_bytes {
        Ok(n) => n,
        Err(e) => return Err(e),
    };
    let ghost written = writer@;
    append_bytes(writer, slice_prefix(len_buf.as_slice(), n));
    assert(len_buf@.take(n as int) =~= varint_bytes(len));
    append_bytes(writer, value);
    assert(final(writer)@ =~= old(writer)@ + field_bytes(tag, value@));
    Ok(())
}

fn slice_prefix(s: &[u8], n: usize) -> (out: &[u8])
    requires
        n <= s@.len(),
    ensures
        out@ == s@.take(n as int),
{
    assert(s@.subrange(0, n as int) =~= s@.take(n as int));
    vstd::slice::slice_subrange(s, 0, n)
}

/// What [`read_field`] does at offset `off` of `data`: its result and the
/// offset it leaves behind (also on error, where it has moved past what it read).
pub open spec fn read_field_spec(data: Seq<u8>, off: int) -> (
    Result<Option<(u8, Seq<u8>)>, KenvError>,
    int,
) {
    if off >= data.len() {
        (Ok(None), off)
    } else if off + 1 >= data.len() {
        (Err(KenvError::InvalidVaultFormat), off + 1)
    } else {
        match varint_decode(data.skip(off + 1)) {
            None => (Err(KenvError::InvalidVaultFormat), off + 1),
            Some((len, width)) => {
                let start = off + 1 + width;
                if start + len > data.len() {
                    (Err(KenvError::InvalidVaultFormat), start)
                } else {
                    (Ok(Some((data[off], data.subrange(start, start + len)))), start + len)
                }
            },
        }
    }
}

/// Reads the field at `*offset` and moves `*offset` past it; `Ok(None)` once
/// the offset has reached the end of `data`. Tags are not checked: a caller
/// skips the fields it does not know.
pub fn read_field(data: &[u8], offset: &mut usize) -> (res: Result<Option<(u8, Vec<u8>)>, KenvError>)
    ensures
        ({
            let (r, o) = read_field_spec(data@, *old(offset) as int);
            &&& *final(offset) as int == o
            &&& match r {
                Ok(None) => res matches Ok(None),
                Ok(Some((t, v))) => res matches Ok(Some((t2, v2))) && t2 == t && v2@ == v,
                Err(e) => res == Err::<Option<(u8, Vec<u8>)>, KenvError>(e),
            }
        }),
{
    if *offset >= data.len() {
        return Ok(None);
    }
    let tag = data[*offset];
    *offset = *offset + 1;
    if *offset >= data.len() {
        return Err(KenvError::InvalidVaultFormat);
    }
    let rest = vstd::slice::slice_subrange(data, *offset, data.len());
    assert(rest@ =~= data@.skip(*offset as int));
    let (len, len_size) = match decode_varint(rest) {
        Ok(p) => p,
        Err(e) => return Err(e),
    };
    *offset = *offset + len_size;
    let len = len as usize;
    if len > data.len() - *offset {
        return Err(KenvError::InvalidVaultFormat);
    }
    let value = vstd::slice::slice_to_vec(vstd::slice::slice_subrange(data, *offset, *offset + len));
    *offset = *offset + len;
    Ok(Some((tag, value)))
}

/// Reading at the start of a field that [`write_field`] wrote gives back its
/// tag and value and moves to the end of the field, whatever precedes or
/// follows it, provided the value is at most [`VARINT_MAX`] bytes long.
pub proof fn lemma_read_after_write(prefix: Seq<u8>, tag: u8, value: Seq<u8>, suffix: Seq<u8>)
    requires
        value.len() <= VARINT_MAX,
    ensures
        read_field_spec(prefix + field_bytes(tag, value) + suffix, prefix.len() as int) == (
            Ok::<Option<(u8, Seq<u8>)>, KenvError>(Some((tag, value))),
            (prefix.len() + field_bytes(tag, value).len()) as int,
        ),
{
    let data = prefix + field_bytes(tag, value) + suffix;
    let off = prefix.len() as int;
    let len = value.len() as u32;
    let vb = varint_bytes(len);
    lemma_varint_roundtrip(len, value + suffix);
    assert(data.skip(off + 1) =~= vb + (value + suffix));
    assert(data[off] == tag);
    let start = off + 1 + vb.len();
    assert(data.subrange(start, start + len) =~= value);
}

/// Reading at or past the end of the data gives `Ok(None)` and leaves the
/// offset where it was.
pub proof fn lemma_read_at_end(data: Seq<u8>, off: int)
    requires
        off >= data.len(),
    ensures
        read_field_spec(data, off) == (Ok::<Option<(u8, Seq<u8>)>, KenvError>(None), off),
{
}

/// A reader that loops until `Ok(None)` over fields that `write_field` wrote
/// one after another gets each field back, in order, and then ends without
/// error where the data ends.
pub proof fn lemma_read_written_fields(tags: Seq<u8>, values: Seq<Seq<u8>>)
    requires
        tags.len() == values.len(),
        forall|i: int| 0 <= i < values.len() ==> (#[trigger] values[i]).len() <= VARINT_MAX,
    ensures
        ({
            let data = written_fields(tags, values);
            &&& forall|i: int|
                0 <= i < tags.len() ==> read_field_spec(data, #[trigger] field_offset(tags, values, i))
                    == (
                    Ok::<Option<(u8, Seq<u8>)>, KenvError>(Some((tags[i], values[i]))),
                    field_offset(tags, values, i + 1),
                )
            &&& field_offset(tags, values, 0) == 0
            &&& field_offset(tags, values, tags.len() as int) == data.len()
            &&& read_field_spec(data, data.len() as int) == (
                Ok::<Option<(u8, Seq<u8>)>, KenvError>(None),
                data.len() as int,
            )
        }),
{
    let data = written_fields(tags, values);
    assert forall|i: int| 0 <= i < tags.len() implies read_field_spec(
        data,
        #[trigger] field_offset(tags, values, i),
    ) == (
        Ok::<Option<(u8, Seq<u8>)>, KenvError>(Some((tags[i], values[i]))),
        field_offset(tags, values, i + 1),
    ) by {
        lemma_written_split(tags, values, i);
        let before = written_fields(tags.take(i), values.take(i));
        let rest = data.skip(field_offset(tags, values, i + 1));
        assert(data == before + field_bytes(tags[i], values[i]) + rest);
        lemma_read_after_write(before, tags[i], values[i], rest);
    }
    assert(tags.take(0) =~= Seq::<u8>::empty());
    assert(tags.take(tags.len() as int) =~= tags);
    assert(values.take(tags.len() as int) =~= values);
    lemma_read_at_end(data, data.len() as int);
}

/// The bytes `write_field` leaves for `tags[i]`, `values[i]` written in order.
pub open spec fn written_fields(tags: Seq<u8>, values: Seq<Seq<u8>>) -> Seq<u8>
    decreases tags.len(),
{
    if tags.len() == 0 || values.len() == 0 {
        Seq::empty()
    } else {
        written_fields(tags.drop_last(), values.drop_last()) + field_bytes(
            tags.last(),
            values.last(),
        )
    }
}

/// Where field `i` starts among fields written in order.
pub open spec fn field_offset(tags: Seq<u8>, values: Seq<Seq<u8>>, i: int) -> int {
    written_fields(tags.take(i), values.take(i)).len() as int
}

proof fn lemma_field_offset_prefix(tags: Seq<u8>, values: Seq<Seq<u8>>, i: int)
    requires
        tags.len() == values.len(),
        0 <= i <= tags.len(),
    ensures
        written_fields(tags, values).subrange(0, field_offset(tags, values, i)) == written_fields(
            tags.take(i),
            values.take(i),
        ),
    decreases tags.len(),
{
    if i < tags.len() {
        let t0 = tags.drop_last();
        let v0 = values.drop_last();
        assert(t0.take(i) =~= tags.take(i));
        assert(v0.take(i) =~= values.take(i));
        lemma_field_offset_prefix(t0, v0, i);
        assert(written_fields(tags, values) == written_fields(t0, v0) + field_bytes(
            tags.last(),
            values.last(),
        ));
        lemma_written_len(t0, v0, i);
        assert(written_fields(tags, values).subrange(0, field_offset(tags, values, i))
            =~= written_fields(t0, v0).subrange(0, field_offset(t0, v0, i)));
    } else {
        assert(tags.take(i) =~= tags);
        assert(values.take(i) =~= values);
    }
}

proof fn lemma_written_len(tags: Seq<u8>, values: Seq<Seq<u8>>, i: int)
    requires
        tags.len() == values.len(),
        0 <= i <= tags.len(),
    ensures
        field_offset(tags, values, i) <= written_fields(tags, values).len(),
    decreases tags.len(),
{
    if i < tags.len() {
        let t0 = tags.drop_last();
        let v0 = values.drop_last();
        assert(t0.take(i) =~= tags.take(i));
        assert(v0.take(i) =~= values.take(i));
        lemma_written_len(t0, v0, i);
    } else {
        assert(tags.take(i) =~= tags);
        assert(values.take(i) =~= values);
    }
}

proof fn lemma_written_split(tags: Seq<u8>, values: Seq<Seq<u8>>, i: int)
    requires
        tags.len() == values.len(),
        0 <= i < tags.len(),
    ensures
        written_fields(tags.take(i + 1), values.take(i + 1)) == written_fields(
            tags.take(i),
            values.take(i),
        ) + field_bytes(tags[i], values[i]),
        written_fields(tags, values) == written_fields(tags.take(i + 1), values.take(i + 1))
            + written_fields(tags, values).skip(field_offset(tags, values, i + 1)),
{
    let t1 = tags.take(i + 1);
    let v1 = values.take(i + 1);
    assert(t1.drop_last() =~= tags.take(i));
    assert(v1.drop_last() =~= values.take(i));
    lemma_field_offset_prefix(tags, values, i + 1);
    lemma_written_len(tags, values, i + 1);
    let w = written_fields(tags, values);
    let k = field_offset(tags, values, i + 1);
    assert(w =~= w.subrange(0, k) + w.skip(k));
}

} // verus!
