use vstd::prelude::*;

use crate::types::MidiError;

verus! {

/// Big-endian 16-bit value of the two bytes at `pos`.
pub open spec fn be16(bytes: Seq<u8>, pos: int) -> int
    recommends
        0 <= pos,
        pos + 2 <= bytes.len(),
{
    bytes[pos] * 0x100 + bytes[pos + 1]
}

/// Big-endian 32-bit value of the four bytes at `pos`.
pub open spec fn be32(bytes: Seq<u8>, pos: int) -> int
    recommends
        0 <= pos,
        pos + 4 <= bytes.len(),
{
    bytes[pos] * 0x1000000 + bytes[pos + 1] * 0x10000 + bytes[pos + 2] * 0x100 + bytes[pos + 3]
}

/// Position just past the variable-length quantity that starts at `pos`:
/// one past the first byte whose high bit is clear.  `None` when the
/// stream ends before such a byte.
pub open spec fn vlq_end(bytes: Seq<u8>, pos: int) -> Option<int>
    decreases bytes.len() - pos,
{
    if pos < 0 || pos >= bytes.len() {
        None
    } else if bytes[pos] < 0x80 {
        Some(pos + 1)
    } else {
        vlq_end(bytes, pos + 1)
    }
}

/// Value of the quantity encoded in `bytes[pos..end]`, folded onto `acc`:
/// each byte contributes its low seven bits, most significant first.
/// The accumulation wraps at the machine word, the documented behaviour
/// of a decoder that accepts any number of continuation bytes.
pub open spec fn vlq_value(bytes: Seq<u8>, pos: int, end: int, acc: int) -> int
    decreases end - pos,
{
    if pos >= end {
        acc
    } else {
        vlq_value(bytes, pos + 1, end, (acc * 0x80 + bytes[pos] % 0x80) % (usize::MAX as int + 1))
    }
}

/// A variable-length quantity ends after its start and within the
/// stream.
pub proof fn lemma_vlq_end_bounds(bytes: Seq<u8>, pos: int)
    requires
        vlq_end(bytes, pos) is Some,
    ensures
        pos < vlq_end(bytes, pos)->Some_0 <= bytes.len(),
    decreases bytes.len() - pos,
{
    if !(pos < 0 || pos >= bytes.len()) && bytes[pos] >= 0x80 {
        lemma_vlq_end_bounds(bytes, pos + 1);
    }
}

/// The folded value stays within the machine word whenever the
/// accumulator it starts from does.
pub proof fn lemma_vlq_value_bounds(bytes: Seq<u8>, pos: int, end: int, acc: int)
    requires
        0 <= acc <= usize::MAX,
    ensures
        0 <= vlq_value(bytes, pos, end, acc) <= usize::MAX,
    decreases end - pos,
{
    if pos < end {
        lemma_vlq_value_bounds(bytes, pos + 1, end, (acc * 0x80 + bytes[pos] % 0x80) % (
        usize::MAX as int + 1));
    }
}

/// Reads the two-byte big-endian field at `pos`.
pub fn read_u16_be(bytes: &Vec<u8>, pos: usize) -> (r: Result<(u16, usize), MidiError>)
    ensures
        pos + 2 <= bytes@.len() ==> r == Ok::<_, MidiError>(
            (be16(bytes@, pos as int) as u16, (pos + 2) as usize),
        ),
        pos + 2 > bytes@.len() ==> r == Err::<(u16, usize), _>(MidiError::TruncatedInputError),
{
    if bytes.len() < 2 || pos > bytes.len() - 2 {
        return Err(MidiError::TruncatedInputError);
    }
    let hi = bytes[pos];
    let lo = bytes[pos + 1];
    Ok(((hi as u16) * 0x100 + (lo as u16), pos + 2))
}

/// Reads the four-byte big-endian field at `pos`.
pub fn read_u32_be(bytes: &Vec<u8>, pos: usize) -> (r: Result<(u32, usize), MidiError>)
    ensures
        pos + 4 <= bytes@.len() ==> r == Ok::<_, MidiError>(
            (be32(bytes@, pos as int) as u32, (pos + 4) as usize),
        ),
        pos + 4 > bytes@.len() ==> r == Err::<(u32, usize), _>(MidiError::TruncatedInputError),
{
    if bytes.len() < 4 || pos > bytes.len() - 4 {
        return Err(MidiError::TruncatedInputError);
    }
    let b0 = bytes[pos];
    let b1 = bytes[pos + 1];
    let b2 = bytes[pos + 2];
    let b3 = bytes[pos + 3];
    Ok(
        ((b0 as u32) * 0x1000000 + (b1 as u32) * 0x10000 + (b2 as u32) * 0x100 + (b3 as u32),
        pos + 4),
    )
}

/// Decodes the variable-length quantity that starts at `pos`: base-128,
/// most-significant byte first, each byte's high bit flagging a
/// continuation.  Returns the value and the position just past it.
pub fn read_variable_number(bytes: &Vec<u8>, pos: usize) -> (r: Result<(usize, usize), MidiError>)
    ensures
        vlq_end(bytes@, pos as int) matches Some(e) ==> {
            &&& r matches Ok(v)
            &&& v.0 as int == vlq_value(bytes@, pos as int, e, 0)
            &&& v.1 as int == e
        },
        vlq_end(bytes@, pos as int) is None ==> r == Err::<(usize, usize), _>(
            MidiError::TruncatedInputError,
        ),
{
    if pos >= bytes.len() {
        return Err(MidiError::TruncatedInputError);
    }
    let mut p: usize = pos;
    let mut value: usize = 0;
    loop
        invariant
            pos <= p <= bytes@.len(),
            vlq_end(bytes@, p as int) == vlq_end(bytes@, pos as int),
            vlq_end(bytes@, pos as int) matches Some(e) ==> vlq_value(bytes@, pos as int, e, 0)
                == vlq_value(bytes@, p as int, e, value as int),
        decreases bytes@.len() - p,
    {
        if p >= bytes.len() {
            return Err(MidiError::TruncatedInputError);
        }
        let octet = bytes[p];
        let ghost old_p = p as int;
        let ghost old_value = value as int;
        proof {
            if vlq_end(bytes@, pos as int) is Some {
                lemma_vlq_end_bounds(bytes@, p as int);
            }
        }
        p = p + 1;
        let wide: u128 = (value as u128) * 0x80 + (octet % 0x80) as u128;
        value = (wide % ((usize::MAX as u128) + 1)) as usize;
        proof {
            assert(value as int == (old_value * 0x80 + octet % 0x80) % (usize::MAX as int + 1));
            if vlq_end(bytes@, pos as int) is Some {
                let e: int = vlq_end(bytes@, pos as int)->Some_0;
                assert(old_p < e);
                assert(vlq_value(bytes@, old_p, e, old_value) == vlq_value(
                    bytes@,
                    old_p + 1,
                    e,
                    value as int,
                ));
            }
        }
        if octet < 0x80 {
            proof {
                if vlq_end(bytes@, pos as int) is Some {
                    let e: int = vlq_end(bytes@, pos as int)->Some_0;
                    assert(vlq_end(bytes@, old_p) == Some(old_p + 1));
                    assert(e == p as int);
                    assert(vlq_value(bytes@, e, e, value as int) == value as int);
                }
            }
            return Ok((value, p));
        }
    }
}

} // verus!
