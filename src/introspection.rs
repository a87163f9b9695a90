use vstd::prelude::*;

use crate::state::Address;

verus! {

/// Why the instruction list could not be read.
#[derive(Clone, Copy, Debug, PartialEq, Eq)]
pub enum IntrospectionError {
    /// A field lies past the end of the data.
    IndexOutOfBounds,
}

/// The little-endian `u16` at offset `at`, if both bytes are there.
pub open spec fn u16_at(d: Seq<u8>, at: int) -> Option<int> {
    if 0 <= at && at + 2 <= d.len() {
        Some(d[at] as int + 256 * d[at + 1] as int)
    } else {
        None
    }
}

/// The 32 bytes at offset `at`, if they are there.
pub open spec fn bytes32_at(d: Seq<u8>, at: int) -> Option<Seq<u8>> {
    if 0 <= at && at + 32 <= d.len() {
        Some(d.subrange(at, at + 32))
    } else {
        None
    }
}

/// Offset of the program id of instruction `i`: the instruction's offset is read
/// from the table after the count, then its accounts (33 bytes each, after a
/// two-byte count) are skipped.
pub open spec fn program_id_offset(d: Seq<u8>, i: int) -> Option<int> {
    match u16_at(d, 2 + 2 * i) {
        None => None,
        Some(start) => match u16_at(d, start) {
            None => None,
            Some(n) => Some(start + 2 + 33 * n),
        },
    }
}

/// Scans instructions `i..count`, having met `seen` marker instructions, for the
/// marker instruction numbered `occurrence` (from 1), and reads the address in its
/// data: the 32 bytes after the program id and a two-byte data length.
pub open spec fn scan_for_marker(
    d: Seq<u8>,
    marker: Seq<u8>,
    occurrence: int,
    count: int,
    i: int,
    seen: int,
) -> Result<Option<Seq<u8>>, IntrospectionError>
    decreases count - i,
{
    if i >= count {
        Ok(None)
    } else {
        match program_id_offset(d, i) {
            None => Err(IntrospectionError::IndexOutOfBounds),
            Some(p) => match bytes32_at(d, p) {
                None => Err(IntrospectionError::IndexOutOfBounds),
                Some(id) => if id == marker && seen + 1 == occurrence {
                    match bytes32_at(d, p + 32 + 2) {
                        None => Err(IntrospectionError::IndexOutOfBounds),
                        Some(a) => Ok(Some(a)),
                    }
                } else {
                    scan_for_marker(
                        d,
                        marker,
                        occurrence,
                        count,
                        i + 1,
                        if id == marker { seen + 1 } else { seen },
                    )
                },
            },
        }
    }
}

/// The address committed by the transaction: carried by its marker instruction
/// numbered `occurrence`; `None` where there is no such instruction.
pub open spec fn committed_address(d: Seq<u8>, marker: Seq<u8>, occurrence: int) -> Result<Option<Seq<u8>>, IntrospectionError> {
    match u16_at(d, 0) {
        None => Err(IntrospectionError::IndexOutOfBounds),
        Some(count) => scan_for_marker(d, marker, occurrence, count, 0, 0),
    }
}

/// Reads the little-endian `u16` at `at`.
pub fn read_u16(data: &[u8], at: usize) -> (r: Option<u16>)
    ensures
        match u16_at(data@, at as int) {
            None => r is None,
            Some(v) => r == Some(v as u16),
        },
{
    if at > data.len() || data.len() - at < 2 {
        return None;
    }
    Some(data[at] as u16 + 256 * (data[at + 1] as u16))
}

/// Reads the 32 bytes at `at`.
pub fn read_address(data: &[u8], at: usize) -> (r: Option<Address>)
    ensures
        match bytes32_at(data@, at as int) {
            None => r is None,
            Some(v) => r is Some && r->Some_0@ == v,
        },
{
    if at > data.len() || data.len() - at < 32 {
        return None;
    }
    let mut out = [0u8; 32];
    let mut j: usize = 0;
    while j < 32
        invariant
            j <= 32,
            at + 32 <= data.len(),
            out@.len() == 32,
            forall|k: int| 0 <= k < j ==> out@[k] == data@[at + k],
        decreases 32 - j,
    {
        out[j] = data[at + j];
        j = j + 1;
    }
    assert(out@ == data@.subrange(at as int, at + 32));
    Some(out)
}

/// Reads, from the serialized instruction list of the transaction, the address
/// carried by the marker instruction (program id `marker`) numbered `occurrence`.
pub fn parse_auth_address(data: &[u8], marker: &Address, occurrence: u64) -> (r: Result<Option<Address>, IntrospectionError>)
    ensures
        match committed_address(data@, marker@, occurrence as int) {
            Err(e) => r == Err::<Option<Address>, IntrospectionError>(e),
            Ok(None) => r == Ok::<Option<Address>, IntrospectionError>(None),
            Ok(Some(a)) => r is Ok && r->Ok_0 is Some && r->Ok_0->Some_0@ == a,
        },
{
    let count = match read_u16(data, 0) {
        None => return Err(IntrospectionError::IndexOutOfBounds),
        Some(c) => c,
    };
    let mut seen: u64 = 0;
    let mut i: usize = 0;
    while i < count as usize
        invariant
            i <= count,
            seen <= i,
            u16_at(data@, 0) == Some(count as int),
            committed_address(data@, marker@, occurrence as int)
                == scan_for_marker(data@, marker@, occurrence as int, count as int, i as int, seen as int),
        decreases count - i,
    {
        let start = match read_u16(data, 2 + 2 * i) {
            None => return Err(IntrospectionError::IndexOutOfBounds),
            Some(s) => s,
        };
        let n = match read_u16(data, start as usize) {
            None => return Err(IntrospectionError::IndexOutOfBounds),
            Some(v) => v,
        };
        let p: usize = start as usize + 2 + 33 * (n as usize);
        let id = match read_address(data, p) {
            None => return Err(IntrospectionError::IndexOutOfBounds),
            Some(a) => a,
        };
        let is_marker = same_address(&id, marker);
        if is_marker && seen + 1 == occurrence {
            return match read_address(data, p + 32 + 2) {
                None => Err(IntrospectionError::IndexOutOfBounds),
                Some(a) => Ok(Some(a)),
            };
        }
        if is_marker {
            seen = seen + 1;
        }
        i = i + 1;
    }
    Ok(None)
}

/// Whether two addresses are equal.
pub fn same_address(a: &Address, b: &Address) -> (r: bool)
    ensures
        r == (a@ == b@),
{
    let mut j: usize = 0;
    while j < 32
        invariant
            j <= 32,
            a@.len() == 32,
            b@.len() == 32,
            forall|k: int| 0 <= k < j ==> a@[k] == b@[k],
        decreases 32 - j,
    {
        if a[j] != b[j] {
            return false;
        }
        j = j + 1;
    }
    assert(a@ == b@);
    true
}

} // verus!
