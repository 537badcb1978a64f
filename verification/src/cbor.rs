//! Structural validation of CBOR-encoded command parameters: a payload is
//! accepted only when it is exactly one well-formed data item.

use vstd::prelude::*;
use crate::message::MAX_PAYLOAD_LEN;

verus! {

/// The argument of a data-item header and the position after the header:
/// small arguments live in the five low bits, larger ones in the following
/// one, two, four or eight big-endian bytes. Reserved and
/// indefinite-length encodings are rejected.
pub open spec fn spec_arg(bytes: Seq<u8>, pos: int) -> Option<(u64, int)>
    recommends
        0 <= pos < bytes.len(),
{
    let addl = bytes[pos] & 0x1F;
    if addl < 24 {
        Some((addl as u64, pos + 1))
    } else if addl == 24 {
        if pos + 2 <= bytes.len() {
            Some((bytes[pos + 1] as u64, pos + 2))
        } else {
            None
        }
    } else if addl == 25 {
        if pos + 3 <= bytes.len() {
            Some(((((bytes[pos + 1] as u64) << 8) | (bytes[pos + 2] as u64)) as u64, pos + 3))
        } else {
            None
        }
    } else if addl == 26 {
        if pos + 5 <= bytes.len() {
            Some(
                (
                    (((bytes[pos + 1] as u64) << 24) | ((bytes[pos + 2] as u64) << 16) | ((bytes[pos + 3] as u64) << 8) | (bytes[pos + 4] as u64)) as u64,
                    pos + 5,
                ),
            )
        } else {
            None
        }
    } else if addl == 27 {
        if pos + 9 <= bytes.len() {
            Some(
                (
                    (((bytes[pos + 1] as u64) << 56) | ((bytes[pos + 2] as u64) << 48) | ((bytes[pos + 3] as u64) << 40) | ((bytes[pos + 4] as u64) << 32) | ((bytes[pos + 5]
                        as u64) << 24) | ((bytes[pos + 6] as u64) << 16) | ((bytes[pos + 7]
                        as u64) << 8) | (bytes[pos + 8] as u64)) as u64,
                    pos + 9,
                ),
            )
        } else {
            None
        }
    } else {
        None
    }
}

/// Position just past the data item that starts at `pos`, or `None` if the
/// bytes from `pos` on do not begin with a well-formed item.
pub open spec fn spec_item_end(bytes: Seq<u8>, pos: int) -> Option<int>
    decreases bytes.len() - pos, 0int,
{
    if pos < 0 || pos >= bytes.len() {
        None
    } else {
        let major = bytes[pos] >> 5;
        match spec_arg(bytes, pos) {
            None => None,
            Some((arg, end)) => {
                if major == 0 || major == 1 || major == 7 {
                    Some(end)
                } else if major == 2 || major == 3 {
                    if end + arg <= bytes.len() {
                        Some(end + arg)
                    } else {
                        None
                    }
                } else if end <= pos {
                    None
                } else if major == 4 {
                    if arg <= bytes.len() {
                        spec_items_end(bytes, end, arg as int)
                    } else {
                        None
                    }
                } else if major == 5 {
                    if arg <= bytes.len() {
                        spec_items_end(bytes, end, 2 * arg as int)
                    } else {
                        None
                    }
                } else {
                    spec_items_end(bytes, end, 1)
                }
            },
        }
    }
}

/// Position just past `n` consecutive data items starting at `pos`, or
/// `None` if they are not all well-formed.
pub open spec fn spec_items_end(bytes: Seq<u8>, pos: int, n: int) -> Option<int>
    decreases bytes.len() - pos, n + 1,
{
    if n == 0 {
        Some(pos)
    } else if n < 0 || n > bytes.len() - pos {
        None
    } else {
        match spec_item_end(bytes, pos) {
            None => None,
            Some(q) => {
                if q <= pos || q > bytes.len() {
                    None
                } else {
                    spec_items_end(bytes, q, n - 1)
                }
            },
        }
    }
}

/// A byte sequence that is exactly one well-formed CBOR data item.
pub open spec fn spec_cbor_valid(bytes: Seq<u8>) -> bool {
    spec_item_end(bytes, 0) == Some(bytes.len() as int)
}

/// A byte sequence that is exactly one well-formed CBOR map, the shape
/// every recognized parameter structure takes on the wire.
pub open spec fn spec_cbor_map(bytes: Seq<u8>) -> bool {
    spec_cbor_valid(bytes) && bytes.len() > 0 && bytes[0] >> 5 == 5
}

/// The model of an optional position.
pub open spec fn opt_pos_view(r: Option<usize>) -> Option<int> {
    match r {
        Some(p) => Some(p as int),
        None => None,
    }
}

/// Reads the header argument of the item at `pos`, returning the argument
/// and the position after the header.
fn read_arg(bytes: &Vec<u8>, pos: usize) -> (r: Option<(u64, usize)>)
    requires
        pos < bytes@.len(),
        bytes@.len() <= MAX_PAYLOAD_LEN,
    ensures
        ({
            match r {
                Some((arg, end)) => spec_arg(bytes@, pos as int) == Some((arg, end as int)),
                None => spec_arg(bytes@, pos as int) is None,
            }
        }),
{
    let addl = bytes[pos] & 0x1F;
    if addl < 24 {
        Some((addl as u64, pos + 1))
    } else if addl == 24 {
        if pos + 2 <= bytes.len() {
            Some((bytes[pos + 1] as u64, pos + 2))
        } else {
            None
        }
    } else if addl == 25 {
        if pos + 3 <= bytes.len() {
            Some((((bytes[pos + 1] as u64) << 8) | (bytes[pos + 2] as u64), pos + 3))
        } else {
            None
        }
    } else if addl == 26 {
        if pos + 5 <= bytes.len() {
            Some(
                (
                    ((bytes[pos + 1] as u64) << 24) | ((bytes[pos + 2] as u64) << 16) | ((bytes[pos
                        + 3] as u64) << 8) | (bytes[pos + 4] as u64),
                    pos + 5,
                ),
            )
        } else {
            None
        }
    } else if addl == 27 {
        if pos + 9 <= bytes.len() {
            Some(
                (
                    ((bytes[pos + 1] as u64) << 56) | ((bytes[pos + 2] as u64) << 48) | ((bytes[pos
                        + 3] as u64) << 40) | ((bytes[pos + 4] as u64) << 32) | ((bytes[pos + 5]
                        as u64) << 24) | ((bytes[pos + 6] as u64) << 16) | ((bytes[pos + 7]
                        as u64) << 8) | (bytes[pos + 8] as u64),
                    pos + 9,
                ),
            )
        } else {
            None
        }
    } else {
        None
    }
}

/// Position just past the data item that starts at `pos`.
fn item_end(bytes: &Vec<u8>, pos: usize) -> (r: Option<usize>)
    requires
        pos <= bytes@.len(),
        bytes@.len() <= MAX_PAYLOAD_LEN,
    ensures
        opt_pos_view(r) == spec_item_end(bytes@, pos as int),
        r matches Some(q) ==> q <= bytes@.len(),
    decreases bytes@.len() - pos, 0int,
{
    if pos >= bytes.len() {
        return None;
    }
    let major = bytes[pos] >> 5;
    match read_arg(bytes, pos) {
        None => None,
        Some((arg, end)) => {
            if major == 0 || major == 1 || major == 7 {
                Some(end)
            } else if major == 2 || major == 3 {
                if arg <= (bytes.len() - end) as u64 {
                    Some(end + arg as usize)
                } else {
                    None
                }
            } else if end <= pos {
                None
            } else if major == 4 {
                if arg <= bytes.len() as u64 {
                    items_end(bytes, end, arg)
                } else {
                    None
                }
            } else if major == 5 {
                if arg <= bytes.len() as u64 {
                    items_end(bytes, end, 2 * arg)
                } else {
                    None
                }
            } else {
                items_end(bytes, end, 1)
            }
        },
    }
}

/// Position just past `n` consecutive data items starting at `pos`.
fn items_end(bytes: &Vec<u8>, pos: usize, n: u64) -> (r: Option<usize>)
    requires
        pos <= bytes@.len(),
        bytes@.len() <= MAX_PAYLOAD_LEN,
    ensures
        opt_pos_view(r) == spec_items_end(bytes@, pos as int, n as int),
        r matches Some(q) ==> q <= bytes@.len(),
    decreases bytes@.len() - pos, n + 1,
{
    if n == 0 {
        Some(pos)
    } else if n > (bytes.len() - pos) as u64 {
        None
    } else {
        match item_end(bytes, pos) {
            None => None,
            Some(q) => {
                if q <= pos || q > bytes.len() {
                    None
                } else {
                    items_end(bytes, q, n - 1)
                }
            },
        }
    }
}

/// Checks that `bytes` is exactly one well-formed CBOR data item.
pub fn cbor_valid(bytes: &Vec<u8>) -> (r: bool)
    requires
        bytes@.len() <= MAX_PAYLOAD_LEN,
    ensures
        r == spec_cbor_valid(bytes@),
{
    match item_end(bytes, 0) {
        Some(end) => end == bytes.len(),
        None => false,
    }
}

/// Checks that `bytes` is exactly one well-formed CBOR map.
pub fn cbor_map(bytes: &Vec<u8>) -> (r: bool)
    requires
        bytes@.len() <= MAX_PAYLOAD_LEN,
    ensures
        r == spec_cbor_map(bytes@),
{
    if bytes.len() == 0 {
        return false;
    }
    let is_map = bytes[0] >> 5 == 5;
    is_map && cbor_valid(bytes)
}

} // verus!
