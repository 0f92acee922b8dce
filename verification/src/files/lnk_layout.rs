//! The layout of a shell link's bytes, as far as it decides whether parselnk
//! can read them without a panic.
//!
//! parselnk reads a fixed header of 76 bytes, then, as the header's link
//! flags say, a target ID list, a link info structure, up to five counted
//! strings and a chain of extra-data blocks. Two of its steps panic on
//! malformed input: a counted string in UTF-16 whose count is 0x8000 or more
//! (the byte count `2 * count` overflows a `u16`: a panic where overflow is
//! checked, a misread string where it wraps), and an extra-data block of
//! the kinds 0xA0000008, 0xA0000009 or 0xA000000C that declares a size below
//! 8 (the payload size `size - 8` underflows). The spec functions here follow
//! the reader's position through the bytes to find those two cases.

use vstd::prelude::*;

verus! {

/// The number stored little-endian in the two bytes of `b` at `p`.
pub open spec fn le_u16(b: Seq<u8>, p: int) -> int {
    b[p] as int + 256 * (b[p + 1] as int)
}

/// The number stored little-endian in the four bytes of `b` at `p`.
pub open spec fn le_u32(b: Seq<u8>, p: int) -> int {
    b[p] as int + 256 * (b[p + 1] as int) + 65536 * (b[p + 2] as int) + 16777216 * (b[p + 3] as int)
}

/// Whether `b` holds `n` bytes from position `p` on.
pub open spec fn holds(b: Seq<u8>, p: int, n: int) -> bool {
    0 <= p && p + n <= b.len()
}

/// Whether the link flags (whose low byte stands at offset 20 of the
/// header) have the bit `bit` set; `bit` is one of 1, 2, 4, ..., 128.
pub open spec fn link_flag(b: Seq<u8>, bit: int) -> bool {
    (b[20] as int / bit) % 2 == 1
}

/// The flag bit that announces the `i`-th counted string: the name, the
/// relative path, the working directory, the arguments, the icon location.
pub open spec fn string_flag(i: int) -> int {
    if i == 0 {
        4
    } else if i == 1 {
        8
    } else if i == 2 {
        16
    } else if i == 3 {
        32
    } else {
        64
    }
}

/// The flag bit that says the counted strings are in UTF-16.
pub open spec fn unicode_flag() -> int {
    128
}

/// Where the counted strings start: after the header, the target ID list
/// (flag 1: a 16-bit size, then that many bytes) and the link info (flag 2:
/// a structure whose first 32-bit field is its size, and whose first 36
/// bytes are read). `None` where the bytes end before one of these reads,
/// which ends the reading with an error.
pub open spec fn string_data_start(b: Seq<u8>) -> Option<int> {
    if !holds(b, 0, 76) {
        None
    } else {
        let after_ids = if link_flag(b, 1) {
            if holds(b, 76, 2) {
                Some(78 + le_u16(b, 76))
            } else {
                None
            }
        } else {
            Some(76)
        };
        match after_ids {
            None => None,
            Some(p) => if link_flag(b, 2) {
                if holds(b, p, 36) {
                    Some(p + le_u32(b, p))
                } else {
                    None
                }
            } else {
                Some(p)
            },
        }
    }
}

/// How reading the counted strings ends.
pub enum StringsEnd {
    /// A count makes the reader panic.
    Panics,
    /// The reading ends, with an error or with nothing more to read.
    Stops,
    /// The strings end at this position, where the extra data starts.
    At(int),
}

/// How reading the counted strings ends, from position `p` on and with the
/// `i`-th string next. A string present by its flag is a 16-bit count and
/// then the count's bytes (twice as many in UTF-16). Where the name (the
/// first string) runs past the end, the reader drops it and goes on; the
/// position it goes on from is then taken to be just after the count,
/// the furthest back that a failed read may leave it (from the end of the
/// bytes nothing more can be read). Any other string that cannot be read
/// ends the reading.
pub open spec fn strings_end(b: Seq<u8>, p: int, i: nat) -> StringsEnd
    decreases 5 - i,
{
    if i >= 5 {
        StringsEnd::At(p)
    } else if !link_flag(b, string_flag(i as int)) {
        strings_end(b, p, i + 1)
    } else if !holds(b, p, 2) {
        StringsEnd::Stops
    } else {
        let count = le_u16(b, p);
        let unicode = link_flag(b, unicode_flag());
        if unicode && count >= 0x8000 {
            StringsEnd::Panics
        } else {
            let n = if unicode {
                2 * count
            } else {
                count
            };
            if holds(b, p + 2, n) {
                strings_end(b, p + 2 + n, i + 1)
            } else if i == 0 {
                strings_end(b, p + 2, i + 1)
            } else {
                StringsEnd::Stops
            }
        }
    }
}

/// The extra-data kinds whose payload size parselnk takes from the block's
/// declared size.
pub open spec fn sized_block(signature: int) -> bool {
    signature == 0xA000_0008 || signature == 0xA000_0009 || signature == 0xA000_000C
}

/// The extra-data kinds that parselnk reads only with their one fixed size.
pub open spec fn fixed_block(size: int, signature: int) -> bool {
    ||| size == 0x314 && (signature == 0xA000_0001 || signature == 0xA000_0006 || signature == 0xA000_0007)
    ||| size == 0xCC && signature == 0xA000_0002
    ||| size == 0x60 && signature == 0xA000_0003
    ||| size == 0x0C && signature == 0xA000_0004
    ||| size == 0x10 && signature == 0xA000_0005
    ||| size == 0x1C && signature == 0xA000_000B
}

/// Whether the chain of extra-data blocks from position `p` on can be read
/// without a panic. Each block starts with its 32-bit size and 32-bit
/// signature; a known block is read whole and the next one follows it. The
/// chain ends where the bytes end or a block is unknown; it panics at a
/// sized block that declares a size below 8.
pub open spec fn blocks_read_safely(b: Seq<u8>, p: int) -> bool
    decreases b.len() - p,
{
    if !holds(b, p, 8) {
        true
    } else {
        let size = le_u32(b, p);
        let signature = le_u32(b, p + 4);
        if sized_block(signature) && size < 8 {
            false
        } else if (sized_block(signature) || fixed_block(size, signature)) && holds(b, p, size) {
            blocks_read_safely(b, p + size)
        } else {
            true
        }
    }
}

/// Whether parselnk reads the bytes `b` of a link without a panic: no
/// counted string it reaches is a UTF-16 string with a count of 0x8000 or
/// more, and no sized extra-data block it reaches declares a size below 8.
pub open spec fn lnk_layout_ok(b: Seq<u8>) -> bool {
    match string_data_start(b) {
        None => true,
        Some(p) => match strings_end(b, p, 0) {
            StringsEnd::Panics => false,
            StringsEnd::Stops => true,
            StringsEnd::At(q) => blocks_read_safely(b, q),
        },
    }
}

/// From a position past the end of the bytes, no string can be read, and
/// the strings end there or stop.
proof fn lemma_strings_past_end(b: Seq<u8>, p: int, i: nat)
    requires
        p > b.len(),
    ensures
        strings_end(b, p, i) == StringsEnd::Stops || strings_end(b, p, i) == StringsEnd::At(p),
    decreases 5 - i,
{
    if i < 5 && !link_flag(b, string_flag(i as int)) {
        lemma_strings_past_end(b, p, i + 1);
    }
}

/// The bytes at `p` and `p + 1`, read as a little-endian number.
fn read_u16(b: &[u8], p: usize) -> (r: usize)
    requires
        p + 2 <= b@.len(),
    ensures
        r == le_u16(b@, p as int),
{
    b[p] as usize + 256 * (b[p + 1] as usize)
}

/// The four bytes from `p` on, read as a little-endian number.
fn read_u32(b: &[u8], p: usize) -> (r: u64)
    requires
        p + 4 <= b@.len(),
    ensures
        r == le_u32(b@, p as int),
{
    b[p] as u64 + 256 * (b[p + 1] as u64) + 65536 * (b[p + 2] as u64) + 16777216 * (b[p + 3] as u64)
}

/// The flag bit of the `i`-th counted string.
fn string_flag_bit(i: usize) -> (r: u8)
    requires
        i < 5,
    ensures
        r == string_flag(i as int),
{
    if i == 0 {
        4
    } else if i == 1 {
        8
    } else if i == 2 {
        16
    } else if i == 3 {
        32
    } else {
        64
    }
}

/// Where the counted strings start, when that is within the bytes; `None`
/// where the reading ends before them or they would start past the end.
fn find_string_data(b: &[u8]) -> (r: Option<usize>)
    ensures
        match r {
            Some(p) => string_data_start(b@) == Some(p as int) && p <= b@.len(),
            None => string_data_start(b@) is None || string_data_start(b@)->0 > b@.len(),
        },
{
    let len = b.len();
    if len < 76 {
        return None;
    }
    let flags = b[20];
    let mut p: usize = 76;
    if (flags / 1) % 2 == 1 {
        if len < 78 {
            return None;
        }
        let size = read_u16(b, 76);
        if size > len - 78 {
            return None;
        }
        p = 78 + size;
    }
    if (flags / 2) % 2 == 1 {
        if len - p < 36 {
            return None;
        }
        let size = read_u32(b, p);
        if size > (len - p) as u64 {
            return None;
        }
        p = p + size as usize;
    }
    Some(p)
}

/// Whether the extra-data blocks from `start` on can be read without a
/// panic.
fn check_blocks(b: &[u8], start: usize) -> (r: bool)
    requires
        start <= b@.len(),
    ensures
        r == blocks_read_safely(b@, start as int),
{
    let len = b.len();
    let mut p = start;
    loop
        invariant
            len == b@.len(),
            p <= len,
            blocks_read_safely(b@, start as int) == blocks_read_safely(b@, p as int),
        decreases len - p,
    {
        if len - p < 8 {
            return true;
        }
        let size = read_u32(b, p);
        let signature = read_u32(b, p + 4);
        let sized = signature == 0xA000_0008 || signature == 0xA000_0009 || signature == 0xA000_000C;
        let fixed = (size == 0x314 && (signature == 0xA000_0001 || signature == 0xA000_0006
            || signature == 0xA000_0007)) || (size == 0xCC && signature == 0xA000_0002) || (size
            == 0x60 && signature == 0xA000_0003) || (size == 0x0C && signature == 0xA000_0004) || (
        size == 0x10 && signature == 0xA000_0005) || (size == 0x1C && signature == 0xA000_000B);
        if sized && size < 8 {
            return false;
        }
        if (sized || fixed) && size <= (len - p) as u64 {
            p = p + size as usize;
        } else {
            return true;
        }
    }
}

/// Whether parselnk reads the bytes `contents` of a link without a panic.
pub fn link_layout_ok(contents: &[u8]) -> (r: bool)
    ensures
        r == lnk_layout_ok(contents@),
{
    let b = contents;
    let len = b.len();
    let start = match find_string_data(b) {
        Some(p) => p,
        None => {
            proof {
                if let Some(p) = string_data_start(b@) {
                    lemma_strings_past_end(b@, p, 0);
                }
            }
            return true;
        },
    };
    let flags = b[20];
    let unicode = (flags / 128) % 2 == 1;
    let mut p = start;
    let mut i: usize = 0;
    while i < 5
        invariant
            b@ == contents@,
            len == b@.len(),
            len >= 76,
            p <= len,
            i <= 5,
            flags == b@[20],
            string_data_start(b@) == Some(start as int),
            unicode == link_flag(b@, unicode_flag()),
            strings_end(b@, start as int, 0) == strings_end(b@, p as int, i as nat),
        decreases 5 - i,
    {
        let bit = string_flag_bit(i);
        if (flags / bit) % 2 == 1 {
            assert(link_flag(b@, string_flag(i as int)));
            if len - p < 2 {
                assert(strings_end(b@, p as int, i as nat) == StringsEnd::Stops);
                return true;
            }
            let count = read_u16(b, p);
            if unicode && count >= 0x8000 {
                return false;
            }
            let n = if unicode {
                2 * count
            } else {
                count
            };
            if n <= len - p - 2 {
                p = p + 2 + n;
            } else if i == 0 {
                p = p + 2;
            } else {
                assert(strings_end(b@, p as int, i as nat) == StringsEnd::Stops);
                return true;
            }
        }
        i = i + 1;
    }
    check_blocks(b, p)
}

} // verus!
