//! A guard on the offsets that a zip archive records.
//!
//! A header of the central directory records where its entry begins, as a 32-bit number or,
//! where that number is `0xFFFFFFFF`, as a 64-bit number in the extra field of the header. The
//! reader of the archive adds to it the number of bytes that stand before the archive in the
//! input, which is no more than the length of the input. For that sum to fit in 64 bits it is
//! enough that the input is shorter than 2^63 bytes and that no 64-bit number in the extra
//! field of such a header, wherever in the field it stands, exceeds the largest 64-bit number
//! less the length of the input. Offsets of archives that exist are far below that.

use vstd::prelude::*;

verus! {

/// The length of a header of the central directory up to the name of its entry.
pub const HEADER_LENGTH: usize = 46;

/// The number that the two bytes at `i` spell, low byte first.
pub open spec fn spec_u16_at(s: Seq<u8>, i: int) -> int {
    s[i] + 0x100 * s[i + 1]
}

/// The number that the eight bytes at `i` spell, low byte first.
pub open spec fn spec_u64_at(s: Seq<u8>, i: int) -> int {
    s[i] + 0x100 * s[i + 1] + 0x1_0000 * s[i + 2] + 0x100_0000 * s[i + 3] + 0x1_0000_0000 * s[i
        + 4] + 0x100_0000_0000 * s[i + 5] + 0x1_0000_0000_0000 * s[i + 6]
        + 0x100_0000_0000_0000 * s[i + 7]
}

/// At `p` stands a header of the central directory, whole up to the name of its entry, whose
/// 32-bit offset says that the offset is to be found in the extra field.
pub open spec fn has_wide_offset(s: Seq<u8>, p: int) -> bool {
    &&& 0 <= p
    &&& p + HEADER_LENGTH <= s.len()
    &&& s[p] == 0x50
    &&& s[p + 1] == 0x4b
    &&& s[p + 2] == 0x01
    &&& s[p + 3] == 0x02
    &&& s[p + 42] == 0xff
    &&& s[p + 43] == 0xff
    &&& s[p + 44] == 0xff
    &&& s[p + 45] == 0xff
}

/// Where the extra field of the header at `p` begins: after the name of the entry.
pub open spec fn extra_start(s: Seq<u8>, p: int) -> int {
    p + HEADER_LENGTH + spec_u16_at(s, p + 28)
}

/// Where the extra field of the header at `p` ends.
pub open spec fn extra_end(s: Seq<u8>, p: int) -> int {
    extra_start(s, p) + spec_u16_at(s, p + 30)
}

/// The eight bytes at `q` lie in the extra field of the header at `p`, and in `s`.
pub open spec fn in_extra_field(s: Seq<u8>, p: int, q: int) -> bool {
    extra_start(s, p) <= q && q + 8 <= extra_end(s, p) && q + 8 <= s.len()
}

/// Every offset that the archive in `s` may record, with the whole length of `s` added to it,
/// fits in 64 bits.
pub open spec fn spec_offsets_fit(s: Seq<u8>) -> bool {
    &&& s.len() <= 0x7fff_ffff_ffff_ffff
    &&& forall|p: int, q: int|
        #![trigger has_wide_offset(s, p), spec_u64_at(s, q)]
        has_wide_offset(s, p) && in_extra_field(s, p, q) ==> spec_u64_at(s, q) + s.len()
            <= u64::MAX
}

/// The number that the two bytes at `i` spell, low byte first.
fn u16_at(s: &[u8], i: usize) -> (v: u64)
    requires
        i + 2 <= s@.len(),
    ensures
        v == spec_u16_at(s@, i as int),
        v <= 0xffff,
{
    (s[i] as u64) + 0x100 * (s[i + 1] as u64)
}

/// The number that the eight bytes at `i` spell, low byte first.
fn u64_at(s: &[u8], i: usize) -> (v: u64)
    requires
        i + 8 <= s@.len(),
    ensures
        v == spec_u64_at(s@, i as int),
{
    let low: u64 = (s[i] as u64) + 0x100 * (s[i + 1] as u64) + 0x1_0000 * (s[i + 2] as u64)
        + 0x100_0000 * (s[i + 3] as u64);
    let high: u64 = (s[i + 4] as u64) + 0x100 * (s[i + 5] as u64) + 0x1_0000 * (s[i + 6] as u64)
        + 0x100_0000 * (s[i + 7] as u64);
    low + 0x1_0000_0000 * high
}

/// Whether a header with a wide offset stands at `p`.
fn wide_offset_at(s: &[u8], p: usize) -> (wide: bool)
    requires
        p + HEADER_LENGTH <= s@.len(),
    ensures
        wide == has_wide_offset(s@, p as int),
{
    s[p] == 0x50 && s[p + 1] == 0x4b && s[p + 2] == 0x01 && s[p + 3] == 0x02 && s[p + 42] == 0xff
        && s[p + 43] == 0xff && s[p + 44] == 0xff && s[p + 45] == 0xff
}

/// Whether every 64-bit number in the extra field of the header at `p` leaves room for the
/// length of `s`.
fn extra_field_fits(s: &[u8], p: usize) -> (fit: bool)
    requires
        s@.len() <= 0x7fff_ffff_ffff_ffff,
        p + HEADER_LENGTH <= s@.len(),
    ensures
        fit == (forall|q: int|
            in_extra_field(s@, p as int, q) ==> #[trigger] spec_u64_at(s@, q) + s@.len()
                <= u64::MAX),
{
    let len: usize = s.len();
    let n: u64 = len as u64;
    let start: u64 = p as u64 + HEADER_LENGTH as u64 + u16_at(s, p + 28);
    let end: u64 = start + u16_at(s, p + 30);
    let stop: u64 = if end < n {
        end
    } else {
        n
    };
    let mut q: u64 = start;
    while q + 8 <= stop
        invariant
            n == len,
            len == s@.len(),
            n <= 0x7fff_ffff_ffff_ffff,
            start == extra_start(s@, p as int),
            end == extra_end(s@, p as int),
            stop <= n,
            stop <= end,
            start <= q,
            start <= n + 0xffff,
            q == start || q + 7 <= stop,
            forall|k: int|
                start <= k < q && k + 8 <= stop ==> #[trigger] spec_u64_at(s@, k) + n <= u64::MAX,
        decreases stop - q,
    {
        let word = u64_at(s, q as usize);
        if word > u64::MAX - n {
            assert(in_extra_field(s@, p as int, q as int));
            return false;
        }
        q += 1;
    }
    true
}

/// Whether every offset that the archive in `input` may record, with the whole length of
/// `input` added to it, fits in 64 bits.
pub fn offsets_fit(input: &[u8]) -> (fit: bool)
    ensures
        fit == spec_offsets_fit(input@),
{
    let n = input.len();
    if n as u64 > 0x7fff_ffff_ffff_ffff {
        return false;
    }
    let mut p: usize = 0;
    while p < n && n - p >= HEADER_LENGTH
        invariant
            n == input@.len(),
            n <= 0x7fff_ffff_ffff_ffff,
            p <= n,
            forall|k: int, q: int|
                #![trigger has_wide_offset(input@, k), spec_u64_at(input@, q)]
                k < p && has_wide_offset(input@, k) && in_extra_field(input@, k, q)
                    ==> spec_u64_at(input@, q) + n <= u64::MAX,
        decreases n - p,
    {
        if wide_offset_at(input, p) && !extra_field_fits(input, p) {
            return false;
        }
        p += 1;
    }
    true
}

} // verus!
