//! Sizing arithmetic for the ancillary control buffer: how many bytes one
//! descriptor-rights record occupies, and where the record after it would
//! begin.  Mirrors the platform's `CMSG_LEN` / `CMSG_SPACE` rules, computed
//! from the queried constants rather than hard-coded.

use vstd::prelude::*;

use crate::platform::CmsgPlatform;
use crate::platform::platform_ok;

verus! {

/// `n` rounded up to the next multiple of `a`.
pub open spec fn spec_align_up(n: int, a: int) -> int {
    n + (a - n % a) % a
}

/// The stated length of a rights record holding `count` descriptors:
/// the header followed by four bytes per descriptor.
pub open spec fn spec_cmsg_len(p: CmsgPlatform, count: int) -> int {
    p.hdr_size + 4 * count
}

/// The buffer space such a record occupies: its length, with the payload
/// padded out to the platform's record alignment.
pub open spec fn spec_cmsg_space(p: CmsgPlatform, count: int) -> int {
    p.hdr_size + spec_align_up(4 * count, p.align as int)
}

/// The machine limit under which the buffer for `count` descriptors can be
/// sized at all: header, payload and alignment padding together fit a `usize`.
pub open spec fn fits_control(p: CmsgPlatform, count: int) -> bool {
    &&& 0 <= count
    &&& p.hdr_size + 4 * count + p.align <= usize::MAX
}

/// Rounds `n` up to the next multiple of `a`.
pub fn align_up(n: usize, a: usize) -> (r: usize)
    requires
        1 <= a,
        n + a <= usize::MAX,
    ensures
        r == spec_align_up(n as int, a as int),
        n <= r < n + a,
{
    let pad = (a - n % a) % a;
    n + pad
}

/// The value written into a rights record's length field for `count`
/// descriptors.
pub fn cmsg_len_for(p: &CmsgPlatform, count: usize) -> (r: usize)
    requires
        platform_ok(*p),
        fits_control(*p, count as int),
    ensures
        r == spec_cmsg_len(*p, count as int),
{
    p.hdr_size + 4 * count
}

/// The control-buffer size needed to carry `count` descriptors: exactly the
/// space of one rights record for them, never more.
pub fn cmsg_space_for(p: &CmsgPlatform, count: usize) -> (r: usize)
    requires
        platform_ok(*p),
        fits_control(*p, count as int),
    ensures
        r == spec_cmsg_space(*p, count as int),
{
    p.hdr_size + align_up(4 * count, p.align)
}

} // verus!
