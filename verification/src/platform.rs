//! The host's ancillary-data layout: header size, alignment unit, the socket
//! option level and type that mark a descriptor-rights record, and the native
//! byte encoding of the integers that appear in a record header.
//!
//! All of it is queried from the platform at run time through a small set of
//! trusted items; every other function of the crate is verified against the
//! values so obtained.

use vstd::prelude::*;

verus! {

/// The native-endian byte encoding of a `usize`, as `usize::to_ne_bytes`
/// produces it.  The exact bytes depend on the host's byte order, so they are
/// left uninterpreted; what the crate relies on is stated by `platform_ok`.
pub uninterp spec fn ne_bytes_of_usize(x: usize) -> Seq<u8>;

/// The value `usize::from_ne_bytes` reads back from a native-endian encoding.
pub uninterp spec fn ne_usize_of(b: Seq<u8>) -> usize;

/// The native-endian byte encoding of an `i32`, as `i32::to_ne_bytes`
/// produces it.
pub uninterp spec fn ne_bytes_of_i32(x: i32) -> Seq<u8>;

/// The value `i32::from_ne_bytes` reads back from a native-endian encoding.
pub uninterp spec fn ne_i32_of(b: Seq<u8>) -> i32;

/// The host constants that fix the layout of one ancillary-data record:
/// the width of the header's length field, the full (already padded) header
/// size, the alignment unit that separates successive records, and the
/// level/type pair that identifies a descriptor-rights record.
pub struct CmsgPlatform {
    /// Width in bytes of the header's length field (a C `size_t`).
    pub len_width: usize,
    /// Size in bytes of the whole record header, padding included.
    pub hdr_size: usize,
    /// Alignment unit: each record starts at a multiple of this offset.
    pub align: usize,
    /// The socket-option level marking ancillary records interpreted by the
    /// socket layer itself.
    pub sol_socket: i32,
    /// The record type carrying descriptor rights.
    pub scm_rights: i32,
}

/// The little that the record walk itself needs of the layout constants:
/// a positive alignment unit and a header wide enough for its three fields.
pub open spec fn layout_wf(p: CmsgPlatform) -> bool {
    &&& 1 <= p.align
    &&& p.len_width + 8 <= p.hdr_size
}

/// The `usize` byte codec round-trips and has the width the platform reports.
pub open spec fn usize_codec_ok(p: CmsgPlatform) -> bool {
    forall|x: usize|
        (#[trigger] ne_bytes_of_usize(x)).len() == p.len_width
            && ne_usize_of(ne_bytes_of_usize(x)) == x
}

/// The `i32` byte codec round-trips and encodes to exactly four bytes.
pub open spec fn fd_codec_ok() -> bool {
    forall|x: i32|
        (#[trigger] ne_bytes_of_i32(x)).len() == 4
            && ne_i32_of(ne_bytes_of_i32(x)) == x
}

/// Everything the verified layer assumes of the host: a well-formed record
/// layout, a header size that is itself aligned (so the payload of a record
/// starts directly after the header), and working native-endian codecs.
pub open spec fn platform_ok(p: CmsgPlatform) -> bool {
    &&& layout_wf(p)
    &&& p.hdr_size % p.align == 0
    &&& usize_codec_ok(p)
    &&& fd_codec_ok()
}

/// Relies on libc's `cmsghdr` being the POSIX header `{ cmsg_len: size_t,
/// cmsg_level: c_int, cmsg_type: c_int }` laid out in that order, on its
/// record alignment unit being `size_of::<usize>()` (libc's `CMSG_ALIGN`
/// rounds lengths up to that multiple, so the struct's size is a multiple of
/// it and a record's data starts `size_of::<cmsghdr>()` bytes in, exactly
/// where libc's `CMSG_DATA` points), on `libc::{SOL_SOCKET, SCM_RIGHTS}`, and
/// on `usize/i32::{to_ne_bytes, from_ne_bytes}` being width-exact inverses.
#[verifier::external_body]
pub fn host_platform() -> (r: CmsgPlatform)
    ensures
        platform_ok(r),
{
    CmsgPlatform {
        len_width: core::mem::size_of::<libc::size_t>(),
        hdr_size: core::mem::size_of::<libc::cmsghdr>(),
        align: core::mem::size_of::<usize>(),
        sol_socket: libc::SOL_SOCKET,
        scm_rights: libc::SCM_RIGHTS,
    }
}

/// Relies on `usize::to_ne_bytes`: the value's native-endian bytes.
#[verifier::external_body]
pub fn usize_to_ne_bytes(x: usize) -> (r: Vec<u8>)
    ensures
        r@ == ne_bytes_of_usize(x),
{
    x.to_ne_bytes().to_vec()
}

/// Relies on `usize::from_ne_bytes`: reads a native-endian value back.
/// A slice of any width other than `usize`'s is answered with zero.
#[verifier::external_body]
pub fn usize_from_ne_bytes(b: &[u8]) -> (r: usize)
    ensures
        r == ne_usize_of(b@),
{
    b.try_into().map(usize::from_ne_bytes).unwrap_or(0)
}

/// Relies on `i32::to_ne_bytes`: the value's native-endian bytes.
#[verifier::external_body]
pub fn i32_to_ne_bytes(x: i32) -> (r: Vec<u8>)
    ensures
        r@ == ne_bytes_of_i32(x),
{
    x.to_ne_bytes().to_vec()
}

/// Relies on `i32::from_ne_bytes`: reads a native-endian value back.
/// A slice of any width other than four is answered with zero.
#[verifier::external_body]
pub fn i32_from_ne_bytes(b: &[u8]) -> (r: i32)
    ensures
        r == ne_i32_of(b@),
{
    b.try_into().map(i32::from_ne_bytes).unwrap_or(0)
}

} // verus!
