//! The descriptor-rights record itself: encoding one record into a control
//! buffer for sending, and walking a received control buffer's sequence of
//! variable-length records to pull the transferred descriptors back out.
//!
//! A record is laid out as the platform defines it: a length field covering
//! header plus payload, a level and a type, the header padded to `hdr_size`,
//! then the payload, and alignment padding before any following record.

use vstd::prelude::*;

use crate::RawFd;
use crate::layout::fits_control;
use crate::layout::spec_align_up;
use crate::layout::spec_cmsg_len;
use crate::layout::spec_cmsg_space;
use crate::layout::cmsg_len_for;
use crate::layout::cmsg_space_for;
use crate::platform::CmsgPlatform;
use crate::platform::layout_wf;
use crate::platform::platform_ok;
use crate::platform::ne_bytes_of_i32;
use crate::platform::ne_bytes_of_usize;
use crate::platform::ne_i32_of;
use crate::platform::ne_usize_of;
use crate::platform::i32_from_ne_bytes;
use crate::platform::i32_to_ne_bytes;
use crate::platform::usize_from_ne_bytes;
use crate::platform::usize_to_ne_bytes;

verus! {

/// `n` zero bytes.
pub open spec fn zero_bytes(n: nat) -> Seq<u8> {
    Seq::new(n, |i: int| 0u8)
}

/// The payload of a rights record: each descriptor's native encoding, in the
/// order the caller gave them.
pub open spec fn fd_payload_bytes(fds: Seq<RawFd>) -> Seq<u8>
    decreases fds.len(),
{
    if fds.len() == 0 {
        Seq::empty()
    } else {
        fd_payload_bytes(fds.drop_last()) + ne_bytes_of_i32(fds.last())
    }
}

/// The whole control buffer that sends `fds`: one rights record — length
/// field, level, type, header padding, payload — padded out to the record
/// alignment.
pub open spec fn spec_rights_buffer(p: CmsgPlatform, fds: Seq<RawFd>) -> Seq<u8> {
    ne_bytes_of_usize(spec_cmsg_len(p, fds.len() as int) as usize)
        + ne_bytes_of_i32(p.sol_socket)
        + ne_bytes_of_i32(p.scm_rights)
        + zero_bytes((p.hdr_size - p.len_width - 8) as nat)
        + fd_payload_bytes(fds)
        + zero_bytes((spec_cmsg_space(p, fds.len() as int) - spec_cmsg_len(
            p,
            fds.len() as int,
        )) as nat)
}

/// The payload holds four bytes per descriptor.
pub proof fn lemma_fd_payload_len(fds: Seq<RawFd>)
    requires
        crate::platform::fd_codec_ok(),
    ensures
        fd_payload_bytes(fds).len() == 4 * fds.len(),
    decreases fds.len(),
{
    if fds.len() > 0 {
        lemma_fd_payload_len(fds.drop_last());
    }
}

/// The four payload bytes at position `i` are the encoding of descriptor `i`.
pub proof fn lemma_fd_payload_slice(fds: Seq<RawFd>, i: int)
    requires
        crate::platform::fd_codec_ok(),
        0 <= i < fds.len(),
    ensures
        fd_payload_bytes(fds).subrange(4 * i, 4 * i + 4) == ne_bytes_of_i32(fds[i]),
    decreases fds.len(),
{
    lemma_fd_payload_len(fds);
    if i == fds.len() - 1 {
        lemma_fd_payload_len(fds.drop_last());
        assert(fd_payload_bytes(fds).subrange(4 * i, 4 * i + 4) =~= ne_bytes_of_i32(fds[i]));
    } else {
        lemma_fd_payload_slice(fds.drop_last(), i);
        lemma_fd_payload_len(fds.drop_last());
        assert(fds.drop_last()[i] == fds[i]);
        assert(fd_payload_bytes(fds).subrange(4 * i, 4 * i + 4) =~= fd_payload_bytes(
            fds.drop_last(),
        ).subrange(4 * i, 4 * i + 4));
    }
}

/// Builds the control buffer that carries `fds` alongside a message: a single
/// descriptor-rights record, sized and padded exactly as the platform's
/// layout rules demand, the descriptors in their given order.
#[verifier::loop_isolation(false)]
pub fn build_rights_buffer(p: &CmsgPlatform, fds: &[RawFd]) -> (r: Vec<u8>)
    requires
        platform_ok(*p),
        fits_control(*p, fds@.len() as int),
    ensures
        r@ == spec_rights_buffer(*p, fds@),
        r@.len() == spec_cmsg_space(*p, fds@.len() as int),
{
    let n = fds.len();
    let cmsg_len = cmsg_len_for(p, n);
    let space = cmsg_space_for(p, n);
    let mut buf = usize_to_ne_bytes(cmsg_len);
    let mut lvl = i32_to_ne_bytes(p.sol_socket);
    buf.append(&mut lvl);
    let mut ty = i32_to_ne_bytes(p.scm_rights);
    buf.append(&mut ty);
    let ghost head = buf@;
    assert(head.len() == p.len_width + 8);
    while buf.len() < p.hdr_size
        invariant
            p.len_width + 8 <= buf@.len() <= p.hdr_size,
            buf@ == head + zero_bytes((buf@.len() - p.len_width - 8) as nat),
        decreases p.hdr_size - buf@.len(),
    {
        buf.push(0u8);
        proof {
            assert(buf@ =~= head + zero_bytes((buf@.len() - p.len_width - 8) as nat));
        }
    }
    let ghost hdr_part = buf@;
    assert(hdr_part.len() == p.hdr_size);
    let mut i: usize = 0;
    while i < n
        invariant
            i <= n,
            buf@ == hdr_part + fd_payload_bytes(fds@.take(i as int)),
            buf@.len() == p.hdr_size + 4 * i,
        decreases n - i,
    {
        let fd: RawFd = *vstd::slice::slice_index_get(fds, i);
        let mut fb = i32_to_ne_bytes(fd);
        buf.append(&mut fb);
        proof {
            assert(fds@.take(i + 1).drop_last() =~= fds@.take(i as int));
            assert(fds@.take(i + 1).last() == fds@[i as int]);
            lemma_fd_payload_len(fds@.take(i + 1));
        }
        i = i + 1;
    }
    proof {
        assert(fds@.take(n as int) =~= fds@);
    }
    let ghost data_part = buf@;
    while buf.len() < space
        invariant
            data_part.len() <= buf@.len() <= space,
            buf@ == data_part + zero_bytes((buf@.len() - data_part.len()) as nat),
        decreases space - buf@.len(),
    {
        buf.push(0u8);
        proof {
            assert(buf@ =~= data_part + zero_bytes((buf@.len() - data_part.len()) as nat));
        }
    }
    proof {
        assert(buf@ =~= spec_rights_buffer(*p, fds@));
    }
    buf
}

/// Whether the record at the start of `b` is a descriptor-rights record:
/// its level and type fields hold the platform's marker values.
pub open spec fn is_rights_record(p: CmsgPlatform, b: Seq<u8>) -> bool {
    &&& b.subrange(p.len_width as int, p.len_width + 4) == ne_bytes_of_i32(p.sol_socket)
    &&& b.subrange(p.len_width + 4, p.len_width + 8) == ne_bytes_of_i32(p.scm_rights)
}

/// The descriptors carried by the record at the start of `b`, whose length
/// field reads `c`: one per full four payload bytes, none if the record is of
/// some other ancillary kind.
pub open spec fn record_fds(p: CmsgPlatform, b: Seq<u8>, c: int) -> Seq<RawFd> {
    if is_rights_record(p, b) {
        Seq::new(
            ((c - p.hdr_size) / 4) as nat,
            |i: int| ne_i32_of(b.subrange(p.hdr_size + 4 * i, p.hdr_size + 4 * i + 4)),
        )
    } else {
        Seq::empty()
    }
}

/// Every descriptor in the control buffer `b`, in order: the buffer is walked
/// record by record, each record's length field deciding where the next one
/// starts (rounded up to the record alignment), and the rights records'
/// payloads are collected.  A truncated or malformed record ends the walk.
pub open spec fn spec_parse_records(p: CmsgPlatform, b: Seq<u8>) -> Seq<RawFd>
    decreases b.len(),
{
    if !layout_wf(p) || b.len() < p.hdr_size {
        Seq::empty()
    } else {
        let c = ne_usize_of(b.subrange(0, p.len_width as int)) as int;
        if c < p.hdr_size || b.len() < c {
            Seq::empty()
        } else {
            let here = record_fds(p, b, c);
            let nxt = spec_align_up(c, p.align as int);
            if b.len() <= nxt {
                here
            } else {
                here + spec_parse_records(p, b.skip(nxt))
            }
        }
    }
}

/// However a control buffer came back, the walk yields at most one descriptor
/// per four buffer bytes: a record announcing `k` descriptors is only read
/// when its stated length, header and payload together, lies inside the
/// buffer.  The destination for descriptors can therefore be sized from the
/// buffer length alone, before any record is trusted.
pub proof fn lemma_parse_count_bound(p: CmsgPlatform, b: Seq<u8>)
    ensures
        4 * spec_parse_records(p, b).len() <= b.len(),
    decreases b.len(),
{
    if layout_wf(p) && b.len() >= p.hdr_size {
        let c = ne_usize_of(b.subrange(0, p.len_width as int)) as int;
        if p.hdr_size <= c <= b.len() {
            assert(4 * ((c - p.hdr_size) / 4) <= c - p.hdr_size) by (nonlinear_arith)
                requires
                    c >= p.hdr_size,
            ;
            let nxt = spec_align_up(c, p.align as int);
            if b.len() > nxt {
                lemma_parse_count_bound(p, b.skip(nxt));
            }
        }
    }
}

/// Round trip: the control buffer built for any descriptor list, walked as a
/// received control buffer, yields back exactly that list — same descriptors,
/// same order, nothing added and nothing lost.
pub proof fn lemma_rights_round_trip(p: CmsgPlatform, fds: Seq<RawFd>)
    requires
        platform_ok(p),
        fits_control(p, fds.len() as int),
    ensures
        spec_parse_records(p, spec_rights_buffer(p, fds)) == fds,
{
    broadcast use vstd::arithmetic::div_mod::lemma_mod_twice;

    let b = spec_rights_buffer(p, fds);
    let n = fds.len() as int;
    let clen = spec_cmsg_len(p, n);
    let space = spec_cmsg_space(p, n);
    lemma_fd_payload_len(fds);
    let lenf = ne_bytes_of_usize(clen as usize);
    assert(lenf.len() == p.len_width);
    assert(ne_bytes_of_i32(p.sol_socket).len() == 4);
    assert(ne_bytes_of_i32(p.scm_rights).len() == 4);
    assert(b.len() == space);
    assert(clen <= space);
    assert(b.subrange(0, p.len_width as int) =~= lenf);
    let c = ne_usize_of(b.subrange(0, p.len_width as int)) as int;
    assert(ne_usize_of(lenf) == clen as usize);
    assert(c == clen);
    assert(b.subrange(p.len_width as int, p.len_width + 4) =~= ne_bytes_of_i32(p.sol_socket));
    assert(b.subrange(p.len_width + 4, p.len_width + 8) =~= ne_bytes_of_i32(p.scm_rights));
    assert(is_rights_record(p, b));
    assert((4 * n) / 4 == n);
    assert forall|i: int| 0 <= i < n implies record_fds(p, b, c)[i] == fds[i] by {
        lemma_fd_payload_slice(fds, i);
        assert(b.subrange(p.hdr_size + 4 * i, p.hdr_size + 4 * i + 4) =~= fd_payload_bytes(
            fds,
        ).subrange(4 * i, 4 * i + 4));
    }
    assert(record_fds(p, b, c) =~= fds);
    let a = p.align as int;
    vstd::arithmetic::div_mod::lemma_add_mod_noop(p.hdr_size as int, 4 * n, a);
    assert(p.hdr_size % p.align == 0);
    assert(c % a == (4 * n) % a);
    assert(spec_align_up(c, a) == space);
    assert(spec_parse_records(p, b) == record_fds(p, b, c));
}

/// Whether two byte slices hold the same bytes.
pub fn bytes_eq(a: &[u8], b: &[u8]) -> (r: bool)
    ensures
        r <==> a@ == b@,
{
    if a.len() != b.len() {
        return false;
    }
    let mut i: usize = 0;
    while i < a.len()
        invariant
            a@.len() == b@.len(),
            i <= a@.len(),
            forall|j: int| 0 <= j < i ==> a@[j] == b@[j],
        decreases a@.len() - i,
    {
        if a[i] != b[i] {
            return false;
        }
        i = i + 1;
    }
    proof {
        assert(a@ =~= b@);
    }
    true
}

/// Walks a received control buffer and returns every descriptor found in its
/// rights records, in order.  Safe on any byte content: a record that claims
/// to extend past the buffer, or a length field smaller than a header, ends
/// the walk without reading out of bounds.
#[verifier::loop_isolation(false)]
pub fn extract_fds(p: &CmsgPlatform, b: &[u8]) -> (r: Vec<RawFd>)
    requires
        platform_ok(*p),
    ensures
        r@ == spec_parse_records(*p, b@),
    decreases b@.len(),
{
    if b.len() < p.hdr_size {
        return Vec::new();
    }
    let c = usize_from_ne_bytes(&b[0..p.len_width]);
    if c < p.hdr_size || b.len() < c {
        return Vec::new();
    }
    let mut out: Vec<RawFd> = Vec::new();
    let lvl_want = i32_to_ne_bytes(p.sol_socket);
    let ty_want = i32_to_ne_bytes(p.scm_rights);
    let is_rights = bytes_eq(&b[p.len_width..p.len_width + 4], lvl_want.as_slice()) && bytes_eq(
        &b[p.len_width + 4..p.len_width + 8],
        ty_want.as_slice(),
    );
    assert(is_rights <==> is_rights_record(*p, b@));
    if is_rights {
        let k = (c - p.hdr_size) / 4;
        let mut i: usize = 0;
        while i < k
            invariant
                i <= k,
                out@.len() == i,
                forall|j: int|
                    0 <= j < i ==> out@[j] == ne_i32_of(
                        b@.subrange(p.hdr_size + 4 * j, p.hdr_size + 4 * j + 4),
                    ),
            decreases k - i,
        {
            assert(p.hdr_size + 4 * i + 4 <= c);
            let fd = i32_from_ne_bytes(&b[p.hdr_size + 4 * i..p.hdr_size + 4 * i + 4]);
            out.push(fd);
            i = i + 1;
        }
    }
    proof {
        assert(out@ =~= record_fds(*p, b@, c as int));
    }
    let pad = (p.align - c % p.align) % p.align;
    if b.len() - c <= pad {
        assert(b@.len() <= spec_align_up(c as int, p.align as int));
        return out;
    }
    let nxt = c + pad;
    let mut rest = extract_fds(p, &b[nxt..b.len()]);
    proof {
        assert(b@.subrange(nxt as int, b@.len() as int) =~= b@.skip(nxt as int));
    }
    out.append(&mut rest);
    out
}

} // verus!
