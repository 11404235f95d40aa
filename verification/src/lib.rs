//! Passing open file descriptors between processes over Unix-domain sockets.
//!
//! The kernel transfers descriptor rights as ancillary data attached to a
//! socket message.  The hard part of that exchange is the control buffer: a
//! platform-defined sequence of variable-length records, each holding a
//! length, a level, a type, and a payload, laid out with platform-specific
//! alignment.  This crate verifies that layer: sizing the buffer, encoding a
//! descriptor-rights record into it, and walking a received buffer to pull
//! the descriptors back out.

use vstd::prelude::*;

pub mod convert;
pub mod layout;
pub mod platform;
pub mod rights;

use crate::convert::Sendable;
use crate::convert::collect_sendable_fds;
use crate::convert::sendable_fds_of;
use crate::layout::cmsg_space_for;
use crate::layout::fits_control;
use crate::layout::spec_cmsg_space;
use crate::platform::CmsgPlatform;
use crate::platform::platform_ok;
use crate::rights::build_rights_buffer;
use crate::rights::spec_rights_buffer;
use crate::rights::zero_bytes;

verus! {

/// A process-local handle to an open kernel resource.
pub type RawFd = i32;

/// The verified half of the send path: reads each resource's descriptor in
/// order and encodes the control buffer that transfers their rights, sized
/// by the given layout.  Succeeds if and only if a buffer for that many
/// descriptors can be sized at all; the resources themselves are only
/// inspected, never consumed.  The caller obtains the layout from
/// `host_platform` and performs the actual kernel send with the returned
/// buffer.
pub fn send_control_for<T: Sendable>(p: &CmsgPlatform, items: &[T]) -> (r: Option<Vec<u8>>)
    requires
        platform_ok(*p),
    ensures
        r is Some <==> fits_control(*p, items@.len() as int),
        match r {
            Some(buf) => {
                &&& buf@ == spec_rights_buffer(*p, sendable_fds_of(items@))
                &&& buf@.len() == spec_cmsg_space(*p, items@.len() as int)
            },
            None => true,
        },
{
    let budget = usize::MAX - p.hdr_size;
    if p.align > budget || items.len() > (budget - p.align) / 4 {
        proof {
            assert(!fits_control(*p, items@.len() as int));
        }
        return None;
    }
    let fds = collect_sendable_fds(items);
    let buf = build_rights_buffer(p, fds.as_slice());
    proof {
        assert(fds@ =~= sendable_fds_of(items@));
    }
    Some(buf)
}

/// The verified half of the receive path's setup: a zeroed control buffer
/// with room for exactly `capacity` transferred descriptors under the given
/// layout, never more.  Succeeds if and only if a buffer for that capacity
/// can be sized at all.
pub fn recv_control_for(p: &CmsgPlatform, capacity: usize) -> (r: Option<Vec<u8>>)
    requires
        platform_ok(*p),
    ensures
        r is Some <==> fits_control(*p, capacity as int),
        match r {
            Some(buf) => {
                &&& buf@.len() == spec_cmsg_space(*p, capacity as int)
                &&& buf@ == zero_bytes(spec_cmsg_space(*p, capacity as int) as nat)
            },
            None => true,
        },
{
    let budget = usize::MAX - p.hdr_size;
    if p.align > budget || capacity > (budget - p.align) / 4 {
        proof {
            assert(!fits_control(*p, capacity as int));
        }
        return None;
    }
    let space = cmsg_space_for(p, capacity);
    Some(alloc_zeroed(space))
}

/// A zeroed byte buffer of length `n`.
fn alloc_zeroed(n: usize) -> (r: Vec<u8>)
    ensures
        r@ == zero_bytes(n as nat),
        r@.len() == n,
{
    let mut buf: Vec<u8> = Vec::new();
    while buf.len() < n
        invariant
            buf@.len() <= n,
            buf@ == zero_bytes(buf@.len()),
        decreases n - buf@.len(),
    {
        buf.push(0u8);
        proof {
            assert(buf@ =~= zero_bytes(buf@.len()));
        }
    }
    buf
}

} // verus!
