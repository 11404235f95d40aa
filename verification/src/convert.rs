//! The ownership conversion layer: inspecting a resource's descriptor without
//! taking it, and wrapping a received descriptor into an owning resource.
//! A bare descriptor value is a first-class resource on both sides, so the
//! identity conversion is available and exact.

use vstd::prelude::*;

use crate::RawFd;

verus! {

/// The ability to inspect the raw descriptor behind a resource without
/// passing its ownership to the caller.
///
/// The descriptor stays valid only while the resource itself is alive.
pub trait Sendable {
    /// The descriptor this resource would report.
    spec fn sendable_fd(&self) -> RawFd;

    /// Inspect the raw descriptor.  Pure inspection: the resource keeps
    /// ownership, and the result is a function of the resource alone.
    fn as_sendable_fd(&self) -> (r: RawFd)
        ensures
            r == self.sendable_fd(),
    ;
}

/// The ability to construct an owning resource from a raw descriptor.
///
/// The constructed value takes sole responsibility for eventually closing the
/// descriptor.  Implement it only for resource kinds whose kernel object
/// tolerates being referenced through two independent process-local handles,
/// as received descriptors are duplicates of ones another process still holds.
pub trait Receivable: Sized {
    /// The descriptor a constructed resource wraps.
    spec fn received_fd(&self) -> RawFd;

    /// Take ownership of `fd`.  Total: every descriptor value is accepted,
    /// and the result wraps exactly the descriptor handed in.
    fn from_received_fd(fd: RawFd) -> (r: Self)
        ensures
            r.received_fd() == fd,
    ;
}

impl Sendable for RawFd {
    open spec fn sendable_fd(&self) -> RawFd {
        *self
    }

    fn as_sendable_fd(&self) -> (r: RawFd) {
        *self
    }
}

impl Receivable for RawFd {
    open spec fn received_fd(&self) -> RawFd {
        *self
    }

    fn from_received_fd(fd: RawFd) -> (r: Self) {
        fd
    }
}

/// Sending a bare descriptor value and receiving it as a bare descriptor
/// value changes nothing: for `RawFd` both conversions are the identity.
pub proof fn lemma_identity_conversion(fd: RawFd)
    ensures
        fd.sendable_fd() == fd,
        forall|r: RawFd| r.received_fd() == fd ==> r == fd,
{
}

/// The descriptors a list of resources would report, in order.
pub open spec fn sendable_fds_of<T: Sendable>(items: Seq<T>) -> Seq<RawFd> {
    Seq::new(items.len(), |i: int| items[i].sendable_fd())
}

/// Reads out the descriptor of every resource in `items`, in order, none of
/// them consumed.
pub fn collect_sendable_fds<T: Sendable>(items: &[T]) -> (r: Vec<RawFd>)
    ensures
        r@.len() == items@.len(),
        forall|i: int| 0 <= i < items@.len() ==> r@[i] == items@[i].sendable_fd(),
{
    let mut r: Vec<RawFd> = Vec::new();
    let mut i: usize = 0;
    while i < items.len()
        invariant
            i <= items@.len(),
            r@.len() == i,
            forall|j: int| 0 <= j < i ==> r@[j] == items@[j].sendable_fd(),
        decreases items@.len() - i,
    {
        let item = vstd::slice::slice_index_get(items, i);
        r.push(item.as_sendable_fd());
        i = i + 1;
    }
    r
}

/// Wraps received raw descriptors into owning resources, in order, but never
/// more than `capacity` of them: the destination's declared capacity is a
/// hard bound.  Returns the wrapped resources and the raw descriptors that
/// did not fit, which the caller must close rather than leak.
pub fn convert_received<T: Receivable>(raws: Vec<RawFd>, capacity: usize) -> (r: (Vec<T>, Vec<RawFd>))
    ensures
        r.0@.len() == if capacity <= raws@.len() { capacity as int } else { raws@.len() as int },
        r.0@.len() <= capacity,
        forall|i: int| 0 <= i < r.0@.len() ==> r.0@[i].received_fd() == raws@[i],
        r.1@ == raws@.skip(r.0@.len() as int),
{
    let take: usize = if capacity <= raws.len() { capacity } else { raws.len() };
    let mut out: Vec<T> = Vec::new();
    let mut i: usize = 0;
    while i < take
        invariant
            i <= take,
            take <= raws@.len(),
            out@.len() == i,
            forall|j: int| 0 <= j < i ==> out@[j].received_fd() == raws@[j],
        decreases take - i,
    {
        out.push(T::from_received_fd(raws[i]));
        i = i + 1;
    }
    let mut rest: Vec<RawFd> = Vec::new();
    let mut j: usize = take;
    while j < raws.len()
        invariant
            take <= j <= raws@.len(),
            rest@ == raws@.subrange(take as int, j as int),
        decreases raws@.len() - j,
    {
        rest.push(raws[j]);
        proof {
            assert(rest@ =~= raws@.subrange(take as int, j + 1));
        }
        j = j + 1;
    }
    proof {
        assert(rest@ =~= raws@.skip(take as int));
    }
    (out, rest)
}

} // verus!
