//! Tests of the control-buffer codec against the host's real layout values.

use sendfd::platform::host_platform;
use sendfd::recv_control_for;
use sendfd::rights::extract_fds;
use sendfd::send_control_for;

fn cmsg_align(n: usize) -> usize {
    let a = core::mem::size_of::<usize>();
    (n + a - 1) & !(a - 1)
}

fn hdr_size() -> usize {
    core::mem::size_of::<libc::cmsghdr>()
}

fn len_width() -> usize {
    core::mem::size_of::<libc::size_t>()
}

#[test]
fn round_trip_two_fds() {
    let fds: Vec<i32> = vec![0x0102_0304, -7];
    let p = host_platform();
    let buf = send_control_for(&p, fds.as_slice()).expect("sizing fits");
    let out = extract_fds(&p, buf.as_slice());
    assert_eq!(out, fds);
}

#[test]
fn round_trip_many_fds() {
    let fds: Vec<i32> = (0..31).map(|i| i * 1000 - 15).collect();
    let p = host_platform();
    let buf = send_control_for(&p, fds.as_slice()).expect("sizing fits");
    let out = extract_fds(&p, buf.as_slice());
    assert_eq!(out, fds);
}

#[test]
fn round_trip_empty() {
    let fds: Vec<i32> = vec![];
    let p = host_platform();
    let buf = send_control_for(&p, fds.as_slice()).expect("sizing fits");
    assert_eq!(buf.len(), cmsg_align(hdr_size()));
    let out = extract_fds(&p, buf.as_slice());
    assert!(out.is_empty());
}

#[test]
fn header_fields_match_host_encoding() {
    let fds: Vec<i32> = vec![3, 4, 5];
    let p = host_platform();
    let buf = send_control_for(&p, fds.as_slice()).expect("sizing fits");
    let lw = len_width();
    let expected_len = hdr_size() + 4 * fds.len();
    assert_eq!(&buf[..lw], &expected_len.to_ne_bytes()[..]);
    assert_eq!(&buf[lw..lw + 4], &libc::SOL_SOCKET.to_ne_bytes()[..]);
    assert_eq!(&buf[lw + 4..lw + 8], &libc::SCM_RIGHTS.to_ne_bytes()[..]);
    assert_eq!(&buf[hdr_size()..hdr_size() + 4], &3i32.to_ne_bytes()[..]);
    assert_eq!(&buf[hdr_size() + 4..hdr_size() + 8], &4i32.to_ne_bytes()[..]);
    assert_eq!(&buf[hdr_size() + 8..hdr_size() + 12], &5i32.to_ne_bytes()[..]);
}

#[test]
fn buffer_sized_like_cmsg_space() {
    let p = host_platform();
    for count in [0usize, 1, 2, 3, 7, 8] {
        let buf = recv_control_for(&p, count).expect("sizing fits");
        assert_eq!(buf.len(), cmsg_align(hdr_size()) + cmsg_align(4 * count));
        assert!(buf.iter().all(|&b| b == 0));
    }
}

#[test]
fn zeroed_buffer_parses_empty() {
    let p = host_platform();
    let buf = recv_control_for(&p, 5).expect("sizing fits");
    let out = extract_fds(&p, buf.as_slice());
    assert!(out.is_empty());
}

#[test]
fn parse_skips_foreign_record() {
    // A record of some other ancillary kind, then a rights record with two
    // descriptors: only the rights payload must come back.
    let hdr = hdr_size();
    let mut buf: Vec<u8> = Vec::new();
    let foreign_payload = 5usize;
    let foreign_len = hdr + foreign_payload;
    buf.extend_from_slice(&foreign_len.to_ne_bytes());
    buf.extend_from_slice(&libc::SOL_SOCKET.to_ne_bytes());
    buf.extend_from_slice(&libc::SCM_CREDENTIALS.to_ne_bytes());
    buf.resize(hdr, 0);
    buf.resize(cmsg_align(foreign_len), 0xaa);
    let start = buf.len();
    let rights_len = hdr + 8;
    buf.extend_from_slice(&rights_len.to_ne_bytes());
    buf.extend_from_slice(&libc::SOL_SOCKET.to_ne_bytes());
    buf.extend_from_slice(&libc::SCM_RIGHTS.to_ne_bytes());
    buf.resize(start + hdr, 0);
    buf.extend_from_slice(&41i32.to_ne_bytes());
    buf.extend_from_slice(&42i32.to_ne_bytes());
    let p = host_platform();
    let out = extract_fds(&p, buf.as_slice());
    assert_eq!(out, vec![41, 42]);
}

#[test]
fn parse_stops_on_short_record() {
    // A length field smaller than a header ends the walk.
    let hdr = hdr_size();
    let mut buf: Vec<u8> = Vec::new();
    buf.extend_from_slice(&(hdr - 1).to_ne_bytes());
    buf.resize(4 * hdr, 0x55);
    let p = host_platform();
    let out = extract_fds(&p, buf.as_slice());
    assert!(out.is_empty());
}

#[test]
fn parse_stops_on_overlong_record() {
    // A record claiming to extend past the buffer is never read.
    let hdr = hdr_size();
    let mut buf: Vec<u8> = Vec::new();
    buf.extend_from_slice(&(10 * hdr).to_ne_bytes());
    buf.extend_from_slice(&libc::SOL_SOCKET.to_ne_bytes());
    buf.extend_from_slice(&libc::SCM_RIGHTS.to_ne_bytes());
    buf.resize(2 * hdr, 0x7f);
    let p = host_platform();
    let out = extract_fds(&p, buf.as_slice());
    assert!(out.is_empty());
}

#[test]
fn sizing_declines_unrepresentable_capacity() {
    let p = host_platform();
    assert!(recv_control_for(&p, usize::MAX).is_none());
    assert!(recv_control_for(&p, usize::MAX / 4).is_none());
}

#[test]
fn parse_reads_only_full_descriptors() {
    // A rights record whose payload is not a multiple of four: only the
    // complete descriptors are read, the trailing bytes are not.
    let hdr = hdr_size();
    let mut buf: Vec<u8> = Vec::new();
    let rights_len = hdr + 6;
    buf.extend_from_slice(&rights_len.to_ne_bytes());
    buf.extend_from_slice(&libc::SOL_SOCKET.to_ne_bytes());
    buf.extend_from_slice(&libc::SCM_RIGHTS.to_ne_bytes());
    buf.resize(hdr, 0);
    buf.extend_from_slice(&99i32.to_ne_bytes());
    buf.extend_from_slice(&[0xbb, 0xbb]);
    let p = host_platform();
    let out = extract_fds(&p, buf.as_slice());
    assert_eq!(out, vec![99]);
}

#[test]
fn parse_tolerates_truncated_buffer() {
    let fds: Vec<i32> = vec![9, 10, 11];
    let p = host_platform();
    let buf = send_control_for(&p, fds.as_slice()).expect("sizing fits");
    for cut in 0..buf.len() {
        // No cut may panic; a cut inside the payload yields a prefix.
        let out = extract_fds(&p, &buf[..cut]);
        assert!(out.len() <= fds.len());
    }
}
