//! The text the bundled lifecycle handlers emit.
//!
//! The handlers shipped with the reactor turn each notification into one log
//! line.  Composing those lines — decimal numbers, a dotted-quad address,
//! the fixed labels — is pure computation and is verified here, down to the
//! exact bytes; the sink that prints or forwards a finished line lives with
//! the host.  All text is ASCII, built as bytes.

use vstd::prelude::*;

verus! {

/// The decimal digits of `n`, most significant first, no leading zero
/// (a single `0` for zero).
pub open spec fn spec_decimal(n: nat) -> Seq<u8>
    decreases n,
{
    if n < 10 {
        seq![(48 + n) as u8]
    } else {
        spec_decimal(n / 10).push((48 + n % 10) as u8)
    }
}

/// Writes `n` in decimal.
pub fn fmt_u32(n: u32) -> (r: Vec<u8>)
    ensures
        r@ == spec_decimal(n as nat),
    decreases n,
{
    if n < 10 {
        let mut r: Vec<u8> = Vec::new();
        r.push(48 + (n as u8));
        proof {
            assert(r@ =~= spec_decimal(n as nat));
        }
        r
    } else {
        let mut r = fmt_u32(n / 10);
        r.push(48 + ((n % 10) as u8));
        proof {
            assert(r@ =~= spec_decimal(n as nat));
        }
        r
    }
}

/// An IPv4 address (given as its numeric value, host byte order) written as
/// a dotted quad, most significant octet first.
pub open spec fn spec_ipv4(ip: u32) -> Seq<u8> {
    spec_decimal((ip / 0x1000000) as nat) + seq![46u8] + spec_decimal(
        ((ip / 0x10000) % 256) as nat,
    ) + seq![46u8] + spec_decimal(((ip / 256) % 256) as nat) + seq![46u8] + spec_decimal(
        (ip % 256) as nat,
    )
}

/// Writes an IPv4 address as a dotted quad.
pub fn fmt_ipv4(ip: u32) -> (r: Vec<u8>)
    ensures
        r@ == spec_ipv4(ip),
{
    let mut r = fmt_u32(ip / 0x1000000);
    r.push(46u8);
    let mut o = fmt_u32((ip / 0x10000) % 256);
    r.append(&mut o);
    r.push(46u8);
    let mut o = fmt_u32((ip / 256) % 256);
    r.append(&mut o);
    r.push(46u8);
    let mut o = fmt_u32(ip % 256);
    r.append(&mut o);
    proof {
        assert(r@ =~= spec_ipv4(ip));
    }
    r
}

/// The line announcing a connection: `fd=<fd>, addr=<ip>:<port>`.
pub open spec fn spec_connect_line(fd: i32, ip: u32, port: u16) -> Seq<u8> {
    seq![102u8, 100u8, 61u8] + spec_decimal(fd as nat) + seq![
        44u8,
        32u8,
        97u8,
        100u8,
        100u8,
        114u8,
        61u8,
    ] + spec_ipv4(ip) + seq![58u8] + spec_decimal(port as nat)
}

/// Writes the line announcing a connection.  A live descriptor is never
/// negative, so its number is written as it stands.
pub fn connect_line(fd: i32, ip: u32, port: u16) -> (r: Vec<u8>)
    requires
        fd >= 0,
    ensures
        r@ == spec_connect_line(fd, ip, port),
{
    let mut r: Vec<u8> = Vec::new();
    r.push(102u8);
    r.push(100u8);
    r.push(61u8);
    let mut part = fmt_u32(fd as u32);
    r.append(&mut part);
    r.push(44u8);
    r.push(32u8);
    r.push(97u8);
    r.push(100u8);
    r.push(100u8);
    r.push(114u8);
    r.push(61u8);
    let mut part = fmt_ipv4(ip);
    r.append(&mut part);
    r.push(58u8);
    let mut part = fmt_u32(port as u32);
    r.append(&mut part);
    proof {
        assert(r@ =~= spec_connect_line(fd, ip, port));
    }
    r
}

/// The start of the line reporting delivered bytes:
/// `Received data: fd=<fd>, data=`; the host appends its rendering of the
/// payload.
pub open spec fn spec_data_line_prefix(fd: i32) -> Seq<u8> {
    seq![
        82u8,
        101u8,
        99u8,
        101u8,
        105u8,
        118u8,
        101u8,
        100u8,
        32u8,
        100u8,
        97u8,
        116u8,
        97u8,
        58u8,
        32u8,
        102u8,
        100u8,
        61u8,
    ] + spec_decimal(fd as nat) + seq![44u8, 32u8, 100u8, 97u8, 116u8, 97u8, 61u8]
}

/// Writes the start of the line reporting delivered bytes.
pub fn data_line_prefix(fd: i32) -> (r: Vec<u8>)
    requires
        fd >= 0,
    ensures
        r@ == spec_data_line_prefix(fd),
{
    let mut r: Vec<u8> = Vec::new();
    r.push(82u8);
    r.push(101u8);
    r.push(99u8);
    r.push(101u8);
    r.push(105u8);
    r.push(118u8);
    r.push(101u8);
    r.push(100u8);
    r.push(32u8);
    r.push(100u8);
    r.push(97u8);
    r.push(116u8);
    r.push(97u8);
    r.push(58u8);
    r.push(32u8);
    r.push(102u8);
    r.push(100u8);
    r.push(61u8);
    let mut part = fmt_u32(fd as u32);
    r.append(&mut part);
    r.push(44u8);
    r.push(32u8);
    r.push(100u8);
    r.push(97u8);
    r.push(116u8);
    r.push(97u8);
    r.push(61u8);
    proof {
        assert(r@ =~= spec_data_line_prefix(fd));
    }
    r
}

/// The line reporting a closed connection: `connection closed: fd=<fd>`.
pub open spec fn spec_close_line(fd: i32) -> Seq<u8> {
    seq![
        99u8,
        111u8,
        110u8,
        110u8,
        101u8,
        99u8,
        116u8,
        105u8,
        111u8,
        110u8,
        32u8,
        99u8,
        108u8,
        111u8,
        115u8,
        101u8,
        100u8,
        58u8,
        32u8,
        102u8,
        100u8,
        61u8,
    ] + spec_decimal(fd as nat)
}

/// Writes the line reporting a closed connection.
pub fn close_line(fd: i32) -> (r: Vec<u8>)
    requires
        fd >= 0,
    ensures
        r@ == spec_close_line(fd),
{
    let mut r: Vec<u8> = Vec::new();
    r.push(99u8);
    r.push(111u8);
    r.push(110u8);
    r.push(110u8);
    r.push(101u8);
    r.push(99u8);
    r.push(116u8);
    r.push(105u8);
    r.push(111u8);
    r.push(110u8);
    r.push(32u8);
    r.push(99u8);
    r.push(108u8);
    r.push(111u8);
    r.push(115u8);
    r.push(101u8);
    r.push(100u8);
    r.push(58u8);
    r.push(32u8);
    r.push(102u8);
    r.push(100u8);
    r.push(61u8);
    let mut part = fmt_u32(fd as u32);
    r.append(&mut part);
    proof {
        assert(r@ =~= spec_close_line(fd));
    }
    r
}

} // verus!
