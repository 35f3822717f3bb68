//! Byte layouts of the messages of the real network backends: RPC request
//! and response frames, and socket addresses.

use vstd::prelude::*;
use crate::addr::{IpAddr, SocketAddr};

verus! {

/// The big-endian bytes of `x`.
pub open spec fn spec_u32_be(x: u32) -> Seq<u8> {
    seq![(x >> 24u32) as u8, (x >> 16u32) as u8, (x >> 8u32) as u8, x as u8]
}

/// The big-endian bytes of `x`.
pub open spec fn spec_u64_be(x: u64) -> Seq<u8> {
    seq![
        (x >> 56u64) as u8, (x >> 48u64) as u8, (x >> 40u64) as u8, (x >> 32u64) as u8,
        (x >> 24u64) as u8, (x >> 16u64) as u8, (x >> 8u64) as u8, x as u8,
    ]
}

/// The `u32` whose big-endian bytes are `a b c d`.
pub open spec fn spec_be_u32(a: u8, b: u8, c: u8, d: u8) -> u32 {
    ((a as u32) << 24u32) | ((b as u32) << 16u32) | ((c as u32) << 8u32) | (d as u32)
}

/// The `u64` whose big-endian bytes are `b[0..8]`.
pub open spec fn spec_be_u64(b: Seq<u8>) -> u64 {
    ((b[0] as u64) << 56u64) | ((b[1] as u64) << 48u64) | ((b[2] as u64) << 40u64) | ((b[3] as u64) << 32u64)
        | ((b[4] as u64) << 24u64) | ((b[5] as u64) << 16u64) | ((b[6] as u64) << 8u64) | (b[7] as u64)
}

/// Reading back the big-endian bytes of a `u32` gives the `u32`.
pub proof fn u32_be_roundtrip(x: u32)
    ensures
        spec_be_u32(spec_u32_be(x)[0], spec_u32_be(x)[1], spec_u32_be(x)[2], spec_u32_be(x)[3]) == x,
{
    assert((((x >> 24u32) as u8) as u32) << 24u32 | (((x >> 16u32) as u8) as u32) << 16u32
        | (((x >> 8u32) as u8) as u32) << 8u32 | ((x as u8) as u32) == x) by (bit_vector);
}

/// Reading back the big-endian bytes of a `u64` gives the `u64`.
pub proof fn u64_be_roundtrip(x: u64)
    ensures
        spec_be_u64(spec_u64_be(x)) == x,
{
    let b = spec_u64_be(x);
    assert(((((x >> 56u64) as u8) as u64) << 56u64) | ((((x >> 48u64) as u8) as u64) << 48u64)
        | ((((x >> 40u64) as u8) as u64) << 40u64) | ((((x >> 32u64) as u8) as u64) << 32u64)
        | ((((x >> 24u64) as u8) as u64) << 24u64) | ((((x >> 16u64) as u8) as u64) << 16u64)
        | ((((x >> 8u64) as u8) as u64) << 8u64) | ((x as u8) as u64) == x) by (bit_vector);
}

/// Appends the big-endian bytes of `x` to `out`.
fn push_u32_be(out: &mut Vec<u8>, x: u32)
    ensures
        final(out)@ == old(out)@ + spec_u32_be(x),
{
    out.push((x >> 24) as u8);
    out.push((x >> 16) as u8);
    out.push((x >> 8) as u8);
    out.push(x as u8);
    assert(final(out)@ =~= old(out)@ + spec_u32_be(x));
}

/// Appends the big-endian bytes of `x` to `out`.
fn push_u64_be(out: &mut Vec<u8>, x: u64)
    ensures
        final(out)@ == old(out)@ + spec_u64_be(x),
{
    out.push((x >> 56) as u8);
    out.push((x >> 48) as u8);
    out.push((x >> 40) as u8);
    out.push((x >> 32) as u8);
    out.push((x >> 24) as u8);
    out.push((x >> 16) as u8);
    out.push((x >> 8) as u8);
    out.push(x as u8);
    assert(final(out)@ =~= old(out)@ + spec_u64_be(x));
}

/// Appends all of `src` to `out`.
fn push_all(out: &mut Vec<u8>, src: &Vec<u8>)
    ensures
        final(out)@ == old(out)@ + src@,
{
    let mut i: usize = 0;
    while i < src.len()
        invariant
            i <= src@.len(),
            out@ == old(out)@ + src@.take(i as int),
        decreases src@.len() - i,
    {
        out.push(src[i]);
        proof { assert(src@.take(i + 1) == src@.take(i as int).push(src@[i as int])); }
        i = i + 1;
    }
    assert(src@.take(src@.len() as int) == src@);
}

/// The bytes `src[from..to]`.
fn copy_range(src: &Vec<u8>, from: usize, to: usize) -> (r: Vec<u8>)
    requires
        from <= to <= src@.len(),
    ensures
        r@ == src@.subrange(from as int, to as int),
{
    let mut r: Vec<u8> = Vec::new();
    let mut i: usize = from;
    while i < to
        invariant
            from <= i <= to,
            to <= src@.len(),
            r@ == src@.subrange(from as int, i as int),
        decreases to - i,
    {
        r.push(src[i]);
        proof { assert(src@.subrange(from as int, i + 1) == src@.subrange(from as int, i as int).push(src@[i as int])); }
        i = i + 1;
    }
    r
}

/// A request frame: the response tag, the length of the request, the
/// serialized request, then the attached data.
pub open spec fn spec_request_frame(rsp_tag: u64, req: Seq<u8>, data: Seq<u8>) -> Seq<u8> {
    spec_u64_be(rsp_tag) + spec_u32_be(req.len() as u32) + req + data
}

/// A response frame: the length of the response, the serialized response,
/// then the attached data.
pub open spec fn spec_response_frame(rsp: Seq<u8>, data: Seq<u8>) -> Seq<u8> {
    spec_u32_be(rsp.len() as u32) + rsp + data
}

/// Lays out an RPC request. The request must be shorter than 2^32 bytes.
pub fn encode_request(rsp_tag: u64, req: &Vec<u8>, data: &Vec<u8>) -> (frame: Vec<u8>)
    requires
        req@.len() <= u32::MAX,
    ensures
        frame@ == spec_request_frame(rsp_tag, req@, data@),
{
    let mut out: Vec<u8> = Vec::new();
    push_u64_be(&mut out, rsp_tag);
    push_u32_be(&mut out, req.len() as u32);
    push_all(&mut out, req);
    push_all(&mut out, data);
    assert(out@ =~= spec_request_frame(rsp_tag, req@, data@));
    out
}

/// Lays out an RPC response. The response must be shorter than 2^32 bytes.
pub fn encode_response(rsp: &Vec<u8>, data: &Vec<u8>) -> (frame: Vec<u8>)
    requires
        rsp@.len() <= u32::MAX,
    ensures
        frame@ == spec_response_frame(rsp@, data@),
{
    let mut out: Vec<u8> = Vec::new();
    push_u32_be(&mut out, rsp.len() as u32);
    push_all(&mut out, rsp);
    push_all(&mut out, data);
    assert(out@ =~= spec_response_frame(rsp@, data@));
    out
}

/// Splits an RPC request frame into the response tag, the serialized request
/// and the attached data; `None` when the frame is shorter than its header or
/// than the request length it announces.
pub fn decode_request(frame: &Vec<u8>) -> (r: Option<(u64, Vec<u8>, Vec<u8>)>)
    ensures
        ({
            let f = frame@;
            if f.len() < 12 {
                r is None
            } else {
                let n = spec_be_u32(f[8], f[9], f[10], f[11]);
                if f.len() < 12 + n {
                    r is None
                } else {
                    r matches Some((tag, req, data)) && tag == spec_be_u64(f)
                        && req@ == f.subrange(12, 12 + n) && data@ == f.skip(12 + n)
                }
            }
        }),
{
    if frame.len() < 12 {
        return None;
    }
    let tag: u64 = ((frame[0] as u64) << 56) | ((frame[1] as u64) << 48) | ((frame[2] as u64) << 40) | ((frame[3] as u64) << 32)
        | ((frame[4] as u64) << 24) | ((frame[5] as u64) << 16) | ((frame[6] as u64) << 8) | (frame[7] as u64);
    let n: u32 = ((frame[8] as u32) << 24) | ((frame[9] as u32) << 16) | ((frame[10] as u32) << 8) | (frame[11] as u32);
    let n = n as usize;
    if frame.len() - 12 < n {
        return None;
    }
    let req = copy_range(frame, 12, 12 + n);
    let data = copy_range(frame, 12 + n, frame.len());
    proof {
        assert(frame@.subrange(12 + n, frame@.len() as int) == frame@.skip(12 + n));
    }
    Some((tag, req, data))
}

/// Splits an RPC response frame into the serialized response and the attached
/// data; `None` when the frame is shorter than its header or than the response
/// length it announces.
pub fn decode_response(frame: &Vec<u8>) -> (r: Option<(Vec<u8>, Vec<u8>)>)
    ensures
        ({
            let f = frame@;
            if f.len() < 4 {
                r is None
            } else {
                let n = spec_be_u32(f[0], f[1], f[2], f[3]);
                if f.len() < 4 + n {
                    r is None
                } else {
                    r matches Some((rsp, data)) && rsp@ == f.subrange(4, 4 + n) && data@ == f.skip(4 + n)
                }
            }
        }),
{
    if frame.len() < 4 {
        return None;
    }
    let n: u32 = ((frame[0] as u32) << 24) | ((frame[1] as u32) << 16) | ((frame[2] as u32) << 8) | (frame[3] as u32);
    let n = n as usize;
    if frame.len() - 4 < n {
        return None;
    }
    let rsp = copy_range(frame, 4, 4 + n);
    let data = copy_range(frame, 4 + n, frame.len());
    proof {
        assert(frame@.subrange(4 + n, frame@.len() as int) == frame@.skip(4 + n));
    }
    Some((rsp, data))
}

/// A request frame reads back as the tag, request and data it was made of.
pub proof fn request_frame_roundtrip(rsp_tag: u64, req: Seq<u8>, data: Seq<u8>)
    requires
        req.len() <= u32::MAX,
    ensures
        ({
            let f = spec_request_frame(rsp_tag, req, data);
            &&& f.len() >= 12
            &&& spec_be_u64(f) == rsp_tag
            &&& spec_be_u32(f[8], f[9], f[10], f[11]) == req.len()
            &&& f.subrange(12, 12 + req.len() as int) == req
            &&& f.skip(12 + req.len() as int) == data
        }),
{
    let f = spec_request_frame(rsp_tag, req, data);
    u64_be_roundtrip(rsp_tag);
    u32_be_roundtrip(req.len() as u32);
    assert(f.take(8) =~= spec_u64_be(rsp_tag));
    assert(spec_be_u64(f) == spec_be_u64(spec_u64_be(rsp_tag)));
    assert(f[8] == spec_u32_be(req.len() as u32)[0]);
    assert(f[9] == spec_u32_be(req.len() as u32)[1]);
    assert(f[10] == spec_u32_be(req.len() as u32)[2]);
    assert(f[11] == spec_u32_be(req.len() as u32)[3]);
    assert(f.subrange(12, 12 + req.len() as int) =~= req);
    assert(f.skip(12 + req.len() as int) =~= data);
}

/// A response frame reads back as the response and data it was made of.
pub proof fn response_frame_roundtrip(rsp: Seq<u8>, data: Seq<u8>)
    requires
        rsp.len() <= u32::MAX,
    ensures
        ({
            let f = spec_response_frame(rsp, data);
            &&& f.len() >= 4
            &&& spec_be_u32(f[0], f[1], f[2], f[3]) == rsp.len()
            &&& f.subrange(4, 4 + rsp.len() as int) == rsp
            &&& f.skip(4 + rsp.len() as int) == data
        }),
{
    let f = spec_response_frame(rsp, data);
    u32_be_roundtrip(rsp.len() as u32);
    assert(f[0] == spec_u32_be(rsp.len() as u32)[0]);
    assert(f[1] == spec_u32_be(rsp.len() as u32)[1]);
    assert(f[2] == spec_u32_be(rsp.len() as u32)[2]);
    assert(f[3] == spec_u32_be(rsp.len() as u32)[3]);
    assert(f.subrange(4, 4 + rsp.len() as int) =~= rsp);
    assert(f.skip(4 + rsp.len() as int) =~= data);
}

/// The six bytes of an IPv4 socket address: the four octets, then the port
/// in big-endian order.
pub open spec fn spec_addr_bytes(ip: u32, port: u16) -> Seq<u8> {
    seq![(ip >> 24u32) as u8, (ip >> 16u32) as u8, (ip >> 8u32) as u8, ip as u8, (port >> 8u16) as u8, port as u8]
}

/// Lays out an IPv4 socket address in six bytes. Only version 4 addresses have
/// this layout.
pub fn socket_addr_to_bytes(addr: SocketAddr) -> (b: [u8; 6])
    requires
        addr.ip is V4,
    ensures
        b@ == spec_addr_bytes(addr.ip->V4_0, addr.port),
{
    let ip = match addr.ip {
        IpAddr::V4(a) => a,
        IpAddr::V6(_) => 0,
    };
    let b = [(ip >> 24) as u8, (ip >> 16) as u8, (ip >> 8) as u8, ip as u8, (addr.port >> 8) as u8, addr.port as u8];
    assert(b@ =~= spec_addr_bytes(ip, addr.port));
    b
}

/// The IPv4 socket address laid out in `bytes`.
pub fn socket_addr_from_bytes(bytes: [u8; 6]) -> (a: SocketAddr)
    ensures
        a.ip == IpAddr::V4(spec_be_u32(bytes@[0], bytes@[1], bytes@[2], bytes@[3])),
        a.port == ((bytes@[4] as u16) << 8u16) | (bytes@[5] as u16),
{
    let ip: u32 = ((bytes[0] as u32) << 24) | ((bytes[1] as u32) << 16) | ((bytes[2] as u32) << 8) | (bytes[3] as u32);
    let port: u16 = ((bytes[4] as u16) << 8) | (bytes[5] as u16);
    SocketAddr { ip: IpAddr::V4(ip), port }
}

/// An IPv4 socket address laid out in bytes reads back as itself.
pub proof fn socket_addr_bytes_roundtrip(ip: u32, port: u16)
    ensures
        spec_be_u32(spec_addr_bytes(ip, port)[0], spec_addr_bytes(ip, port)[1], spec_addr_bytes(ip, port)[2], spec_addr_bytes(ip, port)[3]) == ip,
        ((spec_addr_bytes(ip, port)[4] as u16) << 8u16) | (spec_addr_bytes(ip, port)[5] as u16) == port,
{
    u32_be_roundtrip(ip);
    assert(spec_addr_bytes(ip, port)[0] == spec_u32_be(ip)[0]);
    assert(spec_addr_bytes(ip, port)[1] == spec_u32_be(ip)[1]);
    assert(spec_addr_bytes(ip, port)[2] == spec_u32_be(ip)[2]);
    assert(spec_addr_bytes(ip, port)[3] == spec_u32_be(ip)[3]);
    assert(((((port >> 8u16) as u8) as u16) << 8u16) | ((port as u8) as u16) == port) by (bit_vector);
}

/// The bytes of the buffers `bufs`, one after another.
pub open spec fn spec_concat(bufs: Seq<Vec<u8>>) -> Seq<u8>
    decreases bufs.len(),
{
    if bufs.len() == 0 {
        Seq::empty()
    } else {
        bufs[0]@ + spec_concat(bufs.drop_first())
    }
}

/// Advances a list of buffers past `n` bytes: buffers that are wholly consumed
/// are removed, and the first remaining one loses its consumed prefix. `n` must
/// not exceed the total length.
pub fn advance_slices(bufs: &mut Vec<Vec<u8>>, n: usize)
    requires
        n <= spec_concat(old(bufs)@).len(),
    ensures
        spec_concat(final(bufs)@) == spec_concat(old(bufs)@).skip(n as int),
        final(bufs)@.len() > 0 ==> final(bufs)@[0]@.len() > 0,
{
    let mut remaining = n;
    loop
        invariant
            remaining <= spec_concat(bufs@).len(),
            spec_concat(bufs@).skip(remaining as int) == spec_concat(old(bufs)@).skip(n as int),
        ensures
            bufs@.len() > 0 ==> remaining < bufs@[0]@.len(),
            remaining <= spec_concat(bufs@).len(),
            spec_concat(bufs@).skip(remaining as int) == spec_concat(old(bufs)@).skip(n as int),
        decreases bufs@.len(),
    {
        if bufs.len() == 0 {
            break;
        }
        let first_len = bufs[0].len();
        if remaining < first_len {
            break;
        }
        let ghost before = bufs@;
        bufs.remove(0);
        proof {
            assert(bufs@ == before.drop_first());
            assert(spec_concat(before) == before[0]@ + spec_concat(bufs@));
            assert(spec_concat(before).skip(remaining as int) =~= spec_concat(bufs@).skip(remaining - first_len));
        }
        remaining = remaining - first_len;
    }
    if bufs.len() > 0 && remaining > 0 {
        let ghost before = bufs@;
        let first = bufs.remove(0);
        let mut rest: Vec<u8> = Vec::new();
        let mut i: usize = remaining;
        while i < first.len()
            invariant
                remaining <= i <= first@.len(),
                rest@ == first@.subrange(remaining as int, i as int),
            decreases first@.len() - i,
        {
            rest.push(first[i]);
            proof { assert(first@.subrange(remaining as int, i + 1) == first@.subrange(remaining as int, i as int).push(first@[i as int])); }
            i = i + 1;
        }
        bufs.insert(0, rest);
        proof {
            assert(spec_concat(before) == before[0]@ + spec_concat(before.drop_first()));
            assert(bufs@.drop_first() == before.drop_first());
            assert(spec_concat(bufs@) == bufs@[0]@ + spec_concat(before.drop_first()));
            assert(spec_concat(bufs@) =~= spec_concat(before).skip(remaining as int));
        }
    } else {
        proof {
            assert(spec_concat(bufs@).skip(0) == spec_concat(bufs@));
        }
    }
}

} // verus!
