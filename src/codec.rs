//! The fixed-size wire header: decoding, encoding, and the laws that tie them.
use crate::byte_order::{
    be48, be48_bytes, le16, le16_bytes, le32, le32_bytes, lemma_be48_bound, lemma_be48_round_trip,
    lemma_le16_round_trip, lemma_le32_round_trip, push_u16_le, push_u32_le, push_u48_be,
    read_u16_le, read_u32_le, read_u48_be,
};
use crate::device::{
    code_of_type, type_of_code, BaseHeader, DeviceHeader, DeviceType, PixelPusherHeader,
};
use vstd::prelude::*;
use vstd::slice::slice_subrange;

verus! {

/// Size in bytes of every header on the wire.
pub const HEADER_LEN: usize = 84;

/// Size in bytes of the base header region.
pub const BASE_LEN: usize = 24;

/// Size in bytes of the PixelPusher extension that follows the base region.
pub const EXTENSION_LEN: usize = 30;

#[derive(Debug, Clone, Copy, PartialEq, Eq, Structural)]
pub enum DecodeError {
    /// Fewer bytes than a full header.
    Truncated,
}

/// The base fields of a header, read from its first bytes.
#[verifier::opaque]
pub open spec fn base_of(b: Seq<u8>) -> BaseHeader {
    BaseHeader {
        hw_addr: be48(b[0], b[1], b[2], b[3], b[4], b[5]),
        ip_addr: le32(b[6], b[7], b[8], b[9]),
        device_type: type_of_code(b[10]),
        protocol_version: b[11],
        vendor_id: le16(b[12], b[13]),
        product_id: le16(b[14], b[15]),
        hw_revision: le16(b[16], b[17]),
        sw_revision: le16(b[18], b[19]),
        link_speed: le32(b[20], b[21], b[22], b[23]),
    }
}

/// A PixelPusher header made of the given base and the extension read from
/// bytes 24 to 53 of a buffer.
#[verifier::opaque]
pub open spec fn pixelpusher_with(base: BaseHeader, b: Seq<u8>) -> PixelPusherHeader {
    PixelPusherHeader {
        base,
        strips_attached: b[24],
        max_strips_per_packet: b[25],
        pixels_per_strip: le16(b[26], b[27]),
        update_period: le32(b[28], b[29], b[30], b[31]),
        power_total: le32(b[32], b[33], b[34], b[35]),
        delta_sequence: le32(b[36], b[37], b[38], b[39]),
        controller: le32(b[40], b[41], b[42], b[43]),
        group: le32(b[44], b[45], b[46], b[47]),
        artnet_universe: le16(b[48], b[49]),
        artnet_channel: le16(b[50], b[51]),
        my_port: le16(b[52], b[53]),
    }
}

/// The PixelPusher header of a buffer: its own base and its extension.
pub open spec fn pixelpusher_of(b: Seq<u8>) -> PixelPusherHeader {
    pixelpusher_with(base_of(b), b)
}

/// What a buffer decodes to: too short a buffer is truncated; otherwise the
/// device-type byte decides whether the extension is read.
pub open spec fn decode(b: Seq<u8>) -> Result<DeviceHeader, DecodeError> {
    if b.len() < HEADER_LEN {
        Err(DecodeError::Truncated)
    } else if type_of_code(b[10]) == DeviceType::PixelPusher {
        Ok(DeviceHeader::PixelPusher(pixelpusher_of(b)))
    } else {
        Ok(DeviceHeader::Base(base_of(b)))
    }
}

pub open spec fn zeros(n: nat) -> Seq<u8> {
    Seq::new(n, |i: int| 0u8)
}

#[verifier::opaque]
pub open spec fn base_bytes(h: BaseHeader) -> Seq<u8> {
    be48_bytes(h.hw_addr) + le32_bytes(h.ip_addr) + seq![
        code_of_type(h.device_type),
        h.protocol_version,
    ] + le16_bytes(h.vendor_id) + le16_bytes(h.product_id) + le16_bytes(h.hw_revision)
        + le16_bytes(h.sw_revision) + le32_bytes(h.link_speed)
}

#[verifier::opaque]
pub open spec fn extension_bytes(p: PixelPusherHeader) -> Seq<u8> {
    seq![p.strips_attached, p.max_strips_per_packet] + le16_bytes(p.pixels_per_strip)
        + le32_bytes(p.update_period) + le32_bytes(p.power_total) + le32_bytes(
        p.delta_sequence,
    ) + le32_bytes(p.controller) + le32_bytes(p.group) + le16_bytes(p.artnet_universe)
        + le16_bytes(p.artnet_channel) + le16_bytes(p.my_port)
}

/// The full wire image of a header, padded with zeros to the fixed size.
pub open spec fn encode(h: DeviceHeader) -> Seq<u8> {
    match h {
        DeviceHeader::Base(b) => base_bytes(b) + zeros((HEADER_LEN - BASE_LEN) as nat),
        DeviceHeader::PixelPusher(p) => base_bytes(p.base) + extension_bytes(p) + zeros(
            (HEADER_LEN - BASE_LEN - EXTENSION_LEN) as nat,
        ),
    }
}

/// Decodes a header from a received datagram.
pub fn parse_header(buf: &[u8]) -> (r: Result<DeviceHeader, DecodeError>)
    ensures
        r == decode(buf@),
        buf@.len() < HEADER_LEN <==> r == Err::<DeviceHeader, DecodeError>(
            DecodeError::Truncated,
        ),
{
    if buf.len() < HEADER_LEN {
        return Err(DecodeError::Truncated);
    }
    let base = BaseHeader {
        hw_addr: read_u48_be(slice_subrange(buf, 0, 6)),
        ip_addr: read_u32_le(slice_subrange(buf, 6, 10)),
        device_type: DeviceType::from_code(buf[10]),
        protocol_version: buf[11],
        vendor_id: read_u16_le(slice_subrange(buf, 12, 14)),
        product_id: read_u16_le(slice_subrange(buf, 14, 16)),
        hw_revision: read_u16_le(slice_subrange(buf, 16, 18)),
        sw_revision: read_u16_le(slice_subrange(buf, 18, 20)),
        link_speed: read_u32_le(slice_subrange(buf, 20, 24)),
    };
    proof {
        reveal(base_of);
    }
    assert(base == base_of(buf@));
    match base.device_type {
        DeviceType::PixelPusher => Ok(DeviceHeader::PixelPusher(parse_pixelpusher_header(base, buf))),
        _ => Ok(DeviceHeader::Base(base)),
    }
}

/// Reads the PixelPusher extension that follows a decoded base header.
fn parse_pixelpusher_header(base: BaseHeader, buf: &[u8]) -> (r: PixelPusherHeader)
    requires
        buf@.len() >= HEADER_LEN,
    ensures
        r == pixelpusher_with(base, buf@),
        r.base == base,
{
    proof {
        reveal(pixelpusher_with);
    }
    let r = PixelPusherHeader {
        base,
        strips_attached: buf[24],
        max_strips_per_packet: buf[25],
        pixels_per_strip: read_u16_le(slice_subrange(buf, 26, 28)),
        update_period: read_u32_le(slice_subrange(buf, 28, 32)),
        power_total: read_u32_le(slice_subrange(buf, 32, 36)),
        delta_sequence: read_u32_le(slice_subrange(buf, 36, 40)),
        controller: read_u32_le(slice_subrange(buf, 40, 44)),
        group: read_u32_le(slice_subrange(buf, 44, 48)),
        artnet_universe: read_u16_le(slice_subrange(buf, 48, 50)),
        artnet_channel: read_u16_le(slice_subrange(buf, 50, 52)),
        my_port: read_u16_le(slice_subrange(buf, 52, 54)),
    };
    r
}


/// Appends `n` zero bytes.
fn push_zeros(out: &mut Vec<u8>, n: usize)
    ensures
        final(out)@ == old(out)@ + zeros(n as nat),
{
    let ghost start = out@;
    let mut i: usize = 0;
    while i < n
        invariant
            i <= n,
            out@ == start + zeros(i as nat),
        decreases n - i,
    {
        out.push(0u8);
        i = i + 1;
        assert(out@ =~= start + zeros(i as nat));
    }
}

fn push_base(out: &mut Vec<u8>, h: &BaseHeader)
    requires
        h.hw_addr < crate::byte_order::U48_LIMIT,
    ensures
        final(out)@ == old(out)@ + base_bytes(*h),
{
    proof {
        reveal(base_bytes);
    }
    let ghost start = out@;
    push_u48_be(out, h.hw_addr);
    push_u32_le(out, h.ip_addr);
    out.push(h.device_type.code());
    out.push(h.protocol_version);
    push_u16_le(out, h.vendor_id);
    push_u16_le(out, h.product_id);
    push_u16_le(out, h.hw_revision);
    push_u16_le(out, h.sw_revision);
    push_u32_le(out, h.link_speed);
    assert(out@ =~= start + base_bytes(*h));
}

fn push_extension(out: &mut Vec<u8>, p: &PixelPusherHeader)
    ensures
        final(out)@ == old(out)@ + extension_bytes(*p),
{
    proof {
        reveal(extension_bytes);
    }
    let ghost start = out@;
    out.push(p.strips_attached);
    out.push(p.max_strips_per_packet);
    push_u16_le(out, p.pixels_per_strip);
    push_u32_le(out, p.update_period);
    push_u32_le(out, p.power_total);
    push_u32_le(out, p.delta_sequence);
    push_u32_le(out, p.controller);
    push_u32_le(out, p.group);
    push_u16_le(out, p.artnet_universe);
    push_u16_le(out, p.artnet_channel);
    push_u16_le(out, p.my_port);
    assert(out@ =~= start + extension_bytes(*p));
}

impl DeviceHeader {
    /// Appends the wire image of this header to `out`.
    pub fn serialize(&self, out: &mut Vec<u8>)
        requires
            self.base().hw_addr < crate::byte_order::U48_LIMIT,
        ensures
            final(out)@ == old(out)@ + encode(*self),
    {
        let ghost start = out@;
        match self {
            DeviceHeader::Base(b) => {
                push_base(out, b);
                push_zeros(out, HEADER_LEN - BASE_LEN);
            },
            DeviceHeader::PixelPusher(p) => {
                push_base(out, &p.base);
                push_extension(out, p);
                push_zeros(out, HEADER_LEN - BASE_LEN - EXTENSION_LEN);
            },
        }
        assert(out@ =~= start + encode(*self));
    }
}

#[verifier::rlimit(50)]
proof fn lemma_base_round_trip(h: BaseHeader, rest: Seq<u8>)
    requires
        h.hw_addr < crate::byte_order::U48_LIMIT,
    ensures
        base_bytes(h).len() == BASE_LEN,
        base_of(base_bytes(h) + rest) == h,
        (base_bytes(h) + rest)[10] == code_of_type(h.device_type),
{
    reveal(base_of);
    reveal(base_bytes);
    let b = base_bytes(h) + rest;
    lemma_be48_round_trip(h.hw_addr);
    lemma_le32_round_trip(h.ip_addr);
    lemma_le16_round_trip(h.vendor_id);
    lemma_le16_round_trip(h.product_id);
    lemma_le16_round_trip(h.hw_revision);
    lemma_le16_round_trip(h.sw_revision);
    lemma_le32_round_trip(h.link_speed);
    let m = be48_bytes(h.hw_addr);
    let ip = le32_bytes(h.ip_addr);
    let v = le16_bytes(h.vendor_id);
    let pr = le16_bytes(h.product_id);
    let hw = le16_bytes(h.hw_revision);
    let sw = le16_bytes(h.sw_revision);
    let ls = le32_bytes(h.link_speed);
    assert(b.subrange(0, 6) =~= m);
    assert(b.subrange(6, 10) =~= ip);
    assert(b.subrange(12, 14) =~= v);
    assert(b.subrange(14, 16) =~= pr);
    assert(b.subrange(16, 18) =~= hw);
    assert(b.subrange(18, 20) =~= sw);
    assert(b.subrange(20, 24) =~= ls);
    assert(type_of_code(code_of_type(h.device_type)) == h.device_type);
    assert(base_of(b) =~= h);
}

#[verifier::rlimit(50)]
proof fn lemma_extension_round_trip(p: PixelPusherHeader, front: Seq<u8>, rest: Seq<u8>)
    requires
        front.len() == BASE_LEN,
        front == base_bytes(p.base),
        p.base.hw_addr < crate::byte_order::U48_LIMIT,
    ensures
        extension_bytes(p).len() == EXTENSION_LEN,
        pixelpusher_of(front + extension_bytes(p) + rest) == p,
{
    reveal(pixelpusher_with);
    reveal(extension_bytes);
    let b = front + extension_bytes(p) + rest;
    assert(b == base_bytes(p.base) + (extension_bytes(p) + rest));
    lemma_base_round_trip(p.base, extension_bytes(p) + rest);
    lemma_le16_round_trip(p.pixels_per_strip);
    lemma_le32_round_trip(p.update_period);
    lemma_le32_round_trip(p.power_total);
    lemma_le32_round_trip(p.delta_sequence);
    lemma_le32_round_trip(p.controller);
    lemma_le32_round_trip(p.group);
    lemma_le16_round_trip(p.artnet_universe);
    lemma_le16_round_trip(p.artnet_channel);
    lemma_le16_round_trip(p.my_port);
    assert(b.subrange(26, 28) =~= le16_bytes(p.pixels_per_strip));
    assert(b.subrange(28, 32) =~= le32_bytes(p.update_period));
    assert(b.subrange(32, 36) =~= le32_bytes(p.power_total));
    assert(b.subrange(36, 40) =~= le32_bytes(p.delta_sequence));
    assert(b.subrange(40, 44) =~= le32_bytes(p.controller));
    assert(b.subrange(44, 48) =~= le32_bytes(p.group));
    assert(b.subrange(48, 50) =~= le16_bytes(p.artnet_universe));
    assert(b.subrange(50, 52) =~= le16_bytes(p.artnet_channel));
    assert(b.subrange(52, 54) =~= le16_bytes(p.my_port));
    assert(b[24] == p.strips_attached);
    assert(b[25] == p.max_strips_per_packet);
    assert(pixelpusher_of(b) =~= p);
}

/// Decoding the encoding of a well-formed header gives that header back.
pub proof fn lemma_decode_encode(h: DeviceHeader)
    requires
        h.wf(),
    ensures
        encode(h).len() == HEADER_LEN,
        decode(encode(h)) == Ok::<DeviceHeader, DecodeError>(h),
{
    let e = encode(h);
    match h {
        DeviceHeader::Base(b) => {
            let rest = zeros((HEADER_LEN - BASE_LEN) as nat);
            assert(e == base_bytes(b) + rest);
            lemma_base_round_trip(b, rest);
            assert(e.len() == HEADER_LEN);
            assert(type_of_code(e[10]) != DeviceType::PixelPusher);
            assert(decode(e) == Ok::<DeviceHeader, DecodeError>(DeviceHeader::Base(base_of(e))));
        },
        DeviceHeader::PixelPusher(p) => {
            let rest = zeros((HEADER_LEN - BASE_LEN - EXTENSION_LEN) as nat);
            let front = base_bytes(p.base);
            assert(e == front + extension_bytes(p) + rest);
            lemma_base_round_trip(p.base, extension_bytes(p) + rest);
            assert(e =~= front + (extension_bytes(p) + rest));
            lemma_extension_round_trip(p, front, rest);
            assert(extension_bytes(p).len() == EXTENSION_LEN);
            assert(e.len() == HEADER_LEN);
            assert(type_of_code(e[10]) == DeviceType::PixelPusher);
            assert(decode(e) == Ok::<DeviceHeader, DecodeError>(
                DeviceHeader::PixelPusher(pixelpusher_of(e)),
            ));
        },
    }
}

/// Every buffer of full size decodes without error; codes 0, 1 and 2 give
/// EtherDream, LumiaBridge and PixelPusher, every other code gives Unknown, and
/// the extension is read exactly for code 2.
pub proof fn lemma_decode_dispatch(b: Seq<u8>)
    requires
        b.len() >= HEADER_LEN,
    ensures
        decode(b) is Ok,
        decode(b)->Ok_0.base() == base_of(b),
        b[10] == 0 ==> decode(b)->Ok_0.base().device_type == DeviceType::EtherDream,
        b[10] == 1 ==> decode(b)->Ok_0.base().device_type == DeviceType::LumiaBridge,
        b[10] == 2 ==> decode(b)->Ok_0.base().device_type == DeviceType::PixelPusher,
        b[10] > 2 ==> decode(b)->Ok_0.base().device_type == DeviceType::Unknown,
        decode(b)->Ok_0 is PixelPusher <==> b[10] == 2,
        decode(b)->Ok_0 is PixelPusher ==> decode(b)->Ok_0 == DeviceHeader::PixelPusher(
            pixelpusher_of(b),
        ),
        decode(b)->Ok_0.wf(),
{
    reveal(base_of);
    reveal(pixelpusher_with);
    lemma_be48_bound(b[0], b[1], b[2], b[3], b[4], b[5]);
}

} // verus!
