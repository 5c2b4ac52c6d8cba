use pixelpusher::{parse_header, BaseHeader, DecodeError, DeviceHeader, DeviceType, PixelPusherHeader};

fn sample_base(device_type: DeviceType) -> BaseHeader {
    BaseHeader {
        hw_addr: 0xAABB_CC00_0102,
        ip_addr: 0x0A00_00C0,
        device_type,
        protocol_version: 7,
        vendor_id: 0x1234,
        product_id: 0x5678,
        hw_revision: 3,
        sw_revision: 0x0102,
        link_speed: 100_000_000,
    }
}

fn sample_pixelpusher() -> PixelPusherHeader {
    PixelPusherHeader {
        base: sample_base(DeviceType::PixelPusher),
        strips_attached: 2,
        max_strips_per_packet: 4,
        pixels_per_strip: 30,
        update_period: 1000,
        power_total: 0xDEAD_BEEF,
        delta_sequence: 5,
        controller: 11,
        group: 12,
        artnet_universe: 0x0102,
        artnet_channel: 0x0304,
        my_port: 9897,
    }
}

fn encoded(h: &DeviceHeader) -> Vec<u8> {
    let mut out = Vec::new();
    h.serialize(&mut out);
    out
}

#[test]
fn it_works() {
    assert_eq!(2 + 2, 4);
}

#[test]
fn base_header_layout_is_little_endian() {
    let bytes = encoded(&DeviceHeader::Base(sample_base(DeviceType::LumiaBridge)));
    assert_eq!(bytes.len(), 84);
    assert_eq!(&bytes[0..6], &[0xAA, 0xBB, 0xCC, 0x00, 0x01, 0x02]);
    assert_eq!(&bytes[6..10], &[0xC0, 0x00, 0x00, 0x0A]);
    assert_eq!(bytes[10], 1);
    assert_eq!(bytes[11], 7);
    assert_eq!(&bytes[12..14], &[0x34, 0x12]);
    assert_eq!(&bytes[14..16], &[0x78, 0x56]);
    assert_eq!(&bytes[16..18], &[3, 0]);
    assert_eq!(&bytes[18..20], &[0x02, 0x01]);
    assert_eq!(&bytes[20..24], &[0x00, 0xE1, 0xF5, 0x05]);
    assert!(bytes[24..].iter().all(|b| *b == 0));
}

#[test]
fn serialize_appends_to_existing_bytes() {
    let mut out = vec![9u8, 8];
    DeviceHeader::Base(sample_base(DeviceType::EtherDream)).serialize(&mut out);
    assert_eq!(out.len(), 86);
    assert_eq!(&out[0..2], &[9, 8]);
    assert_eq!(out[2], 0xAA);
    assert_eq!(out[12], 0);
}

#[test]
fn pixelpusher_extension_layout() {
    let bytes = encoded(&DeviceHeader::PixelPusher(sample_pixelpusher()));
    assert_eq!(bytes.len(), 84);
    assert_eq!(bytes[10], 2);
    assert_eq!(bytes[24], 2);
    assert_eq!(bytes[25], 4);
    assert_eq!(&bytes[26..28], &[30, 0]);
    assert_eq!(&bytes[28..32], &[0xE8, 0x03, 0, 0]);
    assert_eq!(&bytes[32..36], &[0xEF, 0xBE, 0xAD, 0xDE]);
    assert_eq!(&bytes[36..40], &[5, 0, 0, 0]);
    assert_eq!(&bytes[40..44], &[11, 0, 0, 0]);
    assert_eq!(&bytes[44..48], &[12, 0, 0, 0]);
    assert_eq!(&bytes[48..50], &[0x02, 0x01]);
    assert_eq!(&bytes[50..52], &[0x04, 0x03]);
    assert_eq!(&bytes[52..54], &[0xA9, 0x26]);
    assert!(bytes[54..].iter().all(|b| *b == 0));
}

#[test]
fn decode_reads_each_field() {
    let mut buf = [0u8; 84];
    buf[0..6].copy_from_slice(&[0x11, 0x22, 0x33, 0x44, 0x55, 0x66]);
    buf[6..10].copy_from_slice(&[1, 2, 3, 4]);
    buf[10] = 0;
    buf[11] = 9;
    buf[12..14].copy_from_slice(&[0x01, 0x02]);
    buf[20..24].copy_from_slice(&[0x78, 0x56, 0x34, 0x12]);
    let h = parse_header(&buf).unwrap();
    assert_eq!(
        h,
        DeviceHeader::Base(BaseHeader {
            hw_addr: 0x1122_3344_5566,
            ip_addr: 0x0403_0201,
            device_type: DeviceType::EtherDream,
            protocol_version: 9,
            vendor_id: 0x0201,
            product_id: 0,
            hw_revision: 0,
            sw_revision: 0,
            link_speed: 0x1234_5678,
        })
    );
    assert_eq!(h.hw_addr(), 0x1122_3344_5566);
    assert_eq!(h.ip_addr(), 0x0403_0201);
    assert_eq!(h.device_type(), DeviceType::EtherDream);
    assert_eq!(h.strips_attached(), None);
}

#[test]
fn round_trip_base_and_pixelpusher() {
    for t in [DeviceType::EtherDream, DeviceType::LumiaBridge, DeviceType::Unknown] {
        let h = DeviceHeader::Base(sample_base(t));
        assert_eq!(parse_header(&encoded(&h)), Ok(h));
    }
    let p = DeviceHeader::PixelPusher(sample_pixelpusher());
    assert_eq!(parse_header(&encoded(&p)), Ok(p));
    assert_eq!(p.strips_attached(), Some(2));
    assert_eq!(p.pixels_per_strip(), Some(30));
    assert_eq!(p.controller(), Some(11));
    assert_eq!(p.group(), Some(12));
}

#[test]
fn dispatch_over_every_type_code() {
    for code in 0..=255u8 {
        let mut buf = [0u8; 84];
        buf[10] = code;
        buf[24] = 5;
        let h = parse_header(&buf).unwrap();
        let expected = match code {
            0 => DeviceType::EtherDream,
            1 => DeviceType::LumiaBridge,
            2 => DeviceType::PixelPusher,
            _ => DeviceType::Unknown,
        };
        assert_eq!(h.device_type(), expected);
        assert_eq!(DeviceType::from_code(code), expected);
        match h {
            DeviceHeader::PixelPusher(p) => {
                assert_eq!(code, 2);
                assert_eq!(p.strips_attached, 5);
            }
            DeviceHeader::Base(_) => assert_ne!(code, 2),
        }
    }
}

#[test]
fn unknown_type_encodes_as_code_ninety_nine() {
    assert_eq!(DeviceType::Unknown.code(), 99);
    assert_eq!(DeviceType::PixelPusher.code(), 2);
}

#[test]
fn short_buffers_are_truncated() {
    for len in 0..84usize {
        let buf = vec![2u8; len];
        assert_eq!(parse_header(&buf), Err(DecodeError::Truncated));
    }
    assert!(parse_header(&[2u8; 84]).is_ok());
    assert!(parse_header(&[0u8; 200]).is_ok());
}
