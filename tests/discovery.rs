use pixelpusher::{
    filter_by_type, parse_header, BaseHeader, DecodeError, DeviceHeader, DeviceType, DiscoverySession,
    Observation, PixelPusherHeader, Step,
};

fn datagram(mac: [u8; 6], code: u8, strips: u8, pixels: u16) -> Vec<u8> {
    let mut buf = vec![0u8; 84];
    buf[0..6].copy_from_slice(&mac);
    buf[10] = code;
    buf[24] = strips;
    buf[26..28].copy_from_slice(&pixels.to_le_bytes());
    buf
}

fn base(hw_addr: u64, device_type: DeviceType, link_speed: u32) -> DeviceHeader {
    DeviceHeader::Base(BaseHeader {
        hw_addr,
        ip_addr: 0,
        device_type,
        protocol_version: 0,
        vendor_id: 0,
        product_id: 0,
        hw_revision: 0,
        sw_revision: 0,
        link_speed,
    })
}

#[test]
fn test_discover() {
    let mut session = DiscoverySession::start(0, 3);
    assert_eq!(session.poll(3000), Step::Stop);
    let headers = session.finish();
    assert!(headers.is_empty());
}

#[test]
fn two_devices_in_arrival_order() {
    let mut session = DiscoverySession::start(1_000, 3);
    assert_eq!(session.poll(1_000), Step::Wait(3_000));
    let first = parse_header(&datagram([0xAA, 0xBB, 0xCC, 0x00, 0x01, 0x02], 2, 2, 30));
    let second = parse_header(&datagram([0x11, 0x22, 0x33, 0x44, 0x55, 0x66], 1, 0, 0));
    assert_eq!(session.receive(first), Observation::Added);
    assert_eq!(session.poll(2_500), Step::Wait(1_500));
    assert_eq!(session.receive(second), Observation::Added);
    assert_eq!(session.poll(4_000), Step::Stop);
    let all = session.finish();
    assert_eq!(all.len(), 2);
    assert_eq!(all[0].device_type(), DeviceType::PixelPusher);
    assert_eq!(all[0].hw_addr(), 0xAABB_CC00_0102);
    assert_eq!(all[0].strips_attached(), Some(2));
    assert_eq!(all[0].pixels_per_strip(), Some(30));
    assert_eq!(all[1].device_type(), DeviceType::LumiaBridge);
    assert_eq!(all[1].hw_addr(), 0x1122_3344_5566);
    assert!(matches!(all[1], DeviceHeader::Base(_)));
    let pushers = filter_by_type(&all, DeviceType::PixelPusher);
    assert_eq!(pushers, vec![all[0]]);
}

#[test]
fn repeated_address_keeps_first_header() {
    let mut session = DiscoverySession::start(0, 10);
    assert_eq!(session.receive(Ok(base(5, DeviceType::EtherDream, 1))), Observation::Added);
    assert_eq!(session.receive(Ok(base(5, DeviceType::EtherDream, 2))), Observation::Duplicate);
    assert_eq!(session.receive(Ok(base(6, DeviceType::Unknown, 3))), Observation::Added);
    assert_eq!(session.receive(Ok(base(5, DeviceType::LumiaBridge, 4))), Observation::Duplicate);
    assert_eq!(session.receive(Ok(base(6, DeviceType::Unknown, 5))), Observation::Duplicate);
    let all = session.finish();
    assert_eq!(all, vec![base(5, DeviceType::EtherDream, 1), base(6, DeviceType::Unknown, 3)]);
}

#[test]
fn decode_failure_is_reported_and_skipped() {
    let mut session = DiscoverySession::start(0, 1);
    let bad = parse_header(&[0u8; 10]);
    assert_eq!(session.receive(bad), Observation::DecodeFailed(DecodeError::Truncated));
    assert_eq!(session.poll(10), Step::Wait(990));
    assert_eq!(session.receive(Ok(base(1, DeviceType::EtherDream, 0))), Observation::Added);
    assert_eq!(session.finish(), vec![base(1, DeviceType::EtherDream, 0)]);
}

#[test]
fn session_never_listens_again_after_deadline() {
    let mut session = DiscoverySession::start(500, 2);
    assert_eq!(session.poll(2_499), Step::Wait(1));
    assert_eq!(session.poll(2_500), Step::Stop);
    assert_eq!(session.poll(0), Step::Stop);
    assert_eq!(session.poll(1_000), Step::Stop);
}

#[test]
fn deadline_saturates() {
    let mut session = DiscoverySession::start(u64::MAX - 5, 1);
    assert_eq!(session.poll(u64::MAX - 1), Step::Wait(1));
    let mut long = DiscoverySession::start(7, u64::MAX);
    assert_eq!(long.poll(7), Step::Wait(u64::MAX - 7));
}

#[test]
fn zero_timeout_stops_at_once() {
    let mut session = DiscoverySession::start(42, 0);
    assert_eq!(session.poll(42), Step::Stop);
    assert!(session.finish().is_empty());
}

#[test]
fn filter_keeps_order_and_type() {
    let pp = |addr: u64| {
        DeviceHeader::PixelPusher(PixelPusherHeader {
            base: match base(addr, DeviceType::PixelPusher, 0) {
                DeviceHeader::Base(b) => b,
                DeviceHeader::PixelPusher(p) => p.base,
            },
            strips_attached: 1,
            max_strips_per_packet: 1,
            pixels_per_strip: 1,
            update_period: 0,
            power_total: 0,
            delta_sequence: 0,
            controller: 0,
            group: 0,
            artnet_universe: 0,
            artnet_channel: 0,
            my_port: 0,
        })
    };
    let all = vec![pp(3), base(1, DeviceType::EtherDream, 0), pp(9), base(2, DeviceType::Unknown, 0), pp(4)];
    assert_eq!(filter_by_type(&all, DeviceType::PixelPusher), vec![pp(3), pp(9), pp(4)]);
    assert_eq!(filter_by_type(&all, DeviceType::Unknown), vec![base(2, DeviceType::Unknown, 0)]);
    assert!(filter_by_type(&all, DeviceType::LumiaBridge).is_empty());
    assert!(filter_by_type(&Vec::new(), DeviceType::PixelPusher).is_empty());
}
