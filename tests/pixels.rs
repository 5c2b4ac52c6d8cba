use pixelpusher::{BaseHeader, Color, DeviceType, PixelError, PixelPusher, PixelPusherHeader};

fn header(strips_attached: u8, pixels_per_strip: u16) -> PixelPusherHeader {
    PixelPusherHeader {
        base: BaseHeader {
            hw_addr: 1,
            ip_addr: 0,
            device_type: DeviceType::PixelPusher,
            protocol_version: 0,
            vendor_id: 0,
            product_id: 0,
            hw_revision: 0,
            sw_revision: 0,
            link_speed: 0,
        },
        strips_attached,
        max_strips_per_packet: 8,
        pixels_per_strip,
        update_period: 0,
        power_total: 0,
        delta_sequence: 0,
        controller: 0,
        group: 0,
        artnet_universe: 0,
        artnet_channel: 0,
        my_port: 0,
    }
}

const RED: Color = Color { red: 255, green: 10, blue: 1 };

#[test]
fn set_color_writes_one_pixel() {
    let mut pusher = PixelPusher::new(header(2, 30));
    assert_eq!(pusher.color_at(1, 29), Some(Color { red: 0, green: 0, blue: 0 }));
    assert_eq!(pusher.set_color(1, 29, RED), Ok(()));
    assert_eq!(pusher.color_at(1, 29), Some(RED));
    assert_eq!(pusher.color_at(1, 28), Some(Color { red: 0, green: 0, blue: 0 }));
    assert_eq!(pusher.color_at(0, 29), Some(Color { red: 0, green: 0, blue: 0 }));
    assert_eq!(pusher.header(), header(2, 30));
}

#[test]
fn set_color_refuses_strip_out_of_range() {
    let mut pusher = PixelPusher::new(header(2, 30));
    assert_eq!(pusher.set_color(2, 0, RED), Err(PixelError::OutOfRange));
    assert_eq!(pusher.color_at(2, 0), None);
    assert_eq!(pusher.color_at(1, 0), Some(Color { red: 0, green: 0, blue: 0 }));
}

#[test]
fn set_color_refuses_pixel_out_of_range() {
    let mut pusher = PixelPusher::new(header(2, 30));
    assert_eq!(pusher.set_color(0, 30, RED), Err(PixelError::OutOfRange));
    assert_eq!(pusher.set_color(0, 255, RED), Err(PixelError::OutOfRange));
    for pixel in 0..30u8 {
        assert_eq!(pusher.color_at(0, pixel), Some(Color { red: 0, green: 0, blue: 0 }));
    }
}

#[test]
fn set_color_refuses_strips_beyond_buffer() {
    let mut pusher = PixelPusher::new(header(12, 480));
    assert_eq!(pusher.set_color(7, 255, RED), Ok(()));
    assert_eq!(pusher.set_color(8, 0, RED), Err(PixelError::OutOfRange));
    assert_eq!(pusher.color_at(7, 255), Some(RED));
}

#[test]
fn no_strips_means_no_pixels() {
    let mut pusher = PixelPusher::new(header(0, 30));
    assert_eq!(pusher.set_color(0, 0, RED), Err(PixelError::OutOfRange));
}
