//! The device header model: a base header shared by every device, and the
//! extended header that only PixelPusher controllers carry.
use crate::byte_order::U48_LIMIT;
use vstd::prelude::*;

verus! {

/// Wire code written for a device type outside the known set.
pub const UNKNOWN_CODE: u8 = 99;

#[derive(Debug, Clone, Copy, PartialEq, Eq, Structural)]
pub enum DeviceType {
    EtherDream,
    LumiaBridge,
    PixelPusher,
    Unknown,
}

/// The device type that a wire code stands for.
pub open spec fn type_of_code(code: u8) -> DeviceType {
    if code == 0 {
        DeviceType::EtherDream
    } else if code == 1 {
        DeviceType::LumiaBridge
    } else if code == 2 {
        DeviceType::PixelPusher
    } else {
        DeviceType::Unknown
    }
}

/// The wire code written for a device type.
pub open spec fn code_of_type(t: DeviceType) -> u8 {
    match t {
        DeviceType::EtherDream => 0,
        DeviceType::LumiaBridge => 1,
        DeviceType::PixelPusher => 2,
        DeviceType::Unknown => UNKNOWN_CODE,
    }
}

impl DeviceType {
    pub fn from_code(code: u8) -> (r: DeviceType)
        ensures
            r == type_of_code(code),
    {
        match code {
            0 => DeviceType::EtherDream,
            1 => DeviceType::LumiaBridge,
            2 => DeviceType::PixelPusher,
            _ => DeviceType::Unknown,
        }
    }

    pub fn code(&self) -> (r: u8)
        ensures
            r == code_of_type(*self),
    {
        match self {
            DeviceType::EtherDream => 0,
            DeviceType::LumiaBridge => 1,
            DeviceType::PixelPusher => 2,
            DeviceType::Unknown => UNKNOWN_CODE,
        }
    }
}

/// Fields that every device announces.
///
/// `hw_addr` is the 48-bit hardware address, its first octet most significant.
/// `ip_addr` is the reported IPv4 address as read from the wire.
#[derive(Debug, Clone, Copy, PartialEq, Eq, Structural)]
pub struct BaseHeader {
    pub hw_addr: u64,
    pub ip_addr: u32,
    pub device_type: DeviceType,
    pub protocol_version: u8,
    pub vendor_id: u16,
    pub product_id: u16,
    pub hw_revision: u16,
    pub sw_revision: u16,
    pub link_speed: u32,
}

/// The base header of a PixelPusher together with its extension fields.
#[derive(Debug, Clone, Copy, PartialEq, Eq, Structural)]
pub struct PixelPusherHeader {
    pub base: BaseHeader,
    pub strips_attached: u8,
    pub max_strips_per_packet: u8,
    pub pixels_per_strip: u16,
    pub update_period: u32,
    pub power_total: u32,
    pub delta_sequence: u32,
    pub controller: u32,
    pub group: u32,
    pub artnet_universe: u16,
    pub artnet_channel: u16,
    pub my_port: u16,
}

/// A decoded device header: the base fields alone, or a PixelPusher header.
#[derive(Debug, Clone, Copy, PartialEq, Eq, Structural)]
pub enum DeviceHeader {
    Base(BaseHeader),
    PixelPusher(PixelPusherHeader),
}

impl DeviceHeader {
    pub open spec fn base(self) -> BaseHeader {
        match self {
            DeviceHeader::Base(b) => b,
            DeviceHeader::PixelPusher(p) => p.base,
        }
    }

    /// The hardware address fits its six bytes, and the extension fields are
    /// present exactly when the device type is PixelPusher.
    pub open spec fn wf(self) -> bool {
        &&& self.base().hw_addr < U48_LIMIT
        &&& (self is PixelPusher <==> self.base().device_type == DeviceType::PixelPusher)
    }

    pub fn hw_addr(&self) -> (r: u64)
        ensures
            r == self.base().hw_addr,
    {
        match self {
            DeviceHeader::Base(b) => b.hw_addr,
            DeviceHeader::PixelPusher(p) => p.base.hw_addr,
        }
    }

    pub fn ip_addr(&self) -> (r: u32)
        ensures
            r == self.base().ip_addr,
    {
        match self {
            DeviceHeader::Base(b) => b.ip_addr,
            DeviceHeader::PixelPusher(p) => p.base.ip_addr,
        }
    }

    pub fn strips_attached(&self) -> (r: Option<u8>)
        ensures
            self is Base ==> r is None,
            self is PixelPusher ==> r == Some(self->PixelPusher_0.strips_attached),
    {
        match self {
            DeviceHeader::Base(_) => None,
            DeviceHeader::PixelPusher(p) => Some(p.strips_attached),
        }
    }

    pub fn pixels_per_strip(&self) -> (r: Option<u16>)
        ensures
            self is Base ==> r is None,
            self is PixelPusher ==> r == Some(self->PixelPusher_0.pixels_per_strip),
    {
        match self {
            DeviceHeader::Base(_) => None,
            DeviceHeader::PixelPusher(p) => Some(p.pixels_per_strip),
        }
    }

    pub fn controller(&self) -> (r: Option<u32>)
        ensures
            self is Base ==> r is None,
            self is PixelPusher ==> r == Some(self->PixelPusher_0.controller),
    {
        match self {
            DeviceHeader::Base(_) => None,
            DeviceHeader::PixelPusher(p) => Some(p.controller),
        }
    }

    pub fn group(&self) -> (r: Option<u32>)
        ensures
            self is Base ==> r is None,
            self is PixelPusher ==> r == Some(self->PixelPusher_0.group),
    {
        match self {
            DeviceHeader::Base(_) => None,
            DeviceHeader::PixelPusher(p) => Some(p.group),
        }
    }

    pub fn device_type(&self) -> (r: DeviceType)
        ensures
            r == self.base().device_type,
    {
        match self {
            DeviceHeader::Base(b) => b.device_type,
            DeviceHeader::PixelPusher(p) => p.base.device_type,
        }
    }
}

} // verus!
