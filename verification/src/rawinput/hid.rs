//! HID usage pages and usages that pens and tablet pads report.
use vstd::prelude::*;

verus! {

/// Generic Desktop page, home of the position.
pub const PAGE_GENERIC_DESKTOP: u16 = 0x01;

/// Consumer page, home of tablet pads that pose as media keys.
pub const PAGE_CONSUMER: u16 = 0x0C;

/// Digitizer page, home of pressure, orientation and switches.
pub const PAGE_DIGITIZER: u16 = 0x0D;

/// First of the vendor-defined pages; they run to the last page.
pub const PAGE_VENDOR_FIRST: u16 = 0xFF00;

/// Position, on the Generic Desktop page.
pub const USAGE_X: u16 = 0x30;

pub const USAGE_Y: u16 = 0x31;

/// Top-level collection of a media-key device, on the Consumer page.
pub const USAGE_CONSUMER_CONTROL: u16 = 0x01;

/// Top-level collections of tablets, on the Digitizer page.
pub const TLC_DIGITIZER: u16 = 0x01;

pub const TLC_PEN: u16 = 0x02;

/// Pressure on the tip.
pub const USAGE_TIP_PRESSURE: u16 = 0x30;

/// Pressure on the barrel, as of an airbrush wheel.
pub const USAGE_BARREL_PRESSURE: u16 = 0x31;

/// Is the tool in range?
pub const USAGE_IN_RANGE: u16 = 0x32;

/// Does the eraser end point at the surface?
pub const USAGE_INVERT: u16 = 0x3C;

/// Tilt in degrees.
pub const USAGE_X_TILT: u16 = 0x3D;

pub const USAGE_Y_TILT: u16 = 0x3E;

/// Compass angle and angle from the surface, in place of tilt.
pub const USAGE_AZIMUTH: u16 = 0x3F;

pub const USAGE_ALTITUDE: u16 = 0x40;

/// Rotation about the barrel.
pub const USAGE_TWIST: u16 = 0x41;

/// Is the tip pressed down?
pub const USAGE_TIP_SWITCH: u16 = 0x42;

/// Is the side button pressed?
pub const USAGE_BARREL_SWITCH: u16 = 0x44;

/// Is the eraser pressed down?
pub const USAGE_ERASER: u16 = 0x45;

/// Bits of the switches in a sample.
pub const BUTTON_BIT_TIP: u32 = 0;

pub const BUTTON_BIT_BARREL: u32 = 1;

pub const BUTTON_BIT_ERASER: u32 = 2;

/// Is this a vendor-defined page?
pub fn is_vendor_page(page: u16) -> (r: bool)
    ensures
        r == (page >= PAGE_VENDOR_FIRST),
{
    page >= PAGE_VENDOR_FIRST
}

/// The pages from 0xFF00 on belong to vendors.
pub proof fn vendor_pages_come_last(page: u16, r: bool)
    requires
        call_ensures(is_vendor_page, (page,), r),
    ensures
        r <==> page >= 0xFF00,
{
}

} // verus!
