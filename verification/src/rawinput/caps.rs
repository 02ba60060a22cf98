//! What the report descriptor of a tablet promises.
use vstd::prelude::*;

use crate::device::capabilities::{AxisInfo, AxisUnit, DeviceCapabilities};
use crate::double::Double;

verus! {

/// Range and width of one value field.
#[derive(Clone, Copy, Debug, PartialEq, Eq, Structural)]
pub struct AxisRange {
    /// Smallest logical value.
    pub min: i32,
    /// Largest logical value.
    pub max: i32,
    /// Logical values per physical unit; zero if unknown.
    pub resolution: Double,
    /// Width of the field in bits.
    pub bit_size: u16,
}

impl AxisRange {
    /// A range of unknown resolution and width.
    pub fn new(min: i32, max: i32) -> (r: AxisRange)
        ensures
            r == (AxisRange { min, max, resolution: Double::zero_spec(), bit_size: 0 }),
    {
        AxisRange { min, max, resolution: Double::zero(), bit_size: 0 }
    }

    /// Can the field be negative?
    pub open spec fn signed(self) -> bool {
        self.min < 0
    }

    /// Can the field be negative?
    pub fn is_signed(&self) -> (r: bool)
        ensures
            r == self.signed(),
    {
        self.min < 0
    }
}

/// Which part of a tablet a descriptor describes.
#[derive(Clone, Copy, Debug, PartialEq, Eq, Structural)]
pub enum ProfileKind {
    /// The surface, with its pen.
    Pen,
    /// The keys beside it.
    Pad,
}

/// The usages of a device. A value usage has its range if the device reports
/// it, a switch is only present or absent.
#[derive(Clone, Debug)]
pub struct ProfileCaps {
    pub kind: ProfileKind,
    /// Page and usage of each key of a pad, in ascending order.
    pub pad_buttons: Vec<(u16, u16)>,
    pub device_name: String,
    pub driver_version: String,
    /// USB vendor; zero if unknown.
    pub vendor_id: u16,
    pub x: Option<AxisRange>,
    pub y: Option<AxisRange>,
    pub pressure: Option<AxisRange>,
    pub tangent_pressure: Option<AxisRange>,
    pub x_tilt: Option<AxisRange>,
    pub y_tilt: Option<AxisRange>,
    pub azimuth: Option<AxisRange>,
    pub altitude: Option<AxisRange>,
    pub twist: Option<AxisRange>,
    pub has_in_range: bool,
    pub has_tip: bool,
    pub has_barrel: bool,
    pub has_eraser: bool,
    pub has_invert: bool,
}

impl ProfileCaps {
    /// Does this describe a nameless pen without any usage?
    pub open spec fn blank(self) -> bool {
        &&& self.kind == ProfileKind::Pen
        &&& self.pad_buttons@ == Seq::<(u16, u16)>::empty()
        &&& self.device_name@ == Seq::<char>::empty()
        &&& self.driver_version@ == Seq::<char>::empty()
        &&& self.vendor_id == 0
        &&& self.has_no_usages()
    }

    /// Is every usage absent?
    pub open spec fn has_no_usages(self) -> bool {
        &&& self.x is None
        &&& self.y is None
        &&& self.pressure is None
        &&& self.tangent_pressure is None
        &&& self.x_tilt is None
        &&& self.y_tilt is None
        &&& self.azimuth is None
        &&& self.altitude is None
        &&& self.twist is None
        &&& !self.has_in_range
        &&& !self.has_tip
        &&& !self.has_barrel
        &&& !self.has_eraser
        &&& !self.has_invert
    }
}

impl Default for ProfileCaps {
    fn default() -> (r: ProfileCaps)
        ensures
            r.blank(),
    {
        ProfileCaps {
            kind: ProfileKind::Pen,
            pad_buttons: Vec::new(),
            device_name: String::new(),
            driver_version: String::new(),
            vendor_id: 0,
            x: None,
            y: None,
            pressure: None,
            tangent_pressure: None,
            x_tilt: None,
            y_tilt: None,
            azimuth: None,
            altitude: None,
            twist: None,
            has_in_range: false,
            has_tip: false,
            has_barrel: false,
            has_eraser: false,
            has_invert: false,
        }
    }
}

/// The axis that a range describes; an absent one is unsupported.
pub open spec fn axis_of(range: Option<AxisRange>, unit: AxisUnit) -> AxisInfo {
    match range {
        Some(r) => AxisInfo {
            min: r.min as i64,
            max: r.max as i64,
            resolution: r.resolution,
            unit,
            supported: true,
        },
        None => AxisInfo {
            min: 0,
            max: 0,
            resolution: Double::zero_spec(),
            unit: AxisUnit::Unitless,
            supported: false,
        },
    }
}

/// The axis that a range describes; an absent one is unsupported.
fn axis_info(range: Option<AxisRange>, unit: AxisUnit) -> (r: AxisInfo)
    ensures
        r == axis_of(range, unit),
{
    match range {
        Some(r) => AxisInfo {
            min: r.min as i64,
            max: r.max as i64,
            resolution: r.resolution,
            unit,
            supported: true,
        },
        None => AxisInfo {
            min: 0,
            max: 0,
            resolution: Double::zero(),
            unit: AxisUnit::Unitless,
            supported: false,
        },
    }
}

/// The description of a device with the usages of `caps`. Its rate is not
/// known yet. Tilt has no axis of its own, and neither height nor rotation is
/// ever reported.
pub open spec fn described(caps: ProfileCaps, queue_size: u32) -> DeviceCapabilities {
    DeviceCapabilities {
        device_name: caps.device_name,
        driver_version: caps.driver_version,
        x: axis_of(caps.x, AxisUnit::Unitless),
        y: axis_of(caps.y, AxisUnit::Unitless),
        z: axis_of(None, AxisUnit::Unitless),
        pressure: axis_of(caps.pressure, AxisUnit::Unitless),
        tangent_pressure: axis_of(caps.tangent_pressure, AxisUnit::Unitless),
        azimuth: axis_of(caps.azimuth, AxisUnit::Degree),
        altitude: axis_of(caps.altitude, AxisUnit::Degree),
        twist: axis_of(caps.twist, AxisUnit::Degree),
        rotation: axis_of(None, AxisUnit::Unitless),
        max_packet_rate_hz: 0,
        queue_size,
    }
}

/// The description of a device with the usages of `caps`.
pub fn capabilities_from_profile(caps: &ProfileCaps, queue_size: u32) -> (r: DeviceCapabilities)
    ensures
        r == described(*caps, queue_size),
{
    DeviceCapabilities {
        device_name: caps.device_name.clone(),
        driver_version: caps.driver_version.clone(),
        x: axis_info(caps.x, AxisUnit::Unitless),
        y: axis_info(caps.y, AxisUnit::Unitless),
        z: axis_info(None, AxisUnit::Unitless),
        pressure: axis_info(caps.pressure, AxisUnit::Unitless),
        tangent_pressure: axis_info(caps.tangent_pressure, AxisUnit::Unitless),
        azimuth: axis_info(caps.azimuth, AxisUnit::Degree),
        altitude: axis_info(caps.altitude, AxisUnit::Degree),
        twist: axis_info(caps.twist, AxisUnit::Degree),
        rotation: axis_info(None, AxisUnit::Unitless),
        max_packet_rate_hz: 0,
        queue_size,
    }
}

} // verus!
