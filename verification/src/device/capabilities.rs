//! What a device can report.
use vstd::prelude::*;

use crate::double::Double;

verus! {

/// Physical unit of an axis.
#[derive(Clone, Copy, Debug, PartialEq, Eq, Structural)]
pub enum AxisUnit {
    Inch,
    Centimeter,
    Degree,
    /// No unit.
    Unitless,
}

/// Range and resolution of one axis.
#[derive(Clone, Copy, Debug, PartialEq, Eq, Structural)]
pub struct AxisInfo {
    /// Smallest raw value.
    pub min: i64,
    /// Largest raw value.
    pub max: i64,
    /// Raw values per unit.
    pub resolution: Double,
    /// Unit of the resolution.
    pub unit: AxisUnit,
    /// Does the device have this axis?
    pub supported: bool,
}

impl AxisInfo {
    /// Does the axis exist and `raw` lie outside its range?
    pub open spec fn excludes_spec(self, raw: int) -> bool {
        self.supported && (raw < self.min || raw > self.max)
    }

    /// Does the axis exist and `raw` lie outside its range?
    pub fn excludes(&self, raw: i64) -> (r: bool)
        ensures
            r == self.excludes_spec(raw as int),
    {
        self.supported && (raw < self.min || raw > self.max)
    }
}

/// Description of a device, sent before any sample.
#[derive(Clone, Debug)]
pub struct DeviceCapabilities {
    /// Name to show.
    pub device_name: String,
    /// Version of the driver.
    pub driver_version: String,
    pub x: AxisInfo,
    pub y: AxisInfo,
    pub z: AxisInfo,
    pub pressure: AxisInfo,
    pub tangent_pressure: AxisInfo,
    pub azimuth: AxisInfo,
    pub altitude: AxisInfo,
    pub twist: AxisInfo,
    pub rotation: AxisInfo,
    /// Rate at which samples arrive.
    pub max_packet_rate_hz: u32,
    /// Depth of the device queue.
    pub queue_size: u32,
}

impl DeviceCapabilities {
    /// The same description once more.
    pub fn duplicate(&self) -> (r: DeviceCapabilities)
        ensures
            r == *self,
    {
        DeviceCapabilities {
            device_name: self.device_name.clone(),
            driver_version: self.driver_version.clone(),
            x: self.x,
            y: self.y,
            z: self.z,
            pressure: self.pressure,
            tangent_pressure: self.tangent_pressure,
            azimuth: self.azimuth,
            altitude: self.altitude,
            twist: self.twist,
            rotation: self.rotation,
            max_packet_rate_hz: self.max_packet_rate_hz,
            queue_size: self.queue_size,
        }
    }
}

/// An axis that exists excludes what lies outside its range; one that does not
/// exist excludes nothing.
pub proof fn axes_exclude_what_is_out_of_range(axis: AxisInfo, raw: i64, r: bool)
    requires
        call_ensures(AxisInfo::excludes, (&axis, raw), r),
    ensures
        !axis.supported ==> !r,
        axis.min <= raw <= axis.max ==> !r,
        axis.supported && raw < axis.min ==> r,
        axis.supported && axis.max < raw ==> r,
{
}

/// A duplicate is the same description.
pub proof fn duplicates_are_the_same(caps: DeviceCapabilities, r: DeviceCapabilities)
    requires
        call_ensures(DeviceCapabilities::duplicate, (&caps,), r),
    ensures
        r.device_name@ == caps.device_name@,
        r.driver_version@ == caps.driver_version@,
        r.x == caps.x && r.y == caps.y && r.z == caps.z,
        r.pressure == caps.pressure && r.tangent_pressure == caps.tangent_pressure,
        r.azimuth == caps.azimuth && r.altitude == caps.altitude,
        r.twist == caps.twist && r.rotation == caps.rotation,
        r.max_packet_rate_hz == caps.max_packet_rate_hz && r.queue_size == caps.queue_size,
{
}

} // verus!
