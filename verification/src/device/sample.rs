//! Pen samples and the events that carry them.
use vstd::prelude::*;

use crate::device::capabilities::DeviceCapabilities;
use crate::double::Double;

verus! {

/// The kind of tool at the tablet.
#[derive(Clone, Copy, Debug, PartialEq, Eq, Structural)]
pub enum ToolKind {
    Pen,
    Eraser,
    Airbrush,
    Cursor,
    Unknown,
}

/// One pen packet, with raw and normalized values.
#[derive(Clone, Copy, Debug, PartialEq, Eq, Structural)]
pub struct PenSample {
    /// Monotonic capture time in nanoseconds.
    pub t_capture_ns: u64,
    /// Time of the device in milliseconds; it may wrap.
    pub t_device_ms: u32,
    /// Serial number of the packet.
    pub serial: u32,
    /// Raw position.
    pub x_raw: i32,
    pub y_raw: i32,
    pub z_raw: i32,
    /// Position over the extent of the device, within 0 and 1.
    pub x_norm: Double,
    pub y_norm: Double,
    /// Raw tip pressure.
    pub pressure_raw: u32,
    /// Tip pressure within 0 and 1.
    pub pressure_norm: Double,
    /// Raw barrel pressure, if reported.
    pub tangent_pressure_raw: Option<i32>,
    /// Orientation in tenths of a degree, if reported.
    pub azimuth_deci_deg: Option<i32>,
    pub altitude_deci_deg: Option<i32>,
    pub twist_deci_deg: Option<i32>,
    /// Tilt in degrees, if reported or derived.
    pub tilt_x_deg: Option<Double>,
    pub tilt_y_deg: Option<Double>,
    /// Rotation in tenths of a degree, if reported.
    pub rotation_deci_deg: Option<i32>,
    /// Pressed buttons, one bit each.
    pub buttons: u32,
    /// The tool in use.
    pub tool: ToolKind,
    /// Serial number of the tool.
    pub tool_serial: u64,
    /// Is the tool in range?
    pub in_proximity: bool,
    /// Raw status word.
    pub status: u32,
}

/// What a capture backend reports.
#[derive(Clone, Debug)]
pub enum SampleEvent {
    /// The device, at the start and whenever it changes.
    Capabilities(DeviceCapabilities),
    /// A pen packet.
    Sample(PenSample),
    /// The tool entered or left the sensing area.
    Proximity { in_range: bool, tool_serial: u64 },
    /// A button of the tablet was pressed or released.
    TabletButton { index: u8, pressed: bool },
}

} // verus!
