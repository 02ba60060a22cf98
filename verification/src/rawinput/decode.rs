//! One HID report becomes one reading of the pen.
use vstd::arithmetic::div_mod::{lemma_fundamental_div_mod_converse, lemma_mod_breakdown, lemma_small_mod};
use vstd::arithmetic::power2::{lemma2_to64, lemma_pow2_adds, lemma_pow2_pos, lemma_pow2_strictly_increases, lemma_pow2_unfold, pow2};
use vstd::bits::lemma_u64_shl_is_mul;
use vstd::prelude::*;

use crate::device::normalize::{normalize, UnitRatio};
use crate::device::sample::{PenSample, ToolKind};
use crate::double::Double;
use crate::rawinput::caps::{AxisRange, ProfileCaps};
use crate::rawinput::hid::{
    PAGE_DIGITIZER, PAGE_GENERIC_DESKTOP, USAGE_ALTITUDE, USAGE_AZIMUTH, USAGE_BARREL_PRESSURE,
    USAGE_BARREL_SWITCH, USAGE_ERASER, USAGE_INVERT, USAGE_IN_RANGE, USAGE_TIP_PRESSURE,
    USAGE_TIP_SWITCH, USAGE_TWIST, USAGE_X, USAGE_X_TILT, USAGE_Y, USAGE_Y_TILT,
};

verus! {

/// Where the usages of one report come from.
pub trait UsageReader {
    /// Can the report be read?
    spec fn readable(&self) -> bool;

    /// The value of a usage, if the report holds it.
    spec fn value_spec(&self, usage_page: u16, usage: u16) -> Option<i32>;

    /// Is the switch of a usage on?
    spec fn button_spec(&self, usage_page: u16, usage: u16) -> bool;

    /// The value of a usage, if the report holds it.
    fn value(&self, usage_page: u16, usage: u16) -> (r: Option<i32>)
        requires
            self.readable(),
        ensures
            r == self.value_spec(usage_page, usage),
    ;

    /// Is the switch of a usage on? An absent one is off.
    fn button(&self, usage_page: u16, usage: u16) -> (r: bool)
        requires
            self.readable(),
        ensures
            r == self.button_spec(usage_page, usage),
    ;
}

/// How a report tells the tilt of the pen.
#[derive(Clone, Copy, Debug, PartialEq, Eq, Structural)]
pub enum TiltSource {
    /// Not at all.
    Absent,
    /// In whole degrees, along the axes that the device has.
    Degrees { x: Option<i32>, y: Option<i32> },
    /// By its orientation, in tenths of a degree.
    Orientation { azimuth: i32, altitude: i32 },
}

/// What one report says of the pen. Positions and pressure stand beside their
/// place within the range of their axis.
#[derive(Clone, Copy, Debug, PartialEq, Eq, Structural)]
pub struct PenReport {
    pub t_capture_ns: u64,
    pub serial: u32,
    pub x_raw: i32,
    pub y_raw: i32,
    pub x_place: UnitRatio,
    pub y_place: UnitRatio,
    pub pressure_raw: u32,
    pub pressure_place: UnitRatio,
    pub tangent_pressure_raw: Option<i32>,
    pub twist_deci_deg: Option<i32>,
    pub tilt: TiltSource,
    pub buttons: u32,
    pub tool: ToolKind,
    pub in_proximity: bool,
}

impl PenReport {
    /// Orientation in tenths of a degree, if the tilt comes from it.
    pub fn azimuth_deci_deg(&self) -> (r: Option<i32>)
        ensures
            r == (match self.tilt {
                TiltSource::Orientation { azimuth, altitude } => Some(azimuth),
                _ => None,
            }),
    {
        match self.tilt {
            TiltSource::Orientation { azimuth, altitude } => Some(azimuth),
            _ => None,
        }
    }

    /// Orientation in tenths of a degree, if the tilt comes from it.
    pub fn altitude_deci_deg(&self) -> (r: Option<i32>)
        ensures
            r == (match self.tilt {
                TiltSource::Orientation { azimuth, altitude } => Some(altitude),
                _ => None,
            }),
    {
        match self.tilt {
            TiltSource::Orientation { azimuth, altitude } => Some(altitude),
            _ => None,
        }
    }
}

/// The value of a usage of the digitizer page, or 0 if the report lacks it.
pub open spec fn reading<R: UsageReader>(reader: R, usage: u16) -> i32 {
    value_or_zero(reader.value_spec(PAGE_DIGITIZER, usage))
}

/// The value, or 0 if there is none.
pub open spec fn value_or_zero(value: Option<i32>) -> i32 {
    match value {
        Some(v) => v,
        None => 0,
    }
}

/// Can an angle be counted in tenths of a degree?
pub open spec fn angle_fits(degrees: i32) -> bool {
    i32::MIN <= degrees * 10 <= i32::MAX
}

/// Is tilt reported as such?
pub open spec fn tilts(caps: ProfileCaps) -> bool {
    caps.x_tilt is Some || caps.y_tilt is Some
}

/// Does tilt follow from the orientation?
pub open spec fn orients(caps: ProfileCaps) -> bool {
    !tilts(caps) && caps.azimuth is Some && caps.altitude is Some
}

/// Can every angle that `caps` asks for be counted in tenths of a degree?
pub open spec fn angles_fit_spec<R: UsageReader>(reader: R, caps: ProfileCaps) -> bool {
    &&& orients(caps) ==> angle_fits(reading(reader, USAGE_AZIMUTH)) && angle_fits(
        reading(reader, USAGE_ALTITUDE),
    )
    &&& caps.twist is Some ==> angle_fits(reading(reader, USAGE_TWIST))
}

/// How the report tells the tilt. Tilt that is reported as such comes first.
pub open spec fn tilt_of<R: UsageReader>(reader: R, caps: ProfileCaps) -> TiltSource {
    if tilts(caps) {
        TiltSource::Degrees {
            x: if caps.x_tilt is Some {
                Some(reading(reader, USAGE_X_TILT))
            } else {
                None
            },
            y: if caps.y_tilt is Some {
                Some(reading(reader, USAGE_Y_TILT))
            } else {
                None
            },
        }
    } else if orients(caps) {
        TiltSource::Orientation {
            azimuth: (reading(reader, USAGE_AZIMUTH) * 10) as i32,
            altitude: (reading(reader, USAGE_ALTITUDE) * 10) as i32,
        }
    } else {
        TiltSource::Absent
    }
}

/// Is the switch of the digitizer page there and on?
pub open spec fn pressed<R: UsageReader>(reader: R, present: bool, usage: u16) -> bool {
    present && reader.button_spec(PAGE_DIGITIZER, usage)
}

/// The bit mask of tip, barrel and eraser.
pub open spec fn mask_of(tip: bool, barrel: bool, eraser: bool) -> u32 {
    ((if tip {
        1int
    } else {
        0
    }) + (if barrel {
        2int
    } else {
        0
    }) + (if eraser {
        4int
    } else {
        0
    })) as u32
}

/// Where `raw` lies within the range of its axis; 0 without an axis.
pub open spec fn place_of(raw: int, range: Option<AxisRange>) -> UnitRatio {
    match range {
        Some(r) => UnitRatio::along(raw, r.min as int, r.max as int),
        None => UnitRatio { numerator: 0, denominator: 1 },
    }
}

/// The tool: an eraser by its switch or by being turned over, an airbrush by
/// its wheel, else a pen.
pub open spec fn tool_of(erases: bool, has_wheel: bool) -> ToolKind {
    if erases {
        ToolKind::Eraser
    } else if has_wheel {
        ToolKind::Airbrush
    } else {
        ToolKind::Pen
    }
}

/// What the report says of the pen.
pub open spec fn decoded<R: UsageReader>(
    reader: R,
    caps: ProfileCaps,
    t_capture_ns: u64,
    serial: u32,
) -> PenReport {
    let x_raw = value_or_zero(reader.value_spec(PAGE_GENERIC_DESKTOP, USAGE_X));
    let y_raw = value_or_zero(reader.value_spec(PAGE_GENERIC_DESKTOP, USAGE_Y));
    let pressure = reading(reader, USAGE_TIP_PRESSURE);
    let pressure_raw = if pressure < 0 {
        0u32
    } else {
        pressure as u32
    };
    let tip = pressed(reader, caps.has_tip, USAGE_TIP_SWITCH);
    let barrel = pressed(reader, caps.has_barrel, USAGE_BARREL_SWITCH);
    let eraser = pressed(reader, caps.has_eraser, USAGE_ERASER);
    let invert = pressed(reader, caps.has_invert, USAGE_INVERT);
    PenReport {
        t_capture_ns,
        serial,
        x_raw,
        y_raw,
        x_place: place_of(x_raw as int, caps.x),
        y_place: place_of(y_raw as int, caps.y),
        pressure_raw,
        pressure_place: place_of(pressure_raw as int, caps.pressure),
        tangent_pressure_raw: if caps.tangent_pressure is Some {
            Some(reading(reader, USAGE_BARREL_PRESSURE))
        } else {
            None
        },
        twist_deci_deg: if caps.twist is Some {
            Some((reading(reader, USAGE_TWIST) * 10) as i32)
        } else {
            None
        },
        tilt: tilt_of(reader, caps),
        buttons: mask_of(tip, barrel, eraser),
        tool: tool_of(eraser || invert, caps.tangent_pressure is Some),
        in_proximity: caps.has_in_range ==> reader.button_spec(PAGE_DIGITIZER, USAGE_IN_RANGE),
    }
}

/// The value, or 0 if there is none.
fn or_zero(value: Option<i32>) -> (r: i32)
    ensures
        r == value_or_zero(value),
{
    match value {
        Some(v) => v,
        None => 0,
    }
}

/// Where `raw` lies within the range of its axis; 0 without an axis.
fn norm_axis(raw: i32, range: Option<AxisRange>) -> (r: UnitRatio)
    ensures
        r == place_of(raw as int, range),
{
    match range {
        Some(range) => normalize(raw as i64, range.min as i64, range.max as i64),
        None => UnitRatio { numerator: 0, denominator: 1 },
    }
}

/// Can an angle be counted in tenths of a degree?
fn fits_in_tenths(degrees: i32) -> (r: bool)
    ensures
        r == angle_fits(degrees),
{
    let tenths: i64 = degrees as i64 * 10;
    i32::MIN as i64 <= tenths && tenths <= i32::MAX as i64
}

/// Can every angle that `caps` asks for be counted in tenths of a degree?
pub fn angles_fit<R: UsageReader>(reader: &R, caps: &ProfileCaps) -> (r: bool)
    requires
        reader.readable(),
    ensures
        r == angles_fit_spec(*reader, *caps),
{
    let direct: bool = caps.x_tilt.is_some() || caps.y_tilt.is_some();
    if !direct && caps.azimuth.is_some() && caps.altitude.is_some() {
        if !fits_in_tenths(or_zero(reader.value(PAGE_DIGITIZER, USAGE_AZIMUTH))) {
            return false;
        }
        if !fits_in_tenths(or_zero(reader.value(PAGE_DIGITIZER, USAGE_ALTITUDE))) {
            return false;
        }
    }
    if caps.twist.is_some() {
        return fits_in_tenths(or_zero(reader.value(PAGE_DIGITIZER, USAGE_TWIST)));
    }
    true
}

/// How the report tells the tilt.
fn decode_tilt<R: UsageReader>(reader: &R, caps: &ProfileCaps) -> (r: TiltSource)
    requires
        reader.readable(),
        angles_fit_spec(*reader, *caps),
    ensures
        r == tilt_of(*reader, *caps),
{
    if caps.x_tilt.is_some() || caps.y_tilt.is_some() {
        let x: Option<i32> = if caps.x_tilt.is_some() {
            Some(or_zero(reader.value(PAGE_DIGITIZER, USAGE_X_TILT)))
        } else {
            None
        };
        let y: Option<i32> = if caps.y_tilt.is_some() {
            Some(or_zero(reader.value(PAGE_DIGITIZER, USAGE_Y_TILT)))
        } else {
            None
        };
        TiltSource::Degrees { x, y }
    } else if caps.azimuth.is_some() && caps.altitude.is_some() {
        TiltSource::Orientation {
            azimuth: or_zero(reader.value(PAGE_DIGITIZER, USAGE_AZIMUTH)) * 10,
            altitude: or_zero(reader.value(PAGE_DIGITIZER, USAGE_ALTITUDE)) * 10,
        }
    } else {
        TiltSource::Absent
    }
}

/// What one report says of the pen. Axes and switches that `caps` lacks take
/// their resting values, and without a proximity switch the report itself is
/// proof that the tool is near.
pub fn decode_report<R: UsageReader>(
    reader: &R,
    caps: &ProfileCaps,
    t_capture_ns: u64,
    serial: u32,
) -> (r: PenReport)
    requires
        reader.readable(),
        angles_fit_spec(*reader, *caps),
    ensures
        r == decoded(*reader, *caps, t_capture_ns, serial),
{
    let x_raw: i32 = or_zero(reader.value(PAGE_GENERIC_DESKTOP, USAGE_X));
    let y_raw: i32 = or_zero(reader.value(PAGE_GENERIC_DESKTOP, USAGE_Y));
    let pressure: i32 = or_zero(reader.value(PAGE_DIGITIZER, USAGE_TIP_PRESSURE));
    let held: i32 = if pressure < 0 {
        0
    } else {
        pressure
    };
    let tilt: TiltSource = decode_tilt(reader, caps);
    let twist_deci_deg: Option<i32> = if caps.twist.is_some() {
        Some(or_zero(reader.value(PAGE_DIGITIZER, USAGE_TWIST)) * 10)
    } else {
        None
    };
    let tangent_pressure_raw: Option<i32> = if caps.tangent_pressure.is_some() {
        Some(or_zero(reader.value(PAGE_DIGITIZER, USAGE_BARREL_PRESSURE)))
    } else {
        None
    };
    let tip: bool = caps.has_tip && reader.button(PAGE_DIGITIZER, USAGE_TIP_SWITCH);
    let barrel: bool = caps.has_barrel && reader.button(PAGE_DIGITIZER, USAGE_BARREL_SWITCH);
    let eraser: bool = caps.has_eraser && reader.button(PAGE_DIGITIZER, USAGE_ERASER);
    let invert: bool = caps.has_invert && reader.button(PAGE_DIGITIZER, USAGE_INVERT);
    let mut buttons: u32 = 0;
    if tip {
        buttons += 1;
    }
    if barrel {
        buttons += 2;
    }
    if eraser {
        buttons += 4;
    }
    let in_proximity: bool = !caps.has_in_range || reader.button(PAGE_DIGITIZER, USAGE_IN_RANGE);
    let tool: ToolKind = if eraser || invert {
        ToolKind::Eraser
    } else if caps.tangent_pressure.is_some() {
        ToolKind::Airbrush
    } else {
        ToolKind::Pen
    };
    PenReport {
        t_capture_ns,
        serial,
        x_raw,
        y_raw,
        x_place: norm_axis(x_raw, caps.x),
        y_place: norm_axis(y_raw, caps.y),
        pressure_raw: held as u32,
        pressure_place: norm_axis(held, caps.pressure),
        tangent_pressure_raw,
        twist_deci_deg,
        tilt,
        buttons,
        tool,
        in_proximity,
    }
}

/// The sample that a report becomes, given its places and its tilt as numbers.
/// Reports carry no time, height, rotation or status of the device and no
/// number of the tool, so those are blank.
pub open spec fn completed(
    report: PenReport,
    x_norm: Double,
    y_norm: Double,
    pressure_norm: Double,
    tilt: (Double, Double),
) -> PenSample {
    PenSample {
        t_capture_ns: report.t_capture_ns,
        t_device_ms: 0,
        serial: report.serial,
        x_raw: report.x_raw,
        y_raw: report.y_raw,
        z_raw: 0,
        x_norm,
        y_norm,
        pressure_raw: report.pressure_raw,
        pressure_norm,
        tangent_pressure_raw: report.tangent_pressure_raw,
        azimuth_deci_deg: match report.tilt {
            TiltSource::Orientation { azimuth, altitude } => Some(azimuth),
            _ => None,
        },
        altitude_deci_deg: match report.tilt {
            TiltSource::Orientation { azimuth, altitude } => Some(altitude),
            _ => None,
        },
        twist_deci_deg: report.twist_deci_deg,
        tilt_x_deg: match report.tilt {
            TiltSource::Absent => None,
            TiltSource::Degrees { x: None, .. } => None,
            _ => Some(tilt.0),
        },
        tilt_y_deg: match report.tilt {
            TiltSource::Absent => None,
            TiltSource::Degrees { y: None, .. } => None,
            _ => Some(tilt.1),
        },
        rotation_deci_deg: None,
        buttons: report.buttons,
        tool: report.tool,
        tool_serial: 0,
        in_proximity: report.in_proximity,
        status: 0,
    }
}

/// The sample that a report becomes. The arguments are the report's places and
/// its tilt as numbers; a tilt that the report does not tell is not looked at.
pub fn sample_of(
    report: &PenReport,
    x_norm: Double,
    y_norm: Double,
    pressure_norm: Double,
    tilt: (Double, Double),
) -> (r: PenSample)
    ensures
        r == completed(*report, x_norm, y_norm, pressure_norm, tilt),
        r.t_device_ms == 0,
        r.z_raw == 0,
        r.rotation_deci_deg is None,
        r.tool_serial == 0,
        r.status == 0,
        r.serial == report.serial,
        r.t_capture_ns == report.t_capture_ns,
{
    let (tilt_x_deg, tilt_y_deg) = match report.tilt {
        TiltSource::Absent => (None, None),
        TiltSource::Degrees { x, y } => (
            match x {
                Some(_) => Some(tilt.0),
                None => None,
            },
            match y {
                Some(_) => Some(tilt.1),
                None => None,
            },
        ),
        TiltSource::Orientation { .. } => (Some(tilt.0), Some(tilt.1)),
    };
    PenSample {
        t_capture_ns: report.t_capture_ns,
        t_device_ms: 0,
        serial: report.serial,
        x_raw: report.x_raw,
        y_raw: report.y_raw,
        z_raw: 0,
        x_norm,
        y_norm,
        pressure_raw: report.pressure_raw,
        pressure_norm,
        tangent_pressure_raw: report.tangent_pressure_raw,
        azimuth_deci_deg: report.azimuth_deci_deg(),
        altitude_deci_deg: report.altitude_deci_deg(),
        twist_deci_deg: report.twist_deci_deg,
        tilt_x_deg,
        tilt_y_deg,
        rotation_deci_deg: None,
        buttons: report.buttons,
        tool: report.tool,
        tool_serial: 0,
        in_proximity: report.in_proximity,
        status: 0,
    }
}

/// A sample names no device time, height, rotation or tool number, has the time
/// and number that it was captured with, and tells twist, barrel pressure,
/// orientation and tilt exactly where the device has them.
pub proof fn samples_tell_what_the_device_has<R: UsageReader>(
    reader: R,
    caps: ProfileCaps,
    t_capture_ns: u64,
    serial: u32,
    x_norm: Double,
    y_norm: Double,
    pressure_norm: Double,
    tilt: (Double, Double),
)
    ensures
        ({
            let sample = completed(
                decoded(reader, caps, t_capture_ns, serial),
                x_norm,
                y_norm,
                pressure_norm,
                tilt,
            );
            &&& sample.t_capture_ns == t_capture_ns
            &&& sample.serial == serial
            &&& sample.t_device_ms == 0
            &&& sample.z_raw == 0
            &&& sample.rotation_deci_deg is None
            &&& sample.tool_serial == 0
            &&& sample.status == 0
            &&& sample.twist_deci_deg is Some <==> caps.twist is Some
            &&& sample.tangent_pressure_raw is Some <==> caps.tangent_pressure is Some
            &&& sample.azimuth_deci_deg is Some <==> orients(caps)
            &&& sample.altitude_deci_deg is Some <==> orients(caps)
            &&& sample.tilt_x_deg is Some <==> caps.x_tilt is Some || orients(caps)
            &&& sample.tilt_y_deg is Some <==> caps.y_tilt is Some || orients(caps)
        }),
{
}

/// Place of one usage within a report.
#[derive(Clone, Copy, Debug, PartialEq, Eq, Structural)]
pub struct FieldLayout {
    pub usage_page: u16,
    pub usage: u16,
    /// First bit, counted from the start of the report.
    pub bit_offset: u32,
    /// Width in bits.
    pub bit_size: u16,
    /// Is the field two's complement?
    pub signed: bool,
}

impl FieldLayout {
    /// A field without a sign.
    pub fn unsigned(usage_page: u16, usage: u16, bit_offset: u32, bit_size: u16) -> (r: FieldLayout)
        ensures
            r == (FieldLayout { usage_page, usage, bit_offset, bit_size, signed: false }),
    {
        FieldLayout { usage_page, usage, bit_offset, bit_size, signed: false }
    }

    /// A field in two's complement.
    pub fn signed(usage_page: u16, usage: u16, bit_offset: u32, bit_size: u16) -> (r: FieldLayout)
        ensures
            r == (FieldLayout { usage_page, usage, bit_offset, bit_size, signed: true }),
    {
        FieldLayout { usage_page, usage, bit_offset, bit_size, signed: true }
    }

    /// Is this the field of the usage?
    pub open spec fn tells(self, usage_page: u16, usage: u16) -> bool {
        self.usage_page == usage_page && self.usage == usage
    }

    /// Is this the field of the usage?
    fn is_for(&self, usage_page: u16, usage: u16) -> (r: bool)
        ensures
            r == self.tells(usage_page, usage),
    {
        self.usage_page == usage_page && self.usage == usage
    }
}

/// Is the bit set? Reports are packed with the least significant bit first,
/// and every bit past the end is clear.
pub open spec fn bit_set(report: Seq<u8>, bit: int) -> bool {
    0 <= bit / 8 < report.len() && (report[bit / 8] as int / pow2((bit % 8) as nat) as int) % 2 == 1
}

/// The number that the `count` bits from `bit_offset` on make up.
pub open spec fn bits_value(report: Seq<u8>, bit_offset: int, count: nat) -> nat
    decreases count,
{
    if count == 0 {
        0
    } else {
        let below = bits_value(report, bit_offset, (count - 1) as nat);
        if bit_set(report, bit_offset + count - 1) {
            below + pow2((count - 1) as nat)
        } else {
            below
        }
    }
}

/// Does the field end within the addressable bits, and does its value fit
/// into 32 bits?
pub open spec fn field_fits(report: Seq<u8>, bit_offset: u32, bit_size: u16) -> bool {
    &&& bit_offset + bit_size <= 0x1_0000_0000
    &&& forall|i: int| 32 <= i < bit_size ==> !#[trigger] bit_set(report, bit_offset + i)
}

/// Is bit `shift` of `byte` set?
fn byte_bit(byte: u8, shift: u32) -> (r: bool)
    requires
        shift < 8,
    ensures
        r == ((byte as int / pow2(shift as nat) as int) % 2 == 1),
{
    proof {
        lemma2_to64();
        lemma_pow2_strictly_increases(shift as nat, 8);
        lemma_pow2_pos(shift as nat);
        lemma_u64_shl_is_mul(1, shift as u64);
        assert(1u64 << (shift as u64) == pow2(shift as nat));
    }
    let weight: u64 = 1u64 << (shift as u64);
    (byte as u64 / weight) % 2 == 1
}

/// The number that `bit_size` bits from `bit_offset` on make up.
pub fn extract_bits(report: &[u8], bit_offset: u32, bit_size: u16) -> (r: u32)
    requires
        field_fits(report@, bit_offset, bit_size),
    ensures
        r == bits_value(report@, bit_offset as int, bit_size as nat),
        bit_size <= 32 ==> r < pow2(bit_size as nat),
{
    let mut value: u64 = 0;
    let mut at: u32 = 0;
    proof {
        lemma2_to64();
    }
    while at < bit_size as u32
        invariant
            at <= bit_size,
            field_fits(report@, bit_offset, bit_size),
            value == bits_value(report@, bit_offset as int, at as nat),
            value < pow2(if at <= 32 {
                at as nat
            } else {
                32
            }),
            pow2(32) == 0x1_0000_0000,
        decreases bit_size - at,
    {
        let bit: u32 = bit_offset + at;
        let byte: usize = (bit / 8) as usize;
        if byte < report.len() && byte_bit(report[byte], bit % 8) {
            assert(bit_set(report@, bit_offset + at as int));
            assert(at < 32);
            proof {
                lemma_pow2_strictly_increases(at as nat, 32);
                lemma_u64_shl_is_mul(1, at as u64);
            }
            value += 1u64 << (at as u64);
        } else {
            assert(!bit_set(report@, bit_offset + at as int));
        }
        proof {
            lemma_pow2_unfold((at + 1) as nat);
        }
        at += 1;
    }
    value as u32
}

/// The number that `count` bytes from `first` on make up, the least
/// significant byte first.
pub open spec fn little_endian(report: Seq<u8>, first: int, count: nat) -> nat
    decreases count,
{
    if count == 0 {
        0
    } else {
        little_endian(report, first, (count - 1) as nat) + report[first + count - 1] as nat * pow2(
            (8 * (count - 1)) as nat,
        )
    }
}

/// The bits of a field are those of its lower and its upper part.
proof fn lemma_bits_split(report: Seq<u8>, bit_offset: int, lower: nat, upper: nat)
    ensures
        bits_value(report, bit_offset, lower + upper) == bits_value(report, bit_offset, lower)
            + bits_value(report, bit_offset + lower, upper) * pow2(lower),
    decreases upper,
{
    if upper == 0 {
        assert(0 * pow2(lower) == 0) by (nonlinear_arith);
    } else {
        lemma_bits_split(report, bit_offset, lower, (upper - 1) as nat);
        let rest = bits_value(report, bit_offset + lower, (upper - 1) as nat);
        assert(bit_offset + (lower + upper) - 1 == bit_offset + lower + upper - 1);
        lemma_pow2_adds((upper - 1) as nat, lower);
        assert((rest + pow2((upper - 1) as nat)) * pow2(lower) == rest * pow2(lower) + pow2(
            (upper - 1) as nat,
        ) * pow2(lower)) by (nonlinear_arith);
    }
}

/// The first `count` bits of a byte are its remainder by their weight.
proof fn lemma_byte_bits(report: Seq<u8>, at: int, count: nat)
    requires
        0 <= at < report.len(),
        count <= 8,
    ensures
        bits_value(report, 8 * at, count) == report[at] as int % pow2(count) as int,
    decreases count,
{
    lemma2_to64();
    if count > 0 {
        let before = (count - 1) as nat;
        let byte = report[at] as int;
        let weight = pow2(before) as int;
        lemma_byte_bits(report, at, before);
        lemma_pow2_pos(before);
        lemma_pow2_unfold(count);
        lemma_mod_breakdown(byte, weight, 2);
        assert((8 * at + before) / 8 == at);
        assert((8 * at + before) % 8 == before);
        assert(bit_set(report, 8 * at + count - 1) == ((byte / weight) % 2 == 1));
        assert(weight * 2 == pow2(count));
        assert(weight * 0 == 0) by (nonlinear_arith);
        assert(weight * 1 == weight) by (nonlinear_arith);
    }
}

/// A field of whole bytes holds its number with the least significant byte
/// first.
pub proof fn whole_bytes_are_little_endian(report: Seq<u8>, first: int, count: nat)
    requires
        0 <= first,
        first + count <= report.len(),
    ensures
        bits_value(report, 8 * first, 8 * count) == little_endian(report, first, count),
    decreases count,
{
    if count > 0 {
        let before = (count - 1) as nat;
        whole_bytes_are_little_endian(report, first, before);
        lemma_bits_split(report, 8 * first, 8 * before, 8);
        lemma_byte_bits(report, first + before, 8);
        lemma2_to64();
        assert(8 * first + 8 * before == 8 * (first + before));
        assert(8 * before + 8 == 8 * count);
    }
}

/// The signed number that a 32-bit pattern means.
pub open spec fn as_signed(value: u32) -> int {
    if value < 0x8000_0000 {
        value as int
    } else {
        value - 0x1_0000_0000
    }
}

/// The signed number that the low `bit_size` bits mean in two's complement.
/// No bits at all, and more than 31, mean the whole pattern.
pub open spec fn signed_value(value: u32, bit_size: u16) -> int {
    if bit_size == 0 || bit_size >= 32 {
        as_signed(value)
    } else {
        let low = value as int % pow2(bit_size as nat) as int;
        if low < pow2((bit_size - 1) as nat) {
            low
        } else {
            low - pow2(bit_size as nat)
        }
    }
}

/// The signed number that a 32-bit pattern means.
fn reinterpret(value: u32) -> (r: i32)
    ensures
        r == as_signed(value),
{
    if value < 0x8000_0000 {
        value as i32
    } else {
        (value as i64 - 0x1_0000_0000) as i32
    }
}

/// The signed number that the low `bit_size` bits mean in two's complement.
pub fn sign_extend(value: u32, bit_size: u16) -> (r: i32)
    ensures
        r == signed_value(value, bit_size),
{
    if bit_size == 0 || bit_size >= 32 {
        return reinterpret(value);
    }
    proof {
        lemma2_to64();
        lemma_u64_shl_is_mul(1, bit_size as u64);
        lemma_pow2_strictly_increases(bit_size as nat, 32);
        lemma_pow2_unfold(bit_size as nat);
        lemma_pow2_pos((bit_size - 1) as nat);
    }
    let modulus: u64 = 1u64 << (bit_size as u64);
    let low: u64 = value as u64 % modulus;
    if low < modulus / 2 {
        low as i32
    } else {
        (low as i64 - modulus as i64) as i32
    }
}

/// A number that fits into `bit_size` bits of two's complement is read back
/// from its pattern.
pub proof fn sign_extension_reads_back(number: int, bit_size: u16)
    requires
        0 < bit_size < 32,
        -pow2((bit_size - 1) as nat) <= number < pow2((bit_size - 1) as nat),
    ensures
        signed_value((number % pow2(bit_size as nat) as int) as u32, bit_size) == number,
{
    lemma2_to64();
    lemma_pow2_strictly_increases(bit_size as nat, 32);
    lemma_pow2_unfold(bit_size as nat);
    lemma_pow2_pos((bit_size - 1) as nat);
    let modulus = pow2(bit_size as nat) as int;
    let half = pow2((bit_size - 1) as nat) as int;
    let pattern = number % modulus;
    if number < 0 {
        lemma_fundamental_div_mod_converse(
            number,
            modulus,
            -1,
            number + modulus,
        );
        assert(pattern == number + modulus);
    } else {
        lemma_small_mod(number as nat, modulus as nat);
    }
    lemma_small_mod(pattern as nat, modulus as nat);
}

/// The first field for the usage, among those from `from` on.
pub open spec fn field_from(
    fields: Seq<FieldLayout>,
    usage_page: u16,
    usage: u16,
    from: int,
) -> Option<FieldLayout>
    decreases fields.len() - from,
{
    if from < 0 || from >= fields.len() {
        None
    } else if fields[from].tells(usage_page, usage) {
        Some(fields[from])
    } else {
        field_from(fields, usage_page, usage, from + 1)
    }
}

/// The first field for the usage.
fn find_field(fields: &[FieldLayout], usage_page: u16, usage: u16) -> (r: Option<FieldLayout>)
    ensures
        r == field_from(fields@, usage_page, usage, 0),
        r matches Some(field) ==> fields@.contains(field),
{
    let mut at: usize = 0;
    while at < fields.len()
        invariant
            at <= fields.len(),
            field_from(fields@, usage_page, usage, 0) == field_from(
                fields@,
                usage_page,
                usage,
                at as int,
            ),
        decreases fields.len() - at,
    {
        let field: FieldLayout = fields[at];
        if field.is_for(usage_page, usage) {
            assert(fields@[at as int] == field);
            return Some(field);
        }
        at += 1;
    }
    None
}

/// Width of a switch; at least one bit is read.
pub open spec fn switch_size(field: FieldLayout) -> u16 {
    if field.bit_size == 0 {
        1
    } else {
        field.bit_size
    }
}

/// Reads usages straight from the bytes of a report.
pub struct BitfieldReader<'a> {
    pub report: &'a [u8],
    pub values: &'a [FieldLayout],
    pub buttons: &'a [FieldLayout],
}

impl<'a> BitfieldReader<'a> {
    /// A reader of `report` with these fields for values and switches.
    pub fn new(report: &'a [u8], values: &'a [FieldLayout], buttons: &'a [FieldLayout]) -> (r:
        BitfieldReader<'a>)
        ensures
            r.report@ == report@,
            r.values@ == values@,
            r.buttons@ == buttons@,
    {
        BitfieldReader { report, values, buttons }
    }
}

impl UsageReader for BitfieldReader<'_> {
    open spec fn readable(&self) -> bool {
        &&& forall|i: int|
            0 <= i < self.values@.len() ==> field_fits(
                self.report@,
                (#[trigger] self.values@[i]).bit_offset,
                self.values@[i].bit_size,
            )
        &&& forall|i: int|
            0 <= i < self.buttons@.len() ==> field_fits(
                self.report@,
                (#[trigger] self.buttons@[i]).bit_offset,
                switch_size(self.buttons@[i]),
            )
    }

    open spec fn value_spec(&self, usage_page: u16, usage: u16) -> Option<i32> {
        match field_from(self.values@, usage_page, usage, 0) {
            Some(field) => {
                let raw = bits_value(self.report@, field.bit_offset as int, field.bit_size as nat) as u32;
                if field.signed {
                    Some(signed_value(raw, field.bit_size) as i32)
                } else {
                    Some(as_signed(raw) as i32)
                }
            },
            None => None,
        }
    }

    open spec fn button_spec(&self, usage_page: u16, usage: u16) -> bool {
        match field_from(self.buttons@, usage_page, usage, 0) {
            Some(field) => bits_value(
                self.report@,
                field.bit_offset as int,
                switch_size(field) as nat,
            ) != 0,
            None => false,
        }
    }

    fn value(&self, usage_page: u16, usage: u16) -> (r: Option<i32>) {
        match find_field(self.values, usage_page, usage) {
            Some(field) => {
                let raw: u32 = extract_bits(self.report, field.bit_offset, field.bit_size);
                if field.signed {
                    Some(sign_extend(raw, field.bit_size))
                } else {
                    Some(reinterpret(raw))
                }
            },
            None => None,
        }
    }

    fn button(&self, usage_page: u16, usage: u16) -> (r: bool) {
        match find_field(self.buttons, usage_page, usage) {
            Some(field) => {
                let size: u16 = if field.bit_size == 0 {
                    1
                } else {
                    field.bit_size
                };
                extract_bits(self.report, field.bit_offset, size) != 0
            },
            None => false,
        }
    }
}

/// Usages that were read from a report beforehand: the values that it holds
/// and the switches that are on.
#[derive(Clone, Debug)]
pub struct UsageSnapshot {
    /// Page, usage and value.
    pub values: Vec<(u16, u16, i32)>,
    /// Page and usage.
    pub pressed: Vec<(u16, u16)>,
}

/// The first value of the usage, among those from `from` on.
pub open spec fn value_from(
    values: Seq<(u16, u16, i32)>,
    usage_page: u16,
    usage: u16,
    from: int,
) -> Option<i32>
    decreases values.len() - from,
{
    if from < 0 || from >= values.len() {
        None
    } else if values[from].0 == usage_page && values[from].1 == usage {
        Some(values[from].2)
    } else {
        value_from(values, usage_page, usage, from + 1)
    }
}

impl UsageReader for UsageSnapshot {
    open spec fn readable(&self) -> bool {
        true
    }

    open spec fn value_spec(&self, usage_page: u16, usage: u16) -> Option<i32> {
        value_from(self.values@, usage_page, usage, 0)
    }

    open spec fn button_spec(&self, usage_page: u16, usage: u16) -> bool {
        self.pressed@.contains((usage_page, usage))
    }

    fn value(&self, usage_page: u16, usage: u16) -> (r: Option<i32>) {
        let mut at: usize = 0;
        while at < self.values.len()
            invariant
                at <= self.values.len(),
                value_from(self.values@, usage_page, usage, 0) == value_from(
                    self.values@,
                    usage_page,
                    usage,
                    at as int,
                ),
            decreases self.values.len() - at,
        {
            let (page, here, value): (u16, u16, i32) = self.values[at];
            if page == usage_page && here == usage {
                return Some(value);
            }
            at += 1;
        }
        None
    }

    fn button(&self, usage_page: u16, usage: u16) -> (r: bool) {
        let mut at: usize = 0;
        while at < self.pressed.len()
            invariant
                at <= self.pressed.len(),
                forall|i: int| 0 <= i < at ==> self.pressed@[i] != (usage_page, usage),
            decreases self.pressed.len() - at,
        {
            let (page, here): (u16, u16) = self.pressed[at];
            if page == usage_page && here == usage {
                assert(self.pressed@[at as int] == (usage_page, usage));
                return true;
            }
            at += 1;
        }
        false
    }
}

/// Is this reading, if there is one, a tenth of a 32-bit number at most?
pub open spec fn counts_in_tenths(value: Option<i32>) -> bool {
    value matches Some(degrees) ==> -214748364 <= degrees <= 214748364
}

/// Angles fit where those that are asked for can be counted in tenths: azimuth
/// and altitude where tilt follows from them, and twist.
pub proof fn angles_fit_where_tenths_do<R: UsageReader>(reader: R, caps: ProfileCaps, r: bool)
    requires
        reader.readable(),
        call_ensures(angles_fit::<R>, (&reader, &caps), r),
    ensures
        ({
            let from_angles = caps.x_tilt is None && caps.y_tilt is None && caps.azimuth is Some && caps.altitude is Some;
            r <==> {
                &&& from_angles ==> counts_in_tenths(reader.value_spec(0x0D, 0x3F)) && counts_in_tenths(
                    reader.value_spec(0x0D, 0x40),
                )
                &&& caps.twist is Some ==> counts_in_tenths(reader.value_spec(0x0D, 0x41))
            }
        }),
{
}

/// A field is made as it is described, signed or not.
pub proof fn fields_are_as_described(page: u16, usage: u16, offset: u32, size: u16, plain: FieldLayout, signed: FieldLayout)
    requires
        call_ensures(FieldLayout::unsigned, (page, usage, offset, size), plain),
        call_ensures(FieldLayout::signed, (page, usage, offset, size), signed),
    ensures
        !plain.signed && signed.signed,
        plain.usage_page == page && plain.usage == usage && plain.bit_offset == offset && plain.bit_size == size,
        signed.usage_page == page && signed.usage == usage && signed.bit_offset == offset && signed.bit_size == size,
{
}

} // verus!
