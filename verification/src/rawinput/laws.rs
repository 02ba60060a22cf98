//! What holds of every tablet and of every report.
//!
//! The laws speak of calls: of what went in and what came out. Pages and usages
//! are given in the numbers of the HID usage tables.
use std::collections::HashSet;
use vstd::prelude::*;

use crate::device::capabilities::{AxisInfo, AxisUnit, DeviceCapabilities};
use crate::device::normalize::{normalize, UnitRatio};
use crate::device::sample::{PenSample, ToolKind};
use crate::double::Double;
use crate::rawinput::caps::{capabilities_from_profile, AxisRange, ProfileCaps, ProfileKind};
use crate::rawinput::capture::range_of_usage;
use crate::rawinput::decode::{
    decode_report, extract_bits, field_from, sample_of, sign_extend, BitfieldReader, FieldLayout, PenReport,
    TiltSource, UsageReader, UsageSnapshot,
};
use crate::rawinput::enumerate::{
    apply_button_cap, apply_value_cap, build_pad_profile, build_profile, kept, parse_caps,
    parse_pad_buttons, resolution_from_cap, spread, spread_all, unit_exponent, usages_ascend, vouches, with_all_buttons,
    with_values, ButtonCap, DeviceInfo, DeviceProfile, ResolutionParts, UsageSpan, ValueCap,
};

verus! {

/// What a report says of a usage; 0 where it says nothing.
pub open spec fn told<R: UsageReader>(reader: R, page: u16, usage: u16) -> int {
    match reader.value_spec(page, usage) {
        Some(value) => value as int,
        None => 0,
    }
}

/// Is `place` where `raw` lies on the way from `min` to `max`? Nothing of the way
/// at its start and before, all of it at its end and beyond, and between them the
/// share that lies behind `raw`. A way without length has nothing behind.
pub open spec fn lies_at(raw: int, min: int, max: int, place: UnitRatio) -> bool {
    &&& 0 < place.denominator
    &&& place.numerator <= place.denominator
    &&& min == max ==> place.numerator == 0
    &&& min < max && raw <= min || max < min && min <= raw ==> place.numerator == 0
    &&& min < max && max <= raw || max < min && raw <= max ==> place.numerator == place.denominator
    &&& min < raw < max || max < raw < min ==> place.numerator * (max - min) == (raw - min) * place.denominator
}

/// A raw value of an axis becomes its share of the range.
pub proof fn shares_measure_the_range(raw: i64, min: i64, max: i64, r: UnitRatio)
    requires
        call_ensures(normalize, (raw, min, max), r),
    ensures
        lies_at(raw as int, min as int, max as int, r),
{
    lemma_along(raw as int, min as int, max as int);
}

proof fn lemma_along(raw: int, min: int, max: int)
    requires
        i64::MIN <= min <= i64::MAX,
        i64::MIN <= max <= i64::MAX,
    ensures
        lies_at(raw, min, max, UnitRatio::along(raw, min, max)),
{
    let place = UnitRatio::along(raw, min, max);
    if min < raw < max {
        assert(place.numerator == raw - min && place.denominator == max - min);
        assert(place.numerator * (max - min) == (raw - min) * place.denominator);
    } else if max < raw < min {
        assert(place.numerator == min - raw && place.denominator == min - max);
        assert((min - raw) * (max - min) == (raw - min) * (min - max)) by (nonlinear_arith);
    }
}

/// A report places the pen where its axes say: each position is the value of its
/// own usage, beside its share of the range that the device promised.
pub proof fn reports_place_the_pen<R: UsageReader>(
    reader: R,
    caps: ProfileCaps,
    t_capture_ns: u64,
    serial: u32,
    r: PenReport,
)
    requires
        call_ensures(decode_report::<R>, (&reader, &caps, t_capture_ns, serial), r),
    ensures
        r.t_capture_ns == t_capture_ns,
        r.serial == serial,
        r.x_raw == told(reader, 0x01, 0x30),
        r.y_raw == told(reader, 0x01, 0x31),
        caps.x matches Some(axis) ==> lies_at(r.x_raw as int, axis.min as int, axis.max as int, r.x_place),
        caps.y matches Some(axis) ==> lies_at(r.y_raw as int, axis.min as int, axis.max as int, r.y_place),
        caps.x is None ==> r.x_place.numerator == 0 && r.x_place.denominator > 0,
        caps.y is None ==> r.y_place.numerator == 0 && r.y_place.denominator > 0,
{
    if let Some(axis) = caps.x {
        lemma_along(r.x_raw as int, axis.min as int, axis.max as int);
    }
    if let Some(axis) = caps.y {
        lemma_along(r.y_raw as int, axis.min as int, axis.max as int);
    }
}

/// A report tells the pressures: that of the tip, which is never negative, with
/// its share of the range, and that of the barrel where the device has it.
pub proof fn reports_tell_the_pressure<R: UsageReader>(
    reader: R,
    caps: ProfileCaps,
    t_capture_ns: u64,
    serial: u32,
    r: PenReport,
)
    requires
        call_ensures(decode_report::<R>, (&reader, &caps, t_capture_ns, serial), r),
    ensures
        told(reader, 0x0D, 0x30) >= 0 ==> r.pressure_raw == told(reader, 0x0D, 0x30),
        told(reader, 0x0D, 0x30) < 0 ==> r.pressure_raw == 0,
        caps.pressure matches Some(axis) ==> lies_at(
            r.pressure_raw as int,
            axis.min as int,
            axis.max as int,
            r.pressure_place,
        ),
        caps.pressure is None ==> r.pressure_place.numerator == 0 && r.pressure_place.denominator > 0,
        caps.tangent_pressure is Some <==> r.tangent_pressure_raw is Some,
        r.tangent_pressure_raw matches Some(p) ==> p == told(reader, 0x0D, 0x31),
{
    if let Some(axis) = caps.pressure {
        lemma_along(r.pressure_raw as int, axis.min as int, axis.max as int);
    }
}

/// A report tells the angles that the device has. Tilt is in degrees, axis by
/// axis. Where there is no tilt but both angles of the orientation, each of them
/// is told in tenths of a degree: ten times its own usage. Twist is too.
pub proof fn reports_tell_the_angles<R: UsageReader>(
    reader: R,
    caps: ProfileCaps,
    t_capture_ns: u64,
    serial: u32,
    r: PenReport,
    azimuth: Option<i32>,
    altitude: Option<i32>,
)
    requires
        reader.readable(),
        crate::rawinput::decode::angles_fit_spec(reader, caps),
        call_ensures(decode_report::<R>, (&reader, &caps, t_capture_ns, serial), r),
        call_ensures(PenReport::azimuth_deci_deg, (&r,), azimuth),
        call_ensures(PenReport::altitude_deci_deg, (&r,), altitude),
    ensures
        ({
            let tilted = caps.x_tilt is Some || caps.y_tilt is Some;
            let oriented = !tilted && caps.azimuth is Some && caps.altitude is Some;
            &&& tilted <==> r.tilt is Degrees
            &&& r.tilt matches TiltSource::Degrees { x, y } ==> {
                &&& x is Some <==> caps.x_tilt is Some
                &&& y is Some <==> caps.y_tilt is Some
                &&& x matches Some(degrees) ==> degrees == told(reader, 0x0D, 0x3D)
                &&& y matches Some(degrees) ==> degrees == told(reader, 0x0D, 0x3E)
            }
            &&& oriented <==> azimuth is Some
            &&& oriented <==> altitude is Some
            &&& azimuth matches Some(tenths) ==> tenths == 10 * told(reader, 0x0D, 0x3F)
            &&& altitude matches Some(tenths) ==> tenths == 10 * told(reader, 0x0D, 0x40)
            &&& !tilted && !oriented ==> r.tilt is Absent
        }),
        r.twist_deci_deg is Some <==> caps.twist is Some,
        r.twist_deci_deg matches Some(tenths) ==> tenths == 10 * told(reader, 0x0D, 0x41),
{
}

/// Is a switch of the digitizer page one that the device has, and on?
pub open spec fn switched_on<R: UsageReader>(reader: R, present: bool, usage: u16) -> bool {
    present && reader.button_spec(0x0D, usage)
}

/// A report tells the switches: tip, barrel and eraser each by its own bit, and
/// no other bit is set. An eraser that is down or a pen that is turned over is an
/// eraser; any other tool with a wheel is an airbrush, and the rest are pens. The
/// tool is near unless a switch for that says otherwise.
pub proof fn reports_tell_the_switches<R: UsageReader>(
    reader: R,
    caps: ProfileCaps,
    t_capture_ns: u64,
    serial: u32,
    r: PenReport,
)
    requires
        call_ensures(decode_report::<R>, (&reader, &caps, t_capture_ns, serial), r),
    ensures
        r.buttons < 8,
        r.buttons % 2 == 1 <==> switched_on(reader, caps.has_tip, 0x42),
        (r.buttons / 2) % 2 == 1 <==> switched_on(reader, caps.has_barrel, 0x44),
        (r.buttons / 4) % 2 == 1 <==> switched_on(reader, caps.has_eraser, 0x45),
        r.tool == ToolKind::Eraser <==> switched_on(reader, caps.has_eraser, 0x45) || switched_on(
            reader,
            caps.has_invert,
            0x3C,
        ),
        r.tool != ToolKind::Eraser ==> (r.tool == ToolKind::Airbrush <==> caps.tangent_pressure is Some),
        r.tool == ToolKind::Eraser || r.tool == ToolKind::Airbrush || r.tool == ToolKind::Pen,
        !r.in_proximity <==> caps.has_in_range && !reader.button_spec(0x0D, 0x32),
{
}

/// A sample repeats its report and takes over the numbers that were computed for
/// it, each in its own place: tilt where the report tells it, axis by axis.
pub proof fn samples_repeat_their_report(
    report: PenReport,
    x_norm: Double,
    y_norm: Double,
    pressure_norm: Double,
    tilt: (Double, Double),
    r: PenSample,
    azimuth: Option<i32>,
    altitude: Option<i32>,
)
    requires
        call_ensures(sample_of, (&report, x_norm, y_norm, pressure_norm, tilt), r),
        call_ensures(PenReport::azimuth_deci_deg, (&report,), azimuth),
        call_ensures(PenReport::altitude_deci_deg, (&report,), altitude),
    ensures
        r.t_capture_ns == report.t_capture_ns,
        r.serial == report.serial,
        r.x_raw == report.x_raw && r.x_norm == x_norm,
        r.y_raw == report.y_raw && r.y_norm == y_norm,
        r.pressure_raw == report.pressure_raw && r.pressure_norm == pressure_norm,
        r.tangent_pressure_raw == report.tangent_pressure_raw,
        r.twist_deci_deg == report.twist_deci_deg,
        r.azimuth_deci_deg == azimuth && r.altitude_deci_deg == altitude,
        r.buttons == report.buttons,
        r.tool == report.tool,
        r.in_proximity == report.in_proximity,
        r.tilt_x_deg is Some ==> r.tilt_x_deg == Some(tilt.0),
        r.tilt_y_deg is Some ==> r.tilt_y_deg == Some(tilt.1),
        match report.tilt {
            TiltSource::Absent => r.tilt_x_deg is None && r.tilt_y_deg is None,
            TiltSource::Degrees { x, y } => {
                &&& r.tilt_x_deg is Some <==> x is Some
                &&& r.tilt_y_deg is Some <==> y is Some
            },
            TiltSource::Orientation { azimuth: around, altitude: above } => {
                &&& r.tilt_x_deg is Some
                &&& r.tilt_y_deg is Some
                &&& azimuth == Some(around)
                &&& altitude == Some(above)
            },
        },
        r.z_raw == 0 && r.t_device_ms == 0 && r.tool_serial == 0 && r.status == 0 && r.rotation_deci_deg is None,
{
}

/// Is `field` the one for the usage?
pub open spec fn field_names(field: FieldLayout, page: u16, usage: u16) -> bool {
    field.usage_page == page && field.usage == usage
}

/// The first field for a usage is the one that is read, and where there is none
/// nothing is read.
proof fn lemma_first_field(fields: Seq<FieldLayout>, page: u16, usage: u16, from: int)
    requires
        0 <= from <= fields.len(),
    ensures
        match field_from(fields, page, usage, from) {
            Some(field) => exists|i: int|
                #![trigger fields[i]]
                from <= i < fields.len() && fields[i] == field && field_names(field, page, usage) && forall|j: int|
                    from <= j < i ==> !field_names(#[trigger] fields[j], page, usage),
            None => forall|j: int| from <= j < fields.len() ==> !field_names(#[trigger] fields[j], page, usage),
        },
    decreases fields.len() - from,
{
    if from < fields.len() {
        if field_names(fields[from], page, usage) {
            assert(fields[from] == fields[from]);
        } else {
            lemma_first_field(fields, page, usage, from + 1);
            if let Some(field) = field_from(fields, page, usage, from) {
                let i = choose|i: int|
                    #![trigger fields[i]]
                    from + 1 <= i < fields.len() && fields[i] == field && field_names(field, page, usage) && forall|j: int|
                        from + 1 <= j < i ==> !field_names(#[trigger] fields[j], page, usage);
                assert(fields[i] == field);
                assert forall|j: int| from <= j < i implies !field_names(#[trigger] fields[j], page, usage) by {}
            }
        }
    }
}

/// A value of a report is read from the first field of its usage, as the bits of
/// that field mean it: with a sign where the field has one. A usage without a
/// field has no value.
pub proof fn values_are_read_from_their_first_field(
    reader: BitfieldReader<'_>,
    page: u16,
    usage: u16,
    r: Option<i32>,
    at: int,
    bits: u32,
    signed: i32,
    plain: i32,
)
    requires
        call_ensures(<BitfieldReader<'_> as UsageReader>::value, (&reader, page, usage), r),
        0 <= at <= reader.values@.len(),
        forall|j: int| 0 <= j < at ==> !field_names(#[trigger] reader.values@[j], page, usage),
        at < reader.values@.len() ==> {
            let field = reader.values@[at];
            &&& field_names(field, page, usage)
            &&& call_ensures(extract_bits, (reader.report, field.bit_offset, field.bit_size), bits)
            &&& call_ensures(sign_extend, (bits, field.bit_size), signed)
            &&& call_ensures(sign_extend, (bits, 32u16), plain)
        },
    ensures
        at == reader.values@.len() ==> r is None,
        at < reader.values@.len() ==> r == Some(
            if reader.values@[at].signed {
                signed
            } else {
                plain
            },
        ),
{
    lemma_first_field(reader.values@, page, usage, 0);
    if let Some(field) = field_from(reader.values@, page, usage, 0) {
        let i = choose|i: int|
            #![trigger reader.values@[i]]
            0 <= i < reader.values@.len() && reader.values@[i] == field && field_names(field, page, usage) && forall|j: int|
                0 <= j < i ==> !field_names(#[trigger] reader.values@[j], page, usage);
        assert(field_names(reader.values@[i], page, usage));
        if at < i {
            assert(!field_names(reader.values@[at], page, usage));
        }
    } else if at < reader.values@.len() {
        assert(!field_names(reader.values@[at], page, usage));
    }
}

/// A field of one whole byte reads as that byte, and one of two as both, the
/// lower one first; a single bit reads as that bit of its byte.
pub proof fn fields_read_their_bytes(report: &[u8], at: u32, byte: u32, word: u32, bit: u16, single: u32)
    requires
        at + 1 < report@.len(),
        at < 0x1000_0000,
        bit < 8,
        call_ensures(extract_bits, (report, (8 * at) as u32, 8u16), byte),
        call_ensures(extract_bits, (report, (8 * at) as u32, 16u16), word),
        call_ensures(extract_bits, (report, (8 * at + bit) as u32, 1u16), single),
    ensures
        byte == report@[at as int],
        word == report@[at as int] + 256 * report@[at + 1],
        single == 1 <==> (report@[at as int] as int / vstd::arithmetic::power2::pow2(bit as nat) as int) % 2 == 1,
        single <= 1,
{
    use_bytes(report@, at as int);
    vstd::arithmetic::power2::lemma2_to64();
    reveal_with_fuel(crate::rawinput::decode::bits_value, 2);
    assert((8 * at + bit) / 8 == at && (8 * at + bit) % 8 == bit);
}

proof fn use_bytes(report: Seq<u8>, at: int)
    requires
        0 <= at,
        at + 1 < report.len(),
    ensures
        crate::rawinput::decode::bits_value(report, 8 * at, 8) == report[at],
        crate::rawinput::decode::bits_value(report, 8 * at, 16) == report[at] + 256 * report[at + 1],
{
    crate::rawinput::decode::whole_bytes_are_little_endian(report, at, 1);
    crate::rawinput::decode::whole_bytes_are_little_endian(report, at, 2);
    vstd::arithmetic::power2::lemma2_to64();
    reveal_with_fuel(crate::rawinput::decode::little_endian, 3);
    let (low, high) = (report[at] as nat, report[at + 1] as nat);
    assert(low * vstd::arithmetic::power2::pow2(0) == low);
    assert(high * vstd::arithmetic::power2::pow2(8) == 256 * high);
}

/// Signed numbers come back from their patterns: the upper half of the patterns
/// of a width means the negative numbers, a whole turn below.
pub proof fn patterns_above_half_are_negative(value: u32, bit_size: u16, r: i32)
    requires
        call_ensures(sign_extend, (value, bit_size), r),
        0 < bit_size <= 32,
        value < vstd::arithmetic::power2::pow2(bit_size as nat),
    ensures
        ({
            let turn = vstd::arithmetic::power2::pow2(bit_size as nat);
            &&& 2 * value < turn ==> r == value
            &&& 2 * value >= turn ==> r == value - turn
        }),
{
    vstd::arithmetic::power2::lemma2_to64();
    vstd::arithmetic::power2::lemma_pow2_unfold(bit_size as nat);
    vstd::arithmetic::div_mod::lemma_small_mod(value as nat, vstd::arithmetic::power2::pow2(bit_size as nat));
}

/// A switch of a report is on exactly where the first field of its usage holds
/// anything but zeros; a field without width is read as one bit, and a usage
/// without a field is off.
pub proof fn switches_are_read_from_their_first_field(
    reader: BitfieldReader<'_>,
    page: u16,
    usage: u16,
    r: bool,
    at: int,
    bits: u32,
)
    requires
        call_ensures(<BitfieldReader<'_> as UsageReader>::button, (&reader, page, usage), r),
        0 <= at <= reader.buttons@.len(),
        forall|j: int| 0 <= j < at ==> !field_names(#[trigger] reader.buttons@[j], page, usage),
        at < reader.buttons@.len() ==> {
            let field = reader.buttons@[at];
            &&& field_names(field, page, usage)
            &&& call_ensures(
                extract_bits,
                (
                    reader.report,
                    field.bit_offset,
                    if field.bit_size == 0 {
                        1u16
                    } else {
                        field.bit_size
                    },
                ),
                bits,
            )
        },
    ensures
        r <==> at < reader.buttons@.len() && bits != 0,
{
    lemma_first_field(reader.buttons@, page, usage, 0);
    if let Some(field) = field_from(reader.buttons@, page, usage, 0) {
        let i = choose|i: int|
            #![trigger reader.buttons@[i]]
            0 <= i < reader.buttons@.len() && reader.buttons@[i] == field && field_names(field, page, usage)
                && forall|j: int| 0 <= j < i ==> !field_names(#[trigger] reader.buttons@[j], page, usage);
        assert(field_names(reader.buttons@[i], page, usage));
        if at < i {
            assert(!field_names(reader.buttons@[at], page, usage));
        }
    } else if at < reader.buttons@.len() {
        assert(!field_names(reader.buttons@[at], page, usage));
    }
}

/// Usages that were read beforehand give back what was read: the first value of
/// a usage, and for a switch whether it is listed.
pub proof fn snapshots_give_back_what_was_read(
    snapshot: UsageSnapshot,
    page: u16,
    usage: u16,
    value: Option<i32>,
    pressed: bool,
    at: int,
)
    requires
        call_ensures(<UsageSnapshot as UsageReader>::value, (&snapshot, page, usage), value),
        call_ensures(<UsageSnapshot as UsageReader>::button, (&snapshot, page, usage), pressed),
        0 <= at <= snapshot.values@.len(),
        forall|j: int|
            0 <= j < at ==> (#[trigger] snapshot.values@[j]).0 != page || snapshot.values@[j].1 != usage,
        at < snapshot.values@.len() ==> snapshot.values@[at].0 == page && snapshot.values@[at].1 == usage,
    ensures
        at == snapshot.values@.len() ==> value is None,
        at < snapshot.values@.len() ==> value == Some(snapshot.values@[at].2),
        pressed <==> exists|i: int| 0 <= i < snapshot.pressed@.len() && #[trigger] snapshot.pressed@[i] == (page, usage),
{
    lemma_snapshot_value(snapshot.values@, page, usage, 0, at);
}

proof fn lemma_snapshot_value(values: Seq<(u16, u16, i32)>, page: u16, usage: u16, from: int, at: int)
    requires
        0 <= from <= at <= values.len(),
        forall|j: int| from <= j < at ==> (#[trigger] values[j]).0 != page || values[j].1 != usage,
        at < values.len() ==> values[at].0 == page && values[at].1 == usage,
    ensures
        crate::rawinput::decode::value_from(values, page, usage, from) == if at < values.len() {
            Some(values[at].2)
        } else {
            None
        },
    decreases at - from,
{
    if from < at {
        lemma_snapshot_value(values, page, usage, from + 1, at);
    }
}

/// The smallest usage of an entry.
pub open spec fn lowest(usages: UsageSpan) -> u16 {
    match usages {
        UsageSpan::One(usage) => usage,
        UsageSpan::Range { first, .. } => first,
    }
}

/// The largest usage of an entry.
pub open spec fn highest(usages: UsageSpan) -> u16 {
    match usages {
        UsageSpan::One(usage) => usage,
        UsageSpan::Range { last, .. } => last,
    }
}

/// Does a value field go by this usage? It goes by its first one.
pub open spec fn goes_by(cap: ValueCap, page: u16, usage: u16) -> bool {
    cap.usage_page == page && lowest(cap.usages) == usage
}

/// Does an entry of switches hold this usage of the digitizer page?
pub open spec fn switches(cap: ButtonCap, usage: u16) -> bool {
    cap.usage_page == 0x0D && lowest(cap.usages) <= usage <= highest(cap.usages)
}

/// Is `range` what the value fields say of a usage? It repeats the last field
/// that goes by the usage: its limits, resolution and width. Without such a field
/// there is no range.
pub open spec fn repeats_last_field(
    range: Option<AxisRange>,
    values: Seq<ValueCap>,
    page: u16,
    usage: u16,
) -> bool {
    match range {
        Some(axis) => exists|i: int|
            #![trigger values[i]]
            0 <= i < values.len() && goes_by(values[i], page, usage) && axis.min == values[i].logical_min && axis.max
                == values[i].logical_max && axis.resolution == values[i].resolution && axis.bit_size
                == values[i].bit_size && forall|j: int|
                i < j < values.len() ==> !goes_by(#[trigger] values[j], page, usage),
        None => forall|j: int| 0 <= j < values.len() ==> !goes_by(#[trigger] values[j], page, usage),
    }
}

/// Is this one of the axes of a tablet?
spec fn is_axis(page: u16, usage: u16) -> bool {
    (page == 0x01 && (usage == 0x30 || usage == 0x31)) || (page == 0x0D && (usage == 0x30 || usage == 0x31 || usage
        == 0x3D || usage == 0x3E || usage == 0x3F || usage == 0x40 || usage == 0x41))
}

proof fn lemma_axis(start: ProfileCaps, values: Seq<ValueCap>, n: nat, page: u16, usage: u16)
    requires
        n <= values.len(),
        start.has_no_usages(),
        is_axis(page, usage),
    ensures
        repeats_last_field(range_of_usage(with_values(start, values, n), page, usage), values.take(n as int), page, usage),
    decreases n,
{
    let taken = values.take(n as int);
    let range = range_of_usage(with_values(start, values, n), page, usage);
    if n > 0 {
        let before = values.take(n - 1);
        let cap = values[n - 1];
        lemma_axis(start, values, (n - 1) as nat, page, usage);
        assert(forall|j: int| 0 <= j < n - 1 ==> #[trigger] taken[j] == before[j]);
        assert(taken[n - 1] == cap);
        if goes_by(cap, page, usage) {
            assert(goes_by(taken[n - 1], page, usage));
        } else {
            let earlier = range_of_usage(with_values(start, values, (n - 1) as nat), page, usage);
            assert(range == earlier);
            if let Some(axis) = range {
                let i = choose|i: int|
                    #![trigger before[i]]
                    0 <= i < before.len() && goes_by(before[i], page, usage) && axis.min == before[i].logical_min
                        && axis.max == before[i].logical_max && axis.resolution == before[i].resolution && axis.bit_size
                        == before[i].bit_size && forall|j: int|
                        i < j < before.len() ==> !goes_by(#[trigger] before[j], page, usage);
                assert(taken[i] == before[i]);
                assert forall|j: int| i < j < taken.len() implies !goes_by(#[trigger] taken[j], page, usage) by {
                    if j < n - 1 {
                        assert(!goes_by(before[j], page, usage));
                    }
                }
            } else {
                assert forall|j: int| 0 <= j < taken.len() implies !goes_by(#[trigger] taken[j], page, usage) by {
                    if j < n - 1 {
                        assert(!goes_by(before[j], page, usage));
                    }
                }
            }
        }
    }
}

/// Value fields set the switch for proximity, and no other.
proof fn lemma_value_switches(start: ProfileCaps, values: Seq<ValueCap>, n: nat)
    requires
        n <= values.len(),
        start.has_no_usages(),
    ensures
        ({
            let caps = with_values(start, values, n);
            &&& caps.has_in_range <==> exists|i: int| 0 <= i < n && goes_by(#[trigger] values[i], 0x0D, 0x32)
            &&& !caps.has_tip && !caps.has_barrel && !caps.has_eraser && !caps.has_invert
            &&& caps.kind == start.kind && caps.pad_buttons == start.pad_buttons && caps.vendor_id == start.vendor_id
            &&& caps.device_name == start.device_name && caps.driver_version == start.driver_version
        }),
    decreases n,
{
    if n > 0 {
        lemma_value_switches(start, values, (n - 1) as nat);
        assert(values[n - 1] == values[n - 1]);
    }
}

/// Is the switch known?
spec fn knows(caps: ProfileCaps, usage: u16) -> bool {
    if usage == 0x32 {
        caps.has_in_range
    } else if usage == 0x42 {
        caps.has_tip
    } else if usage == 0x44 {
        caps.has_barrel
    } else if usage == 0x45 {
        caps.has_eraser
    } else {
        caps.has_invert
    }
}

/// A switch is added by the entries that hold it.
proof fn lemma_switch(start: ProfileCaps, buttons: Seq<ButtonCap>, n: nat, usage: u16)
    requires
        n <= buttons.len(),
        usage == 0x32 || usage == 0x42 || usage == 0x44 || usage == 0x45 || usage == 0x3C,
    ensures
        knows(with_all_buttons(start, buttons, n), usage) <==> knows(start, usage) || exists|i: int|
            0 <= i < n && switches(#[trigger] buttons[i], usage),
    decreases n,
{
    if n > 0 {
        lemma_switch(start, buttons, (n - 1) as nat, usage);
        let before = with_all_buttons(start, buttons, (n - 1) as nat);
        assert(knows(with_all_buttons(start, buttons, n), usage) <==> knows(before, usage) || switches(
            buttons[n - 1],
            usage,
        ));
        if switches(buttons[n - 1], usage) {
            assert(0 <= n - 1 < n && switches(buttons[n - 1], usage));
        }
    }
}

/// Switches leave everything else as it is.
proof fn lemma_button_frame(start: ProfileCaps, buttons: Seq<ButtonCap>, n: nat)
    requires
        n <= buttons.len(),
    ensures
        ({
            let caps = with_all_buttons(start, buttons, n);
            &&& caps.x == start.x && caps.y == start.y && caps.pressure == start.pressure
            &&& caps.tangent_pressure == start.tangent_pressure && caps.twist == start.twist
            &&& caps.x_tilt == start.x_tilt && caps.y_tilt == start.y_tilt
            &&& caps.azimuth == start.azimuth && caps.altitude == start.altitude
            &&& caps.kind == start.kind && caps.pad_buttons == start.pad_buttons && caps.vendor_id == start.vendor_id
            &&& caps.device_name == start.device_name && caps.driver_version == start.driver_version
        }),
    decreases n,
{
    if n > 0 {
        lemma_button_frame(start, buttons, (n - 1) as nat);
    }
}

/// A tablet is learned as its descriptor describes it: each axis has the limits,
/// the resolution and the width of the last field that goes by its usage, and
/// exists only where there is such a field.
pub proof fn axes_are_those_of_the_descriptor(values: &[ValueCap], buttons: &[ButtonCap], r: ProfileCaps)
    requires
        call_ensures(parse_caps, (values, buttons), r),
    ensures
        repeats_last_field(r.x, values@, 0x01, 0x30),
        repeats_last_field(r.y, values@, 0x01, 0x31),
        repeats_last_field(r.pressure, values@, 0x0D, 0x30),
        repeats_last_field(r.tangent_pressure, values@, 0x0D, 0x31),
        repeats_last_field(r.x_tilt, values@, 0x0D, 0x3D),
        repeats_last_field(r.y_tilt, values@, 0x0D, 0x3E),
        repeats_last_field(r.azimuth, values@, 0x0D, 0x3F),
        repeats_last_field(r.altitude, values@, 0x0D, 0x40),
        repeats_last_field(r.twist, values@, 0x0D, 0x41),
{
    let start = choose|start: ProfileCaps| #[trigger]
        start.blank() && r == with_all_buttons(
            with_values(start, values@, values@.len()),
            buttons@,
            buttons@.len(),
        );
    let valued = with_values(start, values@, values@.len());
    lemma_button_frame(valued, buttons@, buttons@.len());
    assert(values@.take(values@.len() as int) =~= values@);
    lemma_axis(start, values@, values@.len(), 0x01, 0x30);
    lemma_axis(start, values@, values@.len(), 0x01, 0x31);
    lemma_axis(start, values@, values@.len(), 0x0D, 0x30);
    lemma_axis(start, values@, values@.len(), 0x0D, 0x31);
    lemma_axis(start, values@, values@.len(), 0x0D, 0x3D);
    lemma_axis(start, values@, values@.len(), 0x0D, 0x3E);
    lemma_axis(start, values@, values@.len(), 0x0D, 0x3F);
    lemma_axis(start, values@, values@.len(), 0x0D, 0x40);
    lemma_axis(start, values@, values@.len(), 0x0D, 0x41);
    assert(range_of_usage(valued, 0x01, 0x30) == r.x);
    assert(range_of_usage(valued, 0x01, 0x31) == r.y);
    assert(range_of_usage(valued, 0x0D, 0x30) == r.pressure);
    assert(range_of_usage(valued, 0x0D, 0x31) == r.tangent_pressure);
    assert(range_of_usage(valued, 0x0D, 0x3D) == r.x_tilt);
    assert(range_of_usage(valued, 0x0D, 0x3E) == r.y_tilt);
    assert(range_of_usage(valued, 0x0D, 0x3F) == r.azimuth);
    assert(range_of_usage(valued, 0x0D, 0x40) == r.altitude);
    assert(range_of_usage(valued, 0x0D, 0x41) == r.twist);
}

/// A tablet has a switch exactly where an entry of the digitizer page holds it,
/// on its own or in a range; proximity may come as a value too. What was learned
/// is a pen without a name.
pub proof fn switches_are_those_of_the_descriptor(values: &[ValueCap], buttons: &[ButtonCap], r: ProfileCaps)
    requires
        call_ensures(parse_caps, (values, buttons), r),
    ensures
        r.has_tip <==> exists|i: int| 0 <= i < buttons@.len() && switches(#[trigger] buttons@[i], 0x42),
        r.has_barrel <==> exists|i: int| 0 <= i < buttons@.len() && switches(#[trigger] buttons@[i], 0x44),
        r.has_eraser <==> exists|i: int| 0 <= i < buttons@.len() && switches(#[trigger] buttons@[i], 0x45),
        r.has_invert <==> exists|i: int| 0 <= i < buttons@.len() && switches(#[trigger] buttons@[i], 0x3C),
        r.has_in_range <==> (exists|i: int| 0 <= i < buttons@.len() && switches(#[trigger] buttons@[i], 0x32)) || (
        exists|i: int| 0 <= i < values@.len() && goes_by(#[trigger] values@[i], 0x0D, 0x32)),
        r.kind == ProfileKind::Pen,
        r.pad_buttons@.len() == 0,
        r.device_name@.len() == 0,
        r.driver_version@.len() == 0,
        r.vendor_id == 0,
{
    let start = choose|start: ProfileCaps| #[trigger]
        start.blank() && r == with_all_buttons(
            with_values(start, values@, values@.len()),
            buttons@,
            buttons@.len(),
        );
    lemma_value_switches(start, values@, values@.len());
    let valued = with_values(start, values@, values@.len());
    lemma_button_frame(valued, buttons@, buttons@.len());
    lemma_switch(valued, buttons@, buttons@.len(), 0x32);
    lemma_switch(valued, buttons@, buttons@.len(), 0x42);
    lemma_switch(valued, buttons@, buttons@.len(), 0x44);
    lemma_switch(valued, buttons@, buttons@.len(), 0x45);
    lemma_switch(valued, buttons@, buttons@.len(), 0x3C);
}

/// One value field sets the axis that it goes by to what it says, whatever was
/// known of that axis.
pub proof fn fields_describe_their_axis(caps: &mut ProfileCaps, cap: ValueCap)
    requires
        call_ensures(apply_value_cap, (caps, &cap), ()),
    ensures
        ({
            let said = Some(
                AxisRange {
                    min: cap.logical_min,
                    max: cap.logical_max,
                    resolution: cap.resolution,
                    bit_size: cap.bit_size,
                },
            );
            let (before, after) = (*old(caps), *final(caps));
            &&& after.x == if goes_by(cap, 0x01, 0x30) { said } else { before.x }
            &&& after.y == if goes_by(cap, 0x01, 0x31) { said } else { before.y }
            &&& after.pressure == if goes_by(cap, 0x0D, 0x30) { said } else { before.pressure }
            &&& after.tangent_pressure == if goes_by(cap, 0x0D, 0x31) { said } else { before.tangent_pressure }
            &&& after.x_tilt == if goes_by(cap, 0x0D, 0x3D) { said } else { before.x_tilt }
            &&& after.y_tilt == if goes_by(cap, 0x0D, 0x3E) { said } else { before.y_tilt }
            &&& after.azimuth == if goes_by(cap, 0x0D, 0x3F) { said } else { before.azimuth }
            &&& after.altitude == if goes_by(cap, 0x0D, 0x40) { said } else { before.altitude }
            &&& after.twist == if goes_by(cap, 0x0D, 0x41) { said } else { before.twist }
            &&& after.has_in_range == (before.has_in_range || goes_by(cap, 0x0D, 0x32))
        }),
{
}

/// One entry of switches adds those that it holds and takes none away.
pub proof fn entries_add_their_switches(caps: &mut ProfileCaps, cap: ButtonCap)
    requires
        call_ensures(apply_button_cap, (caps, &cap), ()),
    ensures
        final(caps).has_tip == (old(caps).has_tip || switches(cap, 0x42)),
        final(caps).has_barrel == (old(caps).has_barrel || switches(cap, 0x44)),
        final(caps).has_eraser == (old(caps).has_eraser || switches(cap, 0x45)),
        final(caps).has_invert == (old(caps).has_invert || switches(cap, 0x3C)),
        final(caps).has_in_range == (old(caps).has_in_range || switches(cap, 0x32)),
        final(caps).x == old(caps).x,
        final(caps).y == old(caps).y,
        final(caps).pressure == old(caps).pressure,
{
}

/// The usages that the first `n` entries hold, counted one by one.
pub open spec fn held(caps: Seq<ButtonCap>, n: nat) -> int
    decreases n,
{
    if n == 0 {
        0
    } else {
        let span = caps[n - 1].usages;
        held(caps, (n - 1) as nat) + if lowest(span) <= highest(span) {
            highest(span) - lowest(span) + 1
        } else {
            0
        }
    }
}

/// Does an entry hold this usage of this page?
pub open spec fn holds_key(cap: ButtonCap, key: (u16, u16)) -> bool {
    cap.usage_page == key.0 && lowest(cap.usages) <= key.1 <= highest(cap.usages)
}

proof fn lemma_spread_all(caps: Seq<ButtonCap>, n: nat, key: (u16, u16))
    requires
        n <= caps.len(),
    ensures
        spread_all(caps, n).len() == held(caps, n),
        spread_all(caps, n).contains(key) <==> exists|i: int| 0 <= i < n && holds_key(#[trigger] caps[i], key),
    decreases n,
{
    if n > 0 {
        let before = spread_all(caps, (n - 1) as nat);
        let here = spread(caps[n - 1]);
        let all = spread_all(caps, n);
        lemma_spread_all(caps, (n - 1) as nat, key);
        let low = lowest(caps[n - 1].usages);
        assert(holds_key(caps[n - 1], key) <==> here.contains(key)) by {
            if holds_key(caps[n - 1], key) {
                assert(here[key.1 - low] == key);
            }
        }
        if all.contains(key) {
            let k = choose|k: int| 0 <= k < all.len() && all[k] == key;
            if k < before.len() {
                assert(before[k] == key);
            } else {
                assert(here[k - before.len()] == key);
                assert(holds_key(caps[n - 1], key));
            }
        }
        if before.contains(key) {
            let k = choose|k: int| 0 <= k < before.len() && before[k] == key;
            assert(all[k] == key);
        }
        if here.contains(key) {
            let k = choose|k: int| 0 <= k < here.len() && here[k] == key;
            assert(all[before.len() + k] == key);
        }
    }
}

/// The keys of a pad are usages that its descriptor holds, each once and in
/// ascending order, by page first. None is left out, unless the descriptor holds
/// more than 64.
pub proof fn pad_keys_are_those_of_the_descriptor(caps: &[ButtonCap], r: Vec<(u16, u16)>, key: (u16, u16))
    requires
        call_ensures(parse_pad_buttons, (caps,), r),
    ensures
        r@.contains(key) ==> exists|i: int| 0 <= i < caps@.len() && holds_key(#[trigger] caps@[i], key),
        held(caps@, caps@.len()) <= 64 && (exists|i: int| 0 <= i < caps@.len() && holds_key(#[trigger] caps@[i], key))
            ==> r@.contains(key),
        forall|i: int, j: int|
            #![trigger r@[i], r@[j]]
            0 <= i < j < r@.len() ==> r@[i].0 < r@[j].0 || (r@[i].0 == r@[j].0 && r@[i].1 < r@[j].1),
{
    let all = spread_all(caps@, caps@.len());
    lemma_spread_all(caps@, caps@.len(), key);
    assert forall|i: int, j: int|
        #![trigger r@[i], r@[j]]
        0 <= i < j < r@.len() implies r@[i].0 < r@[j].0 || (r@[i].0 == r@[j].0 && r@[i].1 < r@[j].1) by {
        assert(usages_ascend(r@));
        assert(crate::rawinput::enumerate::precedes(r@[i], r@[j]));
    }
    if r@.contains(key) {
        assert(kept(all).contains(key));
        let k = choose|k: int| 0 <= k < kept(all).len() && kept(all)[k] == key;
        assert(all[k] == key);
        assert(all.contains(key));
    }
}

/// The place of a usage of entry `i`, among the usages of all entries.
pub open spec fn place_among(caps: Seq<ButtonCap>, i: int, key: (u16, u16)) -> int {
    held(caps, i as nat) + key.1 - lowest(caps[i].usages)
}

proof fn lemma_spread_place(caps: Seq<ButtonCap>, n: nat, i: int, key: (u16, u16))
    requires
        0 <= i < n <= caps.len(),
        holds_key(caps[i], key),
    ensures
        0 <= place_among(caps, i, key) < spread_all(caps, n).len(),
        spread_all(caps, n)[place_among(caps, i, key)] == key,
    decreases n,
{
    let before = spread_all(caps, (n - 1) as nat);
    lemma_spread_all(caps, (n - 1) as nat, key);
    if i < n - 1 {
        lemma_spread_place(caps, (n - 1) as nat, i, key);
    } else {
        assert(spread(caps[i])[key.1 - lowest(caps[i].usages)] == key);
    }
}

proof fn lemma_spread_origin(caps: Seq<ButtonCap>, n: nat, k: int) -> (i: int)
    requires
        n <= caps.len(),
        0 <= k < spread_all(caps, n).len(),
    ensures
        0 <= i < n,
        holds_key(caps[i], spread_all(caps, n)[k]),
        place_among(caps, i, spread_all(caps, n)[k]) == k,
    decreases n,
{
    let before = spread_all(caps, (n - 1) as nat);
    lemma_spread_all(caps, (n - 1) as nat, (0, 0));
    if k < before.len() {
        lemma_spread_origin(caps, (n - 1) as nat, k)
    } else {
        assert(spread_all(caps, n)[k] == spread(caps[n - 1])[k - before.len()]);
        n - 1
    }
}

/// The keys of a pad are the first 64 usages that its descriptor holds, entry by
/// entry.
pub proof fn pad_keys_are_the_first_of_the_descriptor(caps: &[ButtonCap], r: Vec<(u16, u16)>, i: int, key: (u16, u16))
    requires
        call_ensures(parse_pad_buttons, (caps,), r),
    ensures
        0 <= i < caps@.len() && holds_key(caps@[i], key) && place_among(caps@, i, key) < 64 ==> r@.contains(key),
        r@.contains(key) ==> exists|k: int|
            0 <= k < caps@.len() && holds_key(#[trigger] caps@[k], key) && place_among(caps@, k, key) < 64,
{
    let all = spread_all(caps@, caps@.len());
    if 0 <= i < caps@.len() && holds_key(caps@[i], key) && place_among(caps@, i, key) < 64 {
        lemma_spread_place(caps@, caps@.len(), i, key);
        assert(kept(all)[place_among(caps@, i, key)] == key);
        assert(kept(all).contains(key));
    }
    if r@.contains(key) {
        assert(kept(all).contains(key));
        let at = choose|at: int| 0 <= at < kept(all).len() && kept(all)[at] == key;
        assert(all[at] == key);
        let k = lemma_spread_origin(caps@, caps@.len(), at);
        assert(holds_key(caps@[k], key));
    }
}

/// A unit exponent is the number between -8 and 7 that agrees with the low four
/// bits.
pub proof fn exponents_are_four_bits_wide(raw: u32, r: i32)
    requires
        call_ensures(unit_exponent, (raw,), r),
    ensures
        -8 <= r <= 7,
        (raw - r) % 16 == 0,
{
}

/// A resolution has the spans of the field and its power of ten, and is there
/// exactly where the field has a physical range.
pub proof fn resolutions_come_from_the_spans(cap: ValueCap, r: Option<ResolutionParts>, exponent: i32)
    requires
        call_ensures(resolution_from_cap, (&cap,), r),
        call_ensures(unit_exponent, (cap.units_exp,), exponent),
    ensures
        r is Some <==> cap.physical_min != cap.physical_max,
        r matches Some(parts) ==> {
            &&& cap.logical_min + parts.logical_span == cap.logical_max
            &&& cap.physical_min + parts.physical_span == cap.physical_max
            &&& parts.exponent == exponent
        },
{
}

/// Only surfaces and pens of the digitizer page become tablets, and only with a
/// descriptor that was read and parsed. What was parsed is kept; the vendor is
/// the low half of its number.
pub proof fn tablets_are_surfaces_and_pens(
    handle: isize,
    info: Option<DeviceInfo>,
    name: Option<String>,
    preparsed: Option<Vec<u8>>,
    parsed: Option<ProfileCaps>,
    r: Option<DeviceProfile>,
)
    requires
        call_ensures(build_profile, (handle, info, name, preparsed, parsed), r),
    ensures
        r is Some <==> {
            &&& info matches Some(i) && i.usage_page == 0x0D && (i.usage == 1 || i.usage == 2)
            &&& preparsed is Some
            &&& parsed is Some
        },
        r matches Some(profile) ==> {
            let (got, learned) = (profile.caps, parsed->0);
            &&& profile.handle == handle
            &&& profile.preparsed == preparsed->0
            &&& got.vendor_id == (info->0).vendor_id % 65536
            &&& name matches Some(n) ==> got.device_name@ == n@
            &&& name is None ==> got.device_name@ == "HID digitizer"@
            &&& got.kind == learned.kind && got.pad_buttons == learned.pad_buttons
            &&& got.x == learned.x && got.y == learned.y && got.pressure == learned.pressure
            &&& got.tangent_pressure == learned.tangent_pressure && got.twist == learned.twist
            &&& got.x_tilt == learned.x_tilt && got.y_tilt == learned.y_tilt
            &&& got.azimuth == learned.azimuth && got.altitude == learned.altitude
            &&& got.has_tip == learned.has_tip && got.has_barrel == learned.has_barrel
            &&& got.has_eraser == learned.has_eraser && got.has_invert == learned.has_invert
            &&& got.has_in_range == learned.has_in_range
        },
{
}

/// Only media keys and vendor pages become pads, only those of a vendor that made
/// one of the tablets, and only with keys. A pad has its keys and nothing of a
/// pen.
pub proof fn pads_belong_to_a_tablet(
    handle: isize,
    info: Option<DeviceInfo>,
    vendors: HashSet<u16>,
    name: Option<String>,
    preparsed: Option<Vec<u8>>,
    buttons: Option<Vec<(u16, u16)>>,
    r: Option<DeviceProfile>,
)
    requires
        call_ensures(build_pad_profile, (handle, info, &vendors, name, preparsed, buttons), r),
    ensures
        r is Some <==> {
            &&& info matches Some(i) && (i.usage_page == 0x0C && i.usage == 1 || i.usage_page >= 0xFF00) && vendors@.contains(
                (i.vendor_id % 65536) as u16,
            )
            &&& preparsed is Some
            &&& buttons matches Some(keys) && keys@.len() > 0
        },
        r matches Some(profile) ==> {
            &&& profile.handle == handle
            &&& profile.preparsed == preparsed->0
            &&& profile.caps.kind == ProfileKind::Pad
            &&& profile.caps.pad_buttons == buttons->0
            &&& profile.caps.vendor_id == (info->0).vendor_id % 65536
            &&& name matches Some(n) ==> profile.caps.device_name@ == n@
            &&& name is None ==> profile.caps.device_name@ == "HID tablet pad"@
            &&& profile.caps.x is None && profile.caps.pressure is None && !profile.caps.has_tip
        },
{
}

/// A vendor counts as that of a tablet by a pen that it made: pads vouch for
/// nobody, a pen only for its own vendor, and an unknown vendor never counts.
pub proof fn pens_vouch_for_their_vendor(profile: DeviceProfile, vendor: u16)
    ensures
        vouches(profile, vendor) ==> vendor != 0,
        profile.caps.kind == ProfileKind::Pad ==> !vouches(profile, vendor),
        profile.caps.kind == ProfileKind::Pen && vendor != 0 ==> (vouches(profile, vendor) <==> profile.caps.vendor_id
            == vendor),
{
}

/// Is `axis` the description of a range in a unit? An absent one is unsupported.
pub open spec fn describes_axis(axis: AxisInfo, range: Option<AxisRange>, unit: AxisUnit) -> bool {
    match range {
        Some(given) => {
            &&& axis.supported
            &&& axis.min == given.min
            &&& axis.max == given.max
            &&& axis.resolution == given.resolution
            &&& axis.unit == unit
        },
        None => !axis.supported && axis.min == 0 && axis.max == 0,
    }
}

/// A device is described by what was learned of it: each axis with its own
/// limits, angles in degrees, and what the device lacks as unsupported.
pub proof fn devices_are_described_as_learned(caps: ProfileCaps, queue_size: u32, r: DeviceCapabilities)
    requires
        call_ensures(capabilities_from_profile, (&caps, queue_size), r),
    ensures
        r.device_name@ == caps.device_name@,
        r.driver_version@ == caps.driver_version@,
        describes_axis(r.x, caps.x, AxisUnit::Unitless),
        describes_axis(r.y, caps.y, AxisUnit::Unitless),
        describes_axis(r.pressure, caps.pressure, AxisUnit::Unitless),
        describes_axis(r.tangent_pressure, caps.tangent_pressure, AxisUnit::Unitless),
        describes_axis(r.azimuth, caps.azimuth, AxisUnit::Degree),
        describes_axis(r.altitude, caps.altitude, AxisUnit::Degree),
        describes_axis(r.twist, caps.twist, AxisUnit::Degree),
        !r.z.supported,
        !r.rotation.supported,
        r.max_packet_rate_hz == 0,
        r.queue_size == queue_size,
{
}

/// A field is signed exactly where its range goes below zero, and a range keeps
/// the limits that it was made with.
pub proof fn ranges_keep_their_limits(min: i32, max: i32, r: AxisRange, signed: bool)
    requires
        call_ensures(AxisRange::new, (min, max), r),
        call_ensures(AxisRange::is_signed, (&r,), signed),
    ensures
        r.min == min,
        r.max == max,
        r.bit_size == 0,
        r.resolution.bits == 0,
        signed <==> min < 0,
{
}

} // verus!
