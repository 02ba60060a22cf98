//! What holds of every capture session.
//!
//! The laws speak of calls: of what went in and what came out.
use vstd::prelude::*;

use crate::device::capabilities::DeviceCapabilities;
use crate::device::sample::{PenSample, SampleEvent};
use crate::rawinput::block::{begin_block, complete_samples, decode_reports, ReportNumbers};
use crate::rawinput::caps::{capabilities_from_profile, AxisRange, ProfileCaps};
use crate::rawinput::capture::{
    drain_step, emit_proximity_transition, field_value, handle_device_change, measure_rate, needs_single_read,
    next_block, qpc_frequency, qpc_ns, range_for, reports_in_block, take_sample, usage_listed, CaptureState, DrainStep,
};
use crate::rawinput::decode::{decode_report, sample_of, sign_extend, PenReport, UsageReader};
use crate::rawinput::enumerate::DeviceProfile;
use crate::rawinput::pad::{button_edges, edges_tell_the_changes};

verus! {

/// A clock that runs forward is read in whole nanoseconds: the last one that has
/// passed after so many ticks, as long as 64 bits can count it.
pub proof fn clocks_are_read_in_nanoseconds(ticks: i64, freq: i64, r: u64)
    requires
        ticks >= 0,
        freq > 0,
        ticks * 1_000_000_000 < freq * 0x1_0000_0000_0000_0000,
        call_ensures(qpc_ns, (ticks, freq), r),
    ensures
        r * freq <= ticks * 1_000_000_000 < (r + 1) * freq,
{
    let passed = ticks * 1_000_000_000;
    let whole = passed / (freq as int);
    assert(whole * freq <= passed < (whole + 1) * freq && 0 <= whole) by (nonlinear_arith)
        requires
            whole == passed / (freq as int),
            freq > 0,
            passed >= 0,
    ;
    assert(whole < 0x1_0000_0000_0000_0000) by (nonlinear_arith)
        requires
            whole * freq <= passed,
            passed < freq * 0x1_0000_0000_0000_0000,
            freq > 0,
    ;
    vstd::arithmetic::div_mod::lemma_small_mod(whole as nat, 0x1_0000_0000_0000_0000);
    assert(r == whole);
}

/// A system that knows no frequency counts as one tick a second, and any other
/// keeps its own.
pub proof fn frequencies_are_never_zero(reported: i64, r: i64)
    requires
        call_ensures(qpc_frequency, (reported,), r),
    ensures
        reported != 0 ==> r == reported,
        reported == 0 ==> r == 1,
{
}

/// The next block starts at the first multiple of eight behind this one.
pub proof fn blocks_start_at_multiples_of_eight(address: usize, size: u32, r: usize)
    requires
        call_ensures(next_block, (address, size), r),
    ensures
        r % 8 == 0,
        address + size <= r,
        forall|other: int| address + size <= other && #[trigger] (other % 8) == 0 ==> r <= other,
{
}

/// A drain goes on for as long as there are blocks, ends once there are none, and
/// gives up where the system says so. A report that was announced and found in no
/// block is read on its own.
pub proof fn drains_end_when_the_queue_does(count: u32, r: DrainStep, total: u64, announced: isize, single: bool)
    requires
        call_ensures(drain_step, (count,), r),
        call_ensures(needs_single_read, (total, announced), single),
    ensures
        r == DrainStep::Done <==> count == 0,
        r == DrainStep::Failed <==> count == 0xffff_ffff,
        r is Walk <==> 0 < count < 0xffff_ffff,
        r matches DrainStep::Walk(blocks) ==> blocks == count,
        single <==> total == 0 && announced != 0,
{
}

/// Only blocks of HID reports with bytes in them hold reports.
pub proof fn only_hid_blocks_hold_reports(kind: u32, size_hid: u32, count: u32, r: u32)
    requires
        call_ensures(reports_in_block, (kind, size_hid, count), r),
    ensures
        kind == 2 && size_hid > 0 ==> r == count,
        kind != 2 || size_hid == 0 ==> r == 0,
{
}

/// The range of a usage is that of its axis, and other usages have none.
pub proof fn usages_have_the_range_of_their_axis(caps: ProfileCaps, page: u16, usage: u16, r: Option<AxisRange>)
    requires
        call_ensures(range_for, (&caps, page, usage), r),
    ensures
        (page, usage) == (0x01u16, 0x30u16) ==> r == caps.x,
        (page, usage) == (0x01u16, 0x31u16) ==> r == caps.y,
        (page, usage) == (0x0Du16, 0x30u16) ==> r == caps.pressure,
        (page, usage) == (0x0Du16, 0x31u16) ==> r == caps.tangent_pressure,
        (page, usage) == (0x0Du16, 0x3Du16) ==> r == caps.x_tilt,
        (page, usage) == (0x0Du16, 0x3Eu16) ==> r == caps.y_tilt,
        (page, usage) == (0x0Du16, 0x3Fu16) ==> r == caps.azimuth,
        (page, usage) == (0x0Du16, 0x40u16) ==> r == caps.altitude,
        (page, usage) == (0x0Du16, 0x41u16) ==> r == caps.twist,
        r is Some ==> page == 0x01 && 0x30 <= usage <= 0x31 || page == 0x0D && (0x30 <= usage <= 0x31 || 0x3D <= usage
            <= 0x41),
{
}

/// A raw field is read in two's complement of its own width where its axis goes
/// below zero, and of 32 bits otherwise.
pub proof fn fields_are_signed_as_their_axis(
    caps: ProfileCaps,
    page: u16,
    usage: u16,
    raw: u32,
    range: Option<AxisRange>,
    r: i32,
    narrow: i32,
    wide: i32,
)
    requires
        call_ensures(range_for, (&caps, page, usage), range),
        call_ensures(field_value, (&caps, page, usage, raw), r),
        range matches Some(axis) ==> call_ensures(sign_extend, (raw, axis.bit_size), narrow),
        call_ensures(sign_extend, (raw, 32u16), wide),
    ensures
        range is Some && (range->0).min < 0 ==> r == narrow,
        range is None || (range->0).min >= 0 ==> r == wide,
{
}

/// A usage is listed exactly where it stands among the first so many.
pub proof fn usages_are_listed_up_to_the_length(list: &[u16], len: usize, usage: u16, r: bool)
    requires
        len <= list@.len(),
        call_ensures(usage_listed, (list, len, usage), r),
    ensures
        r <==> exists|i: int| 0 <= i < len && #[trigger] list@[i] == usage,
{
    let first = list@.take(len as int);
    if r {
        let i = choose|i: int| 0 <= i < first.len() && first[i] == usage;
        assert(list@[i] == usage);
    }
    if exists|i: int| 0 <= i < len && #[trigger] list@[i] == usage {
        let i = choose|i: int| 0 <= i < len && #[trigger] list@[i] == usage;
        assert(first[i] == usage);
    }
}

/// Reports are numbered one after the other, from the largest number back to 0,
/// and numbering touches nothing else.
pub proof fn reports_are_numbered_in_turn(state: &mut CaptureState, r: u32)
    requires
        call_ensures(CaptureState::next_serial, (state,), r),
    ensures
        r == (old(state).serial + 1) % 0x1_0000_0000,
        final(state).serial == r,
        final(state)@.profiles == old(state)@.profiles,
        final(state)@.prox == old(state)@.prox,
        final(state)@.first_ns == old(state)@.first_ns,
        final(state)@.count_since_first == old(state)@.count_since_first,
        final(state)@.rate_emitted == old(state)@.rate_emitted,
        final(state)@.active_handle == old(state)@.active_handle,
{
}

/// A device that is known stays as it is known; one that is not is learned where
/// it turned out to be a tablet. Other devices are left alone.
pub proof fn known_devices_are_not_learned_again(
    state: &mut CaptureState,
    key: isize,
    built: Option<DeviceProfile>,
    r: bool,
    other: isize,
)
    requires
        call_ensures(CaptureState::adopt, (state, key, built), r),
    ensures
        r <==> final(state)@.profiles.contains_key(key),
        old(state)@.profiles.contains_key(key) ==> final(state)@.profiles[key] == old(state)@.profiles[key],
        !old(state)@.profiles.contains_key(key) && built is Some ==> r && final(state)@.profiles[key] == built->0,
        !old(state)@.profiles.contains_key(key) && built is None ==> !r,
        other != key ==> (final(state)@.profiles.contains_key(other) <==> old(state)@.profiles.contains_key(other)),
{
}

/// A tool that comes or goes is reported once, with what it did and which tool it
/// is: exactly where the device last said otherwise or never said anything. Other
/// devices are left alone.
pub proof fn changes_of_range_are_reported(
    state: &mut CaptureState,
    key: isize,
    in_range: bool,
    tool_serial: u64,
    out: &mut Vec<SampleEvent>,
    other: isize,
)
    requires
        call_ensures(emit_proximity_transition, (state, key, in_range, tool_serial, out), ()),
    ensures
        ({
            let known = old(state)@.prox.contains_key(key) && old(state)@.prox[key] == in_range;
            &&& known ==> final(out)@ == old(out)@
            &&& !known ==> final(out)@ == old(out)@.push(SampleEvent::Proximity { in_range, tool_serial })
        }),
        final(state)@.prox.contains_key(key) && final(state)@.prox[key] == in_range,
        other != key ==> (final(state)@.prox.contains_key(other) <==> old(state)@.prox.contains_key(other)),
        other != key && old(state)@.prox.contains_key(other) ==> final(state)@.prox[other] == old(state)@.prox[other],
        final(state)@.profiles == old(state)@.profiles,
        final(state)@.serial == old(state)@.serial,
{
    assert(old(out)@ + Seq::<SampleEvent>::empty() =~= old(out)@);
    assert(old(out)@ + seq![SampleEvent::Proximity { in_range, tool_serial }] =~= old(out)@.push(
        SampleEvent::Proximity { in_range, tool_serial },
    ));
}

/// The first report starts the measurement of the rate and every one is counted,
/// until a second or more has passed. Then the device is announced once, with the
/// reports so far over the time so far, rounded down.
pub proof fn rates_count_reports_over_time(
    state: &mut CaptureState,
    key: isize,
    now_ns: u64,
    out: &mut Vec<SampleEvent>,
    described: DeviceCapabilities,
)
    requires
        old(state).rate_emitted || old(state).count_since_first < u64::MAX,
        call_ensures(measure_rate, (state, key, now_ns, out), ()),
        old(state)@.profiles.contains_key(key),
        call_ensures(capabilities_from_profile, (&old(state)@.profiles[key].caps, 1024u32), described),
    ensures
        ({
            let first = if old(state).first_ns == 0 {
                now_ns
            } else {
                old(state).first_ns
            };
            let count = old(state).count_since_first + 1;
            let passed = now_ns - first;
            let due = !old(state).rate_emitted && passed >= 1_000_000_000;
            &&& old(state).rate_emitted ==> final(state)@ == old(state)@
            &&& !old(state).rate_emitted ==> final(state).first_ns == first && final(state).count_since_first == count
            &&& final(state).rate_emitted <==> old(state).rate_emitted || due
            &&& !due ==> final(out)@ == old(out)@
            &&& due ==> {
                &&& final(out)@.len() == old(out)@.len() + 1
                &&& final(out)@.drop_last() == old(out)@
                &&& final(out)@.last() matches SampleEvent::Capabilities(told) && {
                    &&& told.device_name == described.device_name
                    &&& told.x == described.x && told.y == described.y && told.pressure == described.pressure
                    &&& told.queue_size == described.queue_size
                    &&& count * 1_000_000_000 < passed * 0x1_0000_0000 ==> told.max_packet_rate_hz * passed <= count
                        * 1_000_000_000 < (told.max_packet_rate_hz + 1) * passed
                }
            }
            &&& final(state)@.profiles == old(state)@.profiles
            &&& final(state)@.prox == old(state)@.prox
        }),
{
    let first = if old(state).first_ns == 0 {
        now_ns
    } else {
        old(state).first_ns
    };
    let count = old(state).count_since_first + 1;
    let passed = now_ns - first;
    if !old(state).rate_emitted && passed >= 1_000_000_000 {
        assert(final(out)@.drop_last() =~= old(out)@);
        let scaled = count * 1_000_000_000;
        let whole = scaled / passed;
        assert(whole * passed <= scaled < (whole + 1) * passed && 0 <= whole) by (nonlinear_arith)
            requires
                whole == scaled / passed,
                passed > 0,
                scaled >= 0,
        ;
        if scaled < passed * 0x1_0000_0000 {
            assert(whole < 0x1_0000_0000) by (nonlinear_arith)
                requires
                    whole * passed <= scaled,
                    scaled < passed * 0x1_0000_0000,
                    passed > 0,
            ;
            vstd::arithmetic::div_mod::lemma_small_mod(whole as nat, 0x1_0000_0000);
        }
    } else {
        assert(final(out)@ =~= old(out)@);
    }
}

/// A sample goes out as it is, behind the change of range that it brings and
/// before an announced rate, and its device is the one that reported last.
pub proof fn samples_go_out_after_their_range(
    state: &mut CaptureState,
    key: isize,
    sample: PenSample,
    now_ns: u64,
    out: &mut Vec<SampleEvent>,
)
    requires
        call_ensures(take_sample, (state, key, sample, now_ns, out), ()),
    ensures
        ({
            let known = old(state)@.prox.contains_key(key) && old(state)@.prox[key] == sample.in_proximity;
            let at: int = old(out)@.len() + if known {
                0int
            } else {
                1
            };
            &&& at < final(out)@.len() <= at + 2
            &&& final(out)@.take(old(out)@.len() as int) == old(out)@
            &&& !known ==> final(out)@[at - 1] == (SampleEvent::Proximity {
                in_range: sample.in_proximity,
                tool_serial: sample.tool_serial,
            })
            &&& final(out)@[at] == SampleEvent::Sample(sample)
            &&& final(out)@.len() == at + 2 ==> final(out)@[at + 1] is Capabilities
        }),
        final(state)@.prox == old(state)@.prox.insert(key, sample.in_proximity),
        final(state)@.active_handle == key,
        final(state)@.profiles == old(state)@.profiles,
        final(state)@.serial == old(state)@.serial,
{
    assert(final(out)@.take(old(out)@.len() as int) =~= old(out)@);
}

/// A tablet that is plugged in is known and described at once; anything else that
/// arrives changes nothing. A device that is pulled out is forgotten, and a tool
/// that was near it leaves.
pub proof fn plugging_announces_and_pulling_forgets(
    state: &mut CaptureState,
    gidc: usize,
    key: isize,
    built: Option<DeviceProfile>,
    out: &mut Vec<SampleEvent>,
    described: DeviceCapabilities,
)
    requires
        call_ensures(handle_device_change, (state, gidc, key, built, out), ()),
        built matches Some(profile) ==> call_ensures(capabilities_from_profile, (&profile.caps, 1024u32), described),
    ensures
        gidc == 1 && built is Some ==> {
            &&& final(state)@.profiles == old(state)@.profiles.insert(key, built->0)
            &&& final(state)@.prox == old(state)@.prox
            &&& final(out)@ == old(out)@.push(SampleEvent::Capabilities(described))
        },
        gidc == 2 ==> {
            let near = old(state)@.prox.contains_key(key) && old(state)@.prox[key];
            &&& final(state)@.profiles == old(state)@.profiles.remove(key)
            &&& final(state)@.prox == old(state)@.prox.remove(key)
            &&& near ==> final(out)@ == old(out)@.push(SampleEvent::Proximity { in_range: false, tool_serial: 0 })
            &&& !near ==> final(out)@ == old(out)@
        },
        gidc != 2 && (gidc != 1 || built is None) ==> final(state)@ == old(state)@ && final(out)@ == old(out)@,
{
    assert(old(out)@ + Seq::<SampleEvent>::empty() =~= old(out)@);
    assert(old(out)@ + seq![SampleEvent::Capabilities(described)] =~= old(out)@.push(SampleEvent::Capabilities(described)));
    assert(old(out)@ + seq![SampleEvent::Proximity { in_range: false, tool_serial: 0 }] =~= old(out)@.push(
        SampleEvent::Proximity { in_range: false, tool_serial: 0 },
    ));
}

/// A block has reports to decode exactly where it holds HID reports with bytes
/// and its device is known by then; its device is learned only from such a block.
pub proof fn blocks_of_tablets_are_decoded(
    state: &mut CaptureState,
    key: isize,
    kind: u32,
    size_hid: u32,
    count: u32,
    built: Option<DeviceProfile>,
    r: u32,
)
    requires
        call_ensures(begin_block, (state, key, kind, size_hid, count, built), r),
    ensures
        ({
            let known = old(state)@.profiles.contains_key(key);
            &&& kind == 2 && size_hid > 0 && (known || built is Some) ==> r == count
            &&& kind != 2 || size_hid == 0 || !known && built is None ==> r == 0
            &&& kind == 2 && !known && built is Some ==> final(state)@.profiles == old(state)@.profiles.insert(key, built->0)
            &&& kind != 2 || known || built is None ==> final(state)@ == old(state)@
        }),
        final(state)@.serial == old(state)@.serial,
        final(state)@.prox == old(state)@.prox,
{
}

/// Each report of a block is decoded on its own, by what is known of the device,
/// with the time of the block and the next number.
pub proof fn reports_of_a_block_are_decoded_in_order<R: UsageReader>(
    state: &mut CaptureState,
    key: isize,
    readers: &[R],
    now_ns: u64,
    r: Vec<PenReport>,
    i: int,
    serial: u32,
    one: PenReport,
)
    requires
        call_ensures(decode_reports::<R>, (state, key, readers, now_ns), r),
        0 <= i < readers@.len(),
        serial == (old(state).serial + i + 1) % 0x1_0000_0000,
        call_ensures(decode_report::<R>, (&readers@[i], &old(state)@.profiles[key].caps, now_ns, serial), one),
    ensures
        r@.len() == readers@.len(),
        r@[i] == one,
        final(state).serial == (old(state).serial + readers@.len()) % 0x1_0000_0000,
        final(state)@.profiles == old(state)@.profiles,
        final(state)@.prox == old(state)@.prox,
{
}

/// Each report becomes a sample with its own numbers.
pub proof fn reports_become_samples_in_order(
    reports: &[PenReport],
    numbers: &[ReportNumbers],
    r: Vec<PenSample>,
    i: int,
    one: PenSample,
)
    requires
        reports@.len() == numbers@.len(),
        call_ensures(complete_samples, (reports, numbers), r),
        0 <= i < reports@.len(),
        call_ensures(
            sample_of,
            (
                &reports@[i],
                numbers@[i].x_norm,
                numbers@[i].y_norm,
                numbers@[i].pressure_norm,
                numbers@[i].tilt,
            ),
            one,
        ),
    ensures
        r@.len() == reports@.len(),
        r@[i] == one,
{
}

/// A key of a pad is told exactly where it was pressed or released between two
/// reports, by its place among the first 256 keys, with what it is now.
pub proof fn keys_are_told_when_they_change(
    buttons: &[(u16, u16)],
    before: &[(u16, u16)],
    now: &[(u16, u16)],
    r: Vec<(u8, bool)>,
    place: u8,
    pressed: bool,
)
    requires
        call_ensures(button_edges, (buttons, before, now), r),
    ensures
        r@.contains((place, pressed)) <==> {
            &&& place < buttons@.len()
            &&& now@.contains(buttons@[place as int]) == pressed
            &&& before@.contains(buttons@[place as int]) != pressed
        },
{
    let n = if buttons@.len() <= 256 {
        buttons@.len()
    } else {
        256
    };
    edges_tell_the_changes(buttons@, before@, now@, n, (place, pressed));
}

} // verus!
