//! What a capture thread remembers, and what it reports.
use std::collections::HashMap;
use vstd::prelude::*;

use crate::device::capabilities::DeviceCapabilities;
use crate::device::sample::{PenSample, SampleEvent};
use crate::rawinput::caps::{capabilities_from_profile, described, AxisRange, ProfileCaps};
use crate::rawinput::decode::{as_signed, sign_extend, signed_value};
use crate::rawinput::enumerate::{DeviceProfile, ProfileMap};
use crate::rawinput::hid::{
    PAGE_DIGITIZER, PAGE_GENERIC_DESKTOP, USAGE_ALTITUDE, USAGE_AZIMUTH, USAGE_BARREL_PRESSURE,
    USAGE_TIP_PRESSURE, USAGE_TWIST, USAGE_X, USAGE_X_TILT, USAGE_Y, USAGE_Y_TILT,
};

verus! {

/// Reports that one drain of the system queue can hold.
pub const BATCH_REPORTS: u32 = 1024;

/// A device was plugged in.
pub const GIDC_ARRIVAL: usize = 1;

/// A device was pulled out.
pub const GIDC_REMOVAL: usize = 2;

/// Kind of a block that holds HID reports.
pub const BLOCK_HID: u32 = 2;

/// Count that stands for a failed drain.
pub const DRAIN_FAILED: u32 = 0xFFFF_FFFF;

/// Nanoseconds over which the report rate is measured, at least.
pub const RATE_WINDOW_NS: u64 = 1_000_000_000;

/// What a capture thread remembers of its devices.
pub struct CaptureState {
    /// Known devices.
    pub profiles: ProfileMap,
    /// Number of the last report; it wraps.
    pub serial: u32,
    /// Ticks of the clock per second.
    pub qpc_freq: i64,
    /// Was the tool in range when the device last reported?
    pub prox: HashMap<isize, bool>,
    /// Time of the first report; zero before it.
    pub first_ns: u64,
    /// Reports since then.
    pub count_since_first: u64,
    /// Was the measured rate announced?
    pub rate_emitted: bool,
    /// The device that reported last.
    pub active_handle: isize,
}

/// What a capture thread remembers, with its tables as maps.
pub struct CaptureView {
    pub profiles: Map<isize, DeviceProfile>,
    pub serial: u32,
    pub qpc_freq: i64,
    pub prox: Map<isize, bool>,
    pub first_ns: u64,
    pub count_since_first: u64,
    pub rate_emitted: bool,
    pub active_handle: isize,
}

impl View for CaptureState {
    type V = CaptureView;

    open spec fn view(&self) -> CaptureView {
        CaptureView {
            profiles: self.profiles@,
            serial: self.serial,
            qpc_freq: self.qpc_freq,
            prox: self.prox@,
            first_ns: self.first_ns,
            count_since_first: self.count_since_first,
            rate_emitted: self.rate_emitted,
            active_handle: self.active_handle,
        }
    }
}

/// The ticks per second, or one if the system knows none.
pub fn qpc_frequency(reported: i64) -> (r: i64)
    ensures
        r == if reported == 0 {
            1
        } else {
            reported
        },
        r != 0,
{
    if reported == 0 {
        1
    } else {
        reported
    }
}

/// How far a number lies from 0.
pub open spec fn magnitude(n: int) -> int {
    if n < 0 {
        -n
    } else {
        n
    }
}

/// The nanoseconds of `ticks` of a clock, cut off towards 0.
pub open spec fn nanoseconds(ticks: int, freq: int) -> int {
    let whole = magnitude(ticks) * 1_000_000_000 / magnitude(freq);
    if (ticks < 0) == (freq < 0) {
        whole
    } else {
        -whole
    }
}

/// The time in nanoseconds after `ticks` of a clock. It wraps at 64 bits.
pub fn qpc_ns(ticks: i64, freq: i64) -> (r: u64)
    requires
        freq != 0,
    ensures
        r == nanoseconds(ticks as int, freq as int) % 0x1_0000_0000_0000_0000,
{
    let passed: u128 = if ticks < 0 {
        (0 - ticks as i128) as u128
    } else {
        ticks as u128
    };
    let per_second: u128 = if freq < 0 {
        (0 - freq as i128) as u128
    } else {
        freq as u128
    };
    let whole: u128 = passed * 1_000_000_000 / per_second;
    let wrapped: u128 = whole % 0x1_0000_0000_0000_0000;
    if (ticks < 0) == (freq < 0) || wrapped == 0 {
        proof {
            assert(wrapped == 0 ==> (-(whole as int)) % 0x1_0000_0000_0000_0000 == 0);
        }
        wrapped as u64
    } else {
        proof {
            assert((-(whole as int)) % 0x1_0000_0000_0000_0000 == 0x1_0000_0000_0000_0000 - wrapped);
        }
        (0x1_0000_0000_0000_0000 - wrapped) as u64
    }
}

/// The address of the block after one of `size` bytes at `address`: blocks
/// start at multiples of eight.
pub fn next_block(address: usize, size: u32) -> (r: usize)
    requires
        address + size + 7 <= usize::MAX,
    ensures
        r % 8 == 0,
        address + size <= r < address + size + 8,
{
    (address + size as usize + 7) / 8 * 8
}

/// What to do after asking for a batch of blocks.
#[derive(Clone, Copy, Debug, PartialEq, Eq, Structural)]
pub enum DrainStep {
    /// Walk this many blocks, then ask again.
    Walk(u32),
    /// The queue is empty.
    Done,
    /// The system refused.
    Failed,
}

/// What to do after asking for a batch of blocks.
pub fn drain_step(count: u32) -> (r: DrainStep)
    ensures
        count == 0 ==> r == DrainStep::Done,
        count == DRAIN_FAILED ==> r == DrainStep::Failed,
        0 < count < DRAIN_FAILED ==> r == DrainStep::Walk(count),
{
    if count == 0 {
        DrainStep::Done
    } else if count == DRAIN_FAILED {
        DrainStep::Failed
    } else {
        DrainStep::Walk(count)
    }
}

/// Must the report be read on its own? That is so if the drain found no
/// block although a report was announced.
pub fn needs_single_read(total_blocks: u64, announced: isize) -> (r: bool)
    ensures
        r == (total_blocks == 0 && announced != 0),
{
    total_blocks == 0 && announced != 0
}

/// Number of reports to decode in a block.
pub fn reports_in_block(kind: u32, size_hid: u32, count: u32) -> (r: u32)
    ensures
        r == if kind == BLOCK_HID && size_hid != 0 {
            count
        } else {
            0
        },
{
    if kind == BLOCK_HID && size_hid != 0 {
        count
    } else {
        0
    }
}

/// The range that a device gives to a value usage.
pub open spec fn range_of_usage(caps: ProfileCaps, page: u16, usage: u16) -> Option<AxisRange> {
    if page == PAGE_GENERIC_DESKTOP {
        if usage == USAGE_X {
            caps.x
        } else if usage == USAGE_Y {
            caps.y
        } else {
            None
        }
    } else if page == PAGE_DIGITIZER {
        if usage == USAGE_TIP_PRESSURE {
            caps.pressure
        } else if usage == USAGE_BARREL_PRESSURE {
            caps.tangent_pressure
        } else if usage == USAGE_X_TILT {
            caps.x_tilt
        } else if usage == USAGE_Y_TILT {
            caps.y_tilt
        } else if usage == USAGE_AZIMUTH {
            caps.azimuth
        } else if usage == USAGE_ALTITUDE {
            caps.altitude
        } else if usage == USAGE_TWIST {
            caps.twist
        } else {
            None
        }
    } else {
        None
    }
}

/// The range that a device gives to a value usage.
pub fn range_for(caps: &ProfileCaps, page: u16, usage: u16) -> (r: Option<AxisRange>)
    ensures
        r == range_of_usage(*caps, page, usage),
{
    if page == PAGE_GENERIC_DESKTOP {
        if usage == USAGE_X {
            caps.x
        } else if usage == USAGE_Y {
            caps.y
        } else {
            None
        }
    } else if page == PAGE_DIGITIZER {
        if usage == USAGE_TIP_PRESSURE {
            caps.pressure
        } else if usage == USAGE_BARREL_PRESSURE {
            caps.tangent_pressure
        } else if usage == USAGE_X_TILT {
            caps.x_tilt
        } else if usage == USAGE_Y_TILT {
            caps.y_tilt
        } else if usage == USAGE_AZIMUTH {
            caps.azimuth
        } else if usage == USAGE_ALTITUDE {
            caps.altitude
        } else if usage == USAGE_TWIST {
            caps.twist
        } else {
            None
        }
    } else {
        None
    }
}

/// The number that a raw field means: two's complement of its width if its
/// range goes below zero, else the pattern as it is.
pub fn field_value(caps: &ProfileCaps, page: u16, usage: u16, raw: u32) -> (r: i32)
    ensures
        r == (match range_of_usage(*caps, page, usage) {
            Some(range) => if range.signed() {
                signed_value(raw, range.bit_size)
            } else {
                as_signed(raw)
            },
            None => as_signed(raw),
        }),
{
    match range_for(caps, page, usage) {
        Some(range) => if range.is_signed() {
            sign_extend(raw, range.bit_size)
        } else {
            sign_extend(raw, 32)
        },
        None => sign_extend(raw, 32),
    }
}

/// Is `usage` among the first `len` usages?
pub fn usage_listed(list: &[u16], len: usize, usage: u16) -> (r: bool)
    requires
        len <= list@.len(),
    ensures
        r == list@.take(len as int).contains(usage),
{
    let mut at: usize = 0;
    while at < len
        invariant
            at <= len <= list@.len(),
            forall|i: int| 0 <= i < at ==> list@[i] != usage,
        decreases len - at,
    {
        if list[at] == usage {
            assert(list@.take(len as int)[at as int] == usage);
            return true;
        }
        at += 1;
    }
    false
}

impl CaptureView {
    /// Did the device last report `in_range`?
    pub open spec fn last_seen(self, key: isize, in_range: bool) -> bool {
        self.prox.contains_key(key) && self.prox[key] == in_range
    }

    /// With the state of a tool taken down.
    pub open spec fn near(self, key: isize, in_range: bool) -> CaptureView {
        CaptureView { prox: self.prox.insert(key, in_range), ..self }
    }

    /// The time of the first report, if one comes now.
    pub open spec fn first_report(self, now_ns: u64) -> u64 {
        if self.first_ns == 0 {
            now_ns
        } else {
            self.first_ns
        }
    }

    /// The time since the first report; a clock that runs backwards stands
    /// still.
    pub open spec fn elapsed(self, now_ns: u64) -> int {
        if now_ns > self.first_report(now_ns) {
            now_ns - self.first_report(now_ns)
        } else {
            0
        }
    }

    /// Is the rate known and still to be announced, with a report now?
    pub open spec fn announces(self, now_ns: u64) -> bool {
        !self.rate_emitted && self.elapsed(now_ns) >= RATE_WINDOW_NS
    }

    /// Reports per second, with one more report now. It wraps at 32 bits.
    pub open spec fn rate(self, now_ns: u64) -> u32 {
        (((self.count_since_first + 1) * 1_000_000_000 / self.elapsed(now_ns)) % 0x1_0000_0000) as u32
    }

    /// With one more report counted.
    pub open spec fn counted(self, now_ns: u64) -> CaptureView {
        if self.rate_emitted {
            self
        } else {
            CaptureView {
                first_ns: self.first_report(now_ns),
                count_since_first: (self.count_since_first + 1) as u64,
                rate_emitted: self.announces(now_ns),
                ..self
            }
        }
    }
}

/// The events when a device finds the tool in or out of range: one if that
/// is news.
pub open spec fn proximity_events(
    view: CaptureView,
    key: isize,
    in_range: bool,
    tool_serial: u64,
) -> Seq<SampleEvent> {
    if view.last_seen(key, in_range) {
        Seq::empty()
    } else {
        seq![SampleEvent::Proximity { in_range, tool_serial }]
    }
}

/// The events when a report is counted: the device with its rate, once it
/// is measured.
pub open spec fn rate_events(view: CaptureView, key: isize, now_ns: u64) -> Seq<SampleEvent> {
    if view.announces(now_ns) && view.profiles.contains_key(key) {
        seq![
            SampleEvent::Capabilities(
                DeviceCapabilities {
                    max_packet_rate_hz: view.rate(now_ns),
                    ..described(view.profiles[key].caps, BATCH_REPORTS)
                },
            ),
        ]
    } else {
        Seq::empty()
    }
}

impl CaptureState {
    /// A thread that has seen no report yet.
    pub fn new(profiles: ProfileMap, qpc_freq: i64) -> (r: CaptureState)
        ensures
            r@ == (CaptureView {
                profiles: profiles@,
                serial: 0,
                qpc_freq,
                prox: Map::empty(),
                first_ns: 0,
                count_since_first: 0,
                rate_emitted: false,
                active_handle: 0,
            }),
    {
        CaptureState {
            profiles,
            serial: 0,
            qpc_freq,
            prox: HashMap::new(),
            first_ns: 0,
            count_since_first: 0,
            rate_emitted: false,
            active_handle: 0,
        }
    }

    /// Can one more report be counted?
    pub open spec fn counts(self) -> bool {
        self.rate_emitted || self.count_since_first < u64::MAX
    }

    /// Can one more report be counted?
    pub fn can_count(&self) -> (r: bool)
        ensures
            r == self.counts(),
    {
        self.rate_emitted || self.count_since_first < u64::MAX
    }

    /// The number of the next report.
    pub fn next_serial(&mut self) -> (r: u32)
        ensures
            r == if old(self).serial == u32::MAX {
                0
            } else {
                old(self).serial + 1
            },
            final(self)@ == (CaptureView { serial: r, ..old(self)@ }),
    {
        self.serial = if self.serial == u32::MAX {
            0
        } else {
            self.serial + 1
        };
        self.serial
    }

    /// Is the device known? One that is not may be learned now.
    pub fn adopt(&mut self, key: isize, built: Option<DeviceProfile>) -> (r: bool)
        ensures
            r == (old(self)@.profiles.contains_key(key) || built is Some),
            final(self)@ == if !old(self)@.profiles.contains_key(key) && built is Some {
                CaptureView {
                    profiles: old(self)@.profiles.insert(key, built->0),
                    ..old(self)@
                }
            } else {
                old(self)@
            },
    {
        broadcast use vstd::std_specs::hash::group_hash_axioms;

        if self.profiles.contains_key(&key) {
            return true;
        }
        match built {
            Some(profile) => {
                self.profiles.insert(key, profile);
                true
            },
            None => false,
        }
    }
}

/// Reports the tool as entering or leaving, if that is news.
pub fn emit_proximity_transition(
    state: &mut CaptureState,
    key: isize,
    in_range: bool,
    tool_serial: u64,
    out: &mut Vec<SampleEvent>,
)
    ensures
        final(state)@ == old(state)@.near(key, in_range),
        final(out)@ == old(out)@ + proximity_events(old(state)@, key, in_range, tool_serial),
{
    broadcast use vstd::std_specs::hash::group_hash_axioms;

    let known: bool = match state.prox.insert(key, in_range) {
        Some(before) => before == in_range,
        None => false,
    };
    if !known {
        out.push(SampleEvent::Proximity { in_range, tool_serial });
    }
    assert(final(out)@ =~= old(out)@ + proximity_events(old(state)@, key, in_range, tool_serial));
}

/// Counts a report, and announces the device with its rate once the reports
/// of a second are in.
pub fn measure_rate(
    state: &mut CaptureState,
    key: isize,
    now_ns: u64,
    out: &mut Vec<SampleEvent>,
)
    requires
        old(state).counts(),
    ensures
        final(state)@ == old(state)@.counted(now_ns),
        final(out)@ == old(out)@ + rate_events(old(state)@, key, now_ns),
{
    broadcast use vstd::std_specs::hash::group_hash_axioms;

    if state.rate_emitted {
        assert(out@ =~= old(out)@ + rate_events(old(state)@, key, now_ns));
        return;
    }
    if state.first_ns == 0 {
        state.first_ns = now_ns;
    }
    state.count_since_first += 1;
    let elapsed: u64 = if now_ns > state.first_ns {
        now_ns - state.first_ns
    } else {
        0
    };
    if elapsed >= RATE_WINDOW_NS {
        let scaled: u128 = state.count_since_first as u128 * 1_000_000_000;
        let hz: u32 = ((scaled / elapsed as u128) % 0x1_0000_0000) as u32;
        match state.profiles.get(&key) {
            Some(profile) => {
                let mut caps: DeviceCapabilities = capabilities_from_profile(
                    &profile.caps,
                    BATCH_REPORTS,
                );
                caps.max_packet_rate_hz = hz;
                out.push(SampleEvent::Capabilities(caps));
            },
            None => {},
        }
        state.rate_emitted = true;
    }
    assert(out@ =~= old(out)@ + rate_events(old(state)@, key, now_ns));
}

/// The memory after a sample of the device.
pub open spec fn sampled(view: CaptureView, key: isize, sample: PenSample, now_ns: u64) -> CaptureView {
    let near = view.near(key, sample.in_proximity);
    (CaptureView { active_handle: key, ..near }).counted(now_ns)
}

/// The events of a sample: the change of proximity, the sample, the rate.
pub open spec fn sample_events(
    view: CaptureView,
    key: isize,
    sample: PenSample,
    now_ns: u64,
) -> Seq<SampleEvent> {
    proximity_events(view, key, sample.in_proximity, sample.tool_serial).push(
        SampleEvent::Sample(sample),
    ) + rate_events(view, key, now_ns)
}

/// Takes in a sample of the device.
pub fn take_sample(
    state: &mut CaptureState,
    key: isize,
    sample: PenSample,
    now_ns: u64,
    out: &mut Vec<SampleEvent>,
)
    requires
        old(state).counts(),
    ensures
        final(state)@ == sampled(old(state)@, key, sample, now_ns),
        final(out)@ == old(out)@ + sample_events(old(state)@, key, sample, now_ns),
{
    emit_proximity_transition(state, key, sample.in_proximity, sample.tool_serial, out);
    state.active_handle = key;
    out.push(SampleEvent::Sample(sample));
    measure_rate(state, key, now_ns, out);
    assert(out@ =~= old(out)@ + sample_events(old(state)@, key, sample, now_ns));
}

/// The memory after a device was plugged in or pulled out.
pub open spec fn replugged(
    view: CaptureView,
    gidc: usize,
    key: isize,
    built: Option<DeviceProfile>,
) -> CaptureView {
    if gidc == GIDC_ARRIVAL && built is Some {
        CaptureView { profiles: view.profiles.insert(key, built->0), ..view }
    } else if gidc == GIDC_REMOVAL {
        CaptureView { profiles: view.profiles.remove(key), prox: view.prox.remove(key), ..view }
    } else {
        view
    }
}

/// The events when a device was plugged in or pulled out: a new device is
/// described, and a tool that was near leaves with its device.
pub open spec fn replug_events(
    view: CaptureView,
    gidc: usize,
    key: isize,
    built: Option<DeviceProfile>,
) -> Seq<SampleEvent> {
    if gidc == GIDC_ARRIVAL && built is Some {
        seq![SampleEvent::Capabilities(described((built->0).caps, BATCH_REPORTS))]
    } else if gidc == GIDC_REMOVAL && view.last_seen(key, true) {
        seq![SampleEvent::Proximity { in_range: false, tool_serial: 0 }]
    } else {
        Seq::empty()
    }
}

/// Takes in that a device was plugged in or pulled out. `built` is its
/// profile, if it arrived and is a tablet.
pub fn handle_device_change(
    state: &mut CaptureState,
    gidc: usize,
    key: isize,
    built: Option<DeviceProfile>,
    out: &mut Vec<SampleEvent>,
)
    ensures
        final(state)@ == replugged(old(state)@, gidc, key, built),
        final(out)@ == old(out)@ + replug_events(old(state)@, gidc, key, built),
{
    broadcast use vstd::std_specs::hash::group_hash_axioms;

    if gidc == GIDC_ARRIVAL {
        if let Some(profile) = built {
            let caps: DeviceCapabilities = capabilities_from_profile(&profile.caps, BATCH_REPORTS);
            state.profiles.insert(key, profile);
            out.push(SampleEvent::Capabilities(caps));
        }
    } else if gidc == GIDC_REMOVAL {
        let near: bool = match state.prox.get(&key) {
            Some(near) => *near,
            None => false,
        };
        if near {
            out.push(SampleEvent::Proximity { in_range: false, tool_serial: 0 });
        }
        state.profiles.remove(&key);
        state.prox.remove(&key);
    }
    assert(out@ =~= old(out)@ + replug_events(old(state)@, gidc, key, built));
}

/// The proximity that a device's readings report, one after the other.
pub open spec fn reported(view: CaptureView, key: isize, readings: Seq<bool>) -> Seq<bool>
    decreases readings.len(),
{
    if readings.len() == 0 {
        Seq::empty()
    } else {
        let rest = reported(view.near(key, readings[0]), key, readings.skip(1));
        if view.last_seen(key, readings[0]) {
            rest
        } else {
            seq![readings[0]] + rest
        }
    }
}

/// Proximity is reported only when it changes: two reports in a row differ,
/// and the first differs from what was known.
pub proof fn proximity_reports_alternate(view: CaptureView, key: isize, readings: Seq<bool>)
    ensures
        forall|i: int, j: int|
            0 <= i && j == i + 1 && j < reported(view, key, readings).len() ==> #[trigger] reported(
                view,
                key,
                readings,
            )[i] != #[trigger] reported(view, key, readings)[j],
        reported(view, key, readings).len() > 0 ==> !view.last_seen(
            key,
            reported(view, key, readings)[0],
        ),
    decreases readings.len(),
{
    if readings.len() > 0 {
        let next = view.near(key, readings[0]);
        proximity_reports_alternate(next, key, readings.skip(1));
        let rest = reported(next, key, readings.skip(1));
        let all = reported(view, key, readings);
        if rest.len() > 0 {
            assert(rest[0] != readings[0]);
        }
        assert forall|i: int, j: int|
            0 <= i && j == i + 1 && j < all.len() implies #[trigger] all[i] != #[trigger] all[j] by {
            if !view.last_seen(key, readings[0]) {
                assert(all[j] == rest[j - 1]);
                if i > 0 {
                    assert(all[i] == rest[i - 1]);
                    assert(rest[i - 1] != rest[j - 1]);
                }
            } else {
                assert(rest[i] != rest[j]);
            }
        }
    }
}

/// A device that is pulled out leaves no trace: whatever it reports next is
/// news.
pub proof fn pulled_devices_are_forgotten(
    view: CaptureView,
    key: isize,
    built: Option<DeviceProfile>,
    in_range: bool,
    tool_serial: u64,
)
    ensures
        ({
            let after = replugged(view, GIDC_REMOVAL, key, built);
            &&& !after.profiles.contains_key(key)
            &&& proximity_events(after, key, in_range, tool_serial) == seq![
                SampleEvent::Proximity { in_range, tool_serial },
            ]
        }),
{
}

/// Devices keep apart: what one of them does leaves what is known of another.
pub proof fn devices_keep_apart(
    view: CaptureView,
    key: isize,
    other: isize,
    sample: PenSample,
    now_ns: u64,
    gidc: usize,
    built: Option<DeviceProfile>,
    in_range: bool,
)
    requires
        key != other,
    ensures
        sampled(view, key, sample, now_ns).last_seen(other, in_range) == view.last_seen(
            other,
            in_range,
        ),
        replugged(view, gidc, key, built).last_seen(other, in_range) == view.last_seen(
            other,
            in_range,
        ),
        replugged(view, gidc, key, built).profiles.contains_key(other)
            == view.profiles.contains_key(other),
{
}

/// The rate is announced at most once.
pub proof fn rates_are_announced_once(view: CaptureView, key: isize, now_ns: u64, later_ns: u64)
    requires
        view.announces(now_ns),
    ensures
        !view.counted(now_ns).announces(later_ns),
        rate_events(view.counted(now_ns), key, later_ns) == Seq::<SampleEvent>::empty(),
        view.counted(now_ns).counted(later_ns) == view.counted(now_ns),
{
}

/// The memory after reports were counted at these times.
pub open spec fn all_counted(view: CaptureView, times: Seq<u64>) -> CaptureView
    decreases times.len(),
{
    if times.len() == 0 {
        view
    } else {
        all_counted(view, times.drop_last()).counted(times.last())
    }
}

/// Is report `at` the first that comes a second or more after the first one?
pub open spec fn ends_the_window(times: Seq<u64>, at: int) -> bool {
    &&& 0 <= at < times.len()
    &&& times[at] - times[0] >= RATE_WINDOW_NS
    &&& forall|i: int| 0 <= i < at ==> (#[trigger] times[i]) - times[0] < RATE_WINDOW_NS
}

/// In a run of reports the rate is announced exactly once, with the first
/// report that comes a second or more after the first one: the reports until
/// then, that one with them, over the time that they took, rounded down. No
/// other report announces anything.
pub proof fn rates_are_measured_over_the_first_second(
    view: CaptureView,
    key: isize,
    times: Seq<u64>,
    at: int,
)
    requires
        view.first_ns == 0,
        view.count_since_first == 0,
        !view.rate_emitted,
        view.profiles.contains_key(key),
        0 <= at < times.len() <= u64::MAX,
        times[0] > 0,
        forall|i: int, j: int| 0 <= i <= j < times.len() ==> times[i] <= times[j],
    ensures
        rate_events(all_counted(view, times.take(at)), key, times[at]) == if ends_the_window(times, at) {
            seq![
                SampleEvent::Capabilities(
                    DeviceCapabilities {
                        max_packet_rate_hz: (((at + 1) * 1_000_000_000 / (times[at] - times[0])) % 0x1_0000_0000) as u32,
                        ..described(view.profiles[key].caps, BATCH_REPORTS)
                    },
                ),
            ]
        } else {
            Seq::empty()
        },
{
    lemma_counted_run(view, times, at);
    if !all_counted(view, times.take(at)).rate_emitted && at > 0 {
        assert forall|i: int| 0 <= i < at implies (#[trigger] times[i]) - times[0] < RATE_WINDOW_NS by {
            assert(times[i] <= times[at - 1]);
        }
    }
}

/// The memory before report `at` of a run.
proof fn lemma_counted_run(view: CaptureView, times: Seq<u64>, at: int)
    requires
        view.first_ns == 0,
        view.count_since_first == 0,
        !view.rate_emitted,
        0 <= at <= times.len() <= u64::MAX,
        times.len() > 0,
        times[0] > 0,
        forall|i: int, j: int| 0 <= i <= j < times.len() ==> times[i] <= times[j],
    ensures
        ({
            let before = all_counted(view, times.take(at));
            &&& before.profiles == view.profiles
            &&& before.rate_emitted <==> at > 0 && times[at - 1] - times[0] >= RATE_WINDOW_NS
            &&& !before.rate_emitted ==> before.count_since_first == at && before.first_ns == if at == 0 {
                0
            } else {
                times[0]
            }
        }),
    decreases at,
{
    if at == 0 {
        assert(times.take(0) =~= Seq::<u64>::empty());
    } else {
        assert(times.take(at).drop_last() =~= times.take(at - 1));
        assert(times.take(at).last() == times[at - 1]);
        lemma_counted_run(view, times, at - 1);
        if at > 1 {
            assert(times[at - 2] <= times[at - 1]);
        }
        assert(times[0] <= times[at - 1]);
    }
}

} // verus!
