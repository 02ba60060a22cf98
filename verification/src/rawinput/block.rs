//! The reports of one block of the system queue.
use vstd::prelude::*;

use crate::device::sample::{PenSample, SampleEvent};
use crate::double::Double;
use crate::rawinput::capture::{
    proximity_events, rate_events, reports_in_block, sample_events, sampled, take_sample, CaptureState,
    CaptureView, BLOCK_HID,
};
use crate::rawinput::decode::{
    angles_fit_spec, completed, decode_report, decoded, sample_of, PenReport, UsageReader,
};
use crate::rawinput::enumerate::{DeviceProfile, ProfileMap};

verus! {

/// The memory once a block of a device has come: a device that is not known
/// is learned from HID reports, if it turned out to be a tablet.
pub open spec fn opened(view: CaptureView, key: isize, kind: u32, built: Option<DeviceProfile>) -> CaptureView {
    if kind == BLOCK_HID && !view.profiles.contains_key(key) && built is Some {
        CaptureView { profiles: view.profiles.insert(key, built->0), ..view }
    } else {
        view
    }
}

/// Takes in that a block has come, and tells how many of its reports to
/// decode. `built` is the profile of the device, if it is not known yet and is
/// a tablet; the reports of any other device are dropped.
pub fn begin_block(
    state: &mut CaptureState,
    key: isize,
    kind: u32,
    size_hid: u32,
    count: u32,
    built: Option<DeviceProfile>,
) -> (r: u32)
    ensures
        final(state)@ == opened(old(state)@, key, kind, built),
        r == if final(state)@.profiles.contains_key(key) && kind == BLOCK_HID && size_hid != 0 {
            count
        } else {
            0
        },
{
    if kind != BLOCK_HID || !state.adopt(key, built) {
        return 0;
    }
    reports_in_block(kind, size_hid, count)
}

/// The number of the report that comes `n` after report `serial`.
pub open spec fn serial_after(serial: u32, n: int) -> u32 {
    ((serial + n) % 0x1_0000_0000) as u32
}

/// The reports of a block whose usages `readers` hold, in a memory that knows
/// the device.
pub open spec fn block_reports<R: UsageReader>(
    view: CaptureView,
    key: isize,
    readers: Seq<R>,
    now_ns: u64,
) -> Seq<PenReport> {
    Seq::new(
        readers.len(),
        |i: int| decoded(readers[i], view.profiles[key].caps, now_ns, serial_after(view.serial, i + 1)),
    )
}

/// Decodes the reports of a known device, in order. Each gets the next number.
pub fn decode_reports<R: UsageReader>(
    state: &mut CaptureState,
    key: isize,
    readers: &[R],
    now_ns: u64,
) -> (r: Vec<PenReport>)
    requires
        old(state)@.profiles.contains_key(key),
        forall|i: int|
            0 <= i < readers@.len() ==> (#[trigger] readers@[i]).readable() && angles_fit_spec(
                readers@[i],
                old(state)@.profiles[key].caps,
            ),
    ensures
        r@ == block_reports(old(state)@, key, readers@, now_ns),
        final(state)@ == (CaptureView {
            serial: serial_after(old(state)@.serial, readers@.len() as int),
            ..old(state)@
        }),
{
    broadcast use vstd::std_specs::hash::group_hash_axioms;

    let ghost caps = state@.profiles[key].caps;
    let mut reports: Vec<PenReport> = Vec::new();
    let mut at: usize = 0;
    while at < readers.len()
        invariant
            at <= readers@.len(),
            caps == old(state)@.profiles[key].caps,
            old(state)@.profiles.contains_key(key),
            forall|i: int|
                0 <= i < readers@.len() ==> (#[trigger] readers@[i]).readable() && angles_fit_spec(
                    readers@[i],
                    caps,
                ),
            state@ == (CaptureView {
                serial: serial_after(old(state)@.serial, at as int),
                ..old(state)@
            }),
            reports@ == Seq::new(
                at as nat,
                |i: int| decoded(readers@[i], caps, now_ns, serial_after(old(state)@.serial, i + 1)),
            ),
        decreases readers@.len() - at,
    {
        let serial: u32 = state.next_serial();
        if let Some(profile) = state.profiles.get(&key) {
            reports.push(decode_report(&readers[at], &profile.caps, now_ns, serial));
        }
        at += 1;
    }
    reports
}

/// The places and the tilt of a report as numbers.
#[derive(Clone, Copy, Debug, PartialEq, Eq)]
pub struct ReportNumbers {
    pub x_norm: Double,
    pub y_norm: Double,
    pub pressure_norm: Double,
    /// Tilt in degrees, where the report tells it.
    pub tilt: (Double, Double),
}

/// The samples that reports become, given their numbers.
pub open spec fn all_completed(reports: Seq<PenReport>, numbers: Seq<ReportNumbers>) -> Seq<PenSample> {
    Seq::new(
        reports.len(),
        |i: int|
            completed(
                reports[i],
                numbers[i].x_norm,
                numbers[i].y_norm,
                numbers[i].pressure_norm,
                numbers[i].tilt,
            ),
    )
}

/// Completes the reports of a block with their numbers, in order.
pub fn complete_samples(reports: &[PenReport], numbers: &[ReportNumbers]) -> (r: Vec<PenSample>)
    requires
        reports@.len() == numbers@.len(),
    ensures
        r@ == all_completed(reports@, numbers@),
{
    let mut samples: Vec<PenSample> = Vec::new();
    let mut at: usize = 0;
    while at < reports.len()
        invariant
            at <= reports@.len(),
            reports@.len() == numbers@.len(),
            samples@ == all_completed(reports@, numbers@).take(at as int),
        decreases reports@.len() - at,
    {
        let n = numbers[at];
        samples.push(sample_of(&reports[at], n.x_norm, n.y_norm, n.pressure_norm, n.tilt));
        at += 1;
        assert(samples@ =~= all_completed(reports@, numbers@).take(at as int));
    }
    assert(samples@ =~= all_completed(reports@, numbers@));
    samples
}

/// The memory after samples of a device.
pub open spec fn all_sampled(view: CaptureView, key: isize, samples: Seq<PenSample>, now_ns: u64) -> CaptureView
    decreases samples.len(),
{
    if samples.len() == 0 {
        view
    } else {
        sampled(all_sampled(view, key, samples.drop_last(), now_ns), key, samples.last(), now_ns)
    }
}

/// The events of samples of a device.
pub open spec fn all_sample_events(
    view: CaptureView,
    key: isize,
    samples: Seq<PenSample>,
    now_ns: u64,
) -> Seq<SampleEvent>
    decreases samples.len(),
{
    if samples.len() == 0 {
        Seq::empty()
    } else {
        let before = samples.drop_last();
        all_sample_events(view, key, before, now_ns) + sample_events(
            all_sampled(view, key, before, now_ns),
            key,
            samples.last(),
            now_ns,
        )
    }
}

impl CaptureState {
    /// Can so many reports be counted?
    pub open spec fn counts_all(self, reports: nat) -> bool {
        self.rate_emitted || self.count_since_first + reports <= u64::MAX
    }

    /// Can so many reports be counted?
    pub fn can_count_all(&self, reports: usize) -> (r: bool)
        ensures
            r == self.counts_all(reports as nat),
    {
        self.rate_emitted || self.count_since_first <= u64::MAX - reports as u64
    }
}

/// Takes in the samples of a block, in order.
pub fn take_samples(
    state: &mut CaptureState,
    key: isize,
    samples: &[PenSample],
    now_ns: u64,
    out: &mut Vec<SampleEvent>,
)
    requires
        old(state).counts_all(samples@.len()),
    ensures
        final(state)@ == all_sampled(old(state)@, key, samples@, now_ns),
        final(out)@ == old(out)@ + all_sample_events(old(state)@, key, samples@, now_ns),
{
    let mut at: usize = 0;
    assert(out@ =~= old(out)@ + all_sample_events(old(state)@, key, samples@.take(0), now_ns));
    while at < samples.len()
        invariant
            at <= samples@.len(),
            old(state).counts_all(samples@.len()),
            state.rate_emitted || state.count_since_first <= old(state).count_since_first + at,
            state.rate_emitted || state.counts_all((samples@.len() - at) as nat),
            state@ == all_sampled(old(state)@, key, samples@.take(at as int), now_ns),
            out@ == old(out)@ + all_sample_events(old(state)@, key, samples@.take(at as int), now_ns),
        decreases samples@.len() - at,
    {
        proof {
            let upto = samples@.take(at + 1);
            assert(upto.drop_last() =~= samples@.take(at as int));
            assert(upto.last() == samples@[at as int]);
        }
        take_sample(state, key, samples[at], now_ns, out);
        at += 1;
        assert(out@ =~= old(out)@ + all_sample_events(old(state)@, key, samples@.take(at as int), now_ns));
    }
    assert(samples@.take(at as int) =~= samples@);
}

/// The samples among events.
pub open spec fn samples_in(events: Seq<SampleEvent>) -> Seq<PenSample>
    decreases events.len(),
{
    if events.len() == 0 {
        Seq::empty()
    } else {
        match events.last() {
            SampleEvent::Sample(sample) => samples_in(events.drop_last()).push(sample),
            _ => samples_in(events.drop_last()),
        }
    }
}

proof fn lemma_samples_in_parts(first: Seq<SampleEvent>, second: Seq<SampleEvent>)
    ensures
        samples_in(first + second) == samples_in(first) + samples_in(second),
    decreases second.len(),
{
    if second.len() == 0 {
        assert(first + second =~= first);
        assert(samples_in(first) + samples_in(second) =~= samples_in(first));
    } else {
        lemma_samples_in_parts(first, second.drop_last());
        assert((first + second).drop_last() =~= first + second.drop_last());
        assert((first + second).last() == second.last());
        assert(samples_in(first + second) =~= samples_in(first) + samples_in(second));
    }
}

proof fn lemma_one_sample(view: CaptureView, key: isize, sample: PenSample, now_ns: u64)
    ensures
        samples_in(sample_events(view, key, sample, now_ns)) == seq![sample],
{
    let near = proximity_events(view, key, sample.in_proximity, sample.tool_serial);
    let rate = rate_events(view, key, now_ns);
    reveal_with_fuel(samples_in, 2);
    assert(samples_in(near) =~= Seq::<PenSample>::empty()) by {
        if near.len() > 0 {
            assert(near.drop_last() =~= Seq::<SampleEvent>::empty());
        }
    }
    assert(samples_in(rate) =~= Seq::<PenSample>::empty()) by {
        if rate.len() > 0 {
            assert(rate.drop_last() =~= Seq::<SampleEvent>::empty());
        }
    }
    let upto = near.push(SampleEvent::Sample(sample));
    assert(upto.drop_last() =~= near);
    lemma_samples_in_parts(upto, rate);
    assert(samples_in(upto) + samples_in(rate) =~= seq![sample]);
}

/// Nothing is lost on the way out, nothing made up and nothing swapped: the
/// samples among the events are the samples that came in.
pub proof fn every_sample_goes_out(view: CaptureView, key: isize, samples: Seq<PenSample>, now_ns: u64)
    ensures
        samples_in(all_sample_events(view, key, samples, now_ns)) == samples,
    decreases samples.len(),
{
    if samples.len() > 0 {
        let before = samples.drop_last();
        let memory = all_sampled(view, key, before, now_ns);
        every_sample_goes_out(view, key, before, now_ns);
        lemma_one_sample(memory, key, samples.last(), now_ns);
        lemma_samples_in_parts(
            all_sample_events(view, key, before, now_ns),
            sample_events(memory, key, samples.last(), now_ns),
        );
        assert(before + seq![samples.last()] =~= samples);
    } else {
        assert(samples =~= Seq::<PenSample>::empty());
    }
}

/// It does not matter how the system groups reports: two batches in turn are
/// one batch.
pub proof fn batches_join(
    view: CaptureView,
    key: isize,
    first: Seq<PenSample>,
    second: Seq<PenSample>,
    now_ns: u64,
)
    ensures
        all_sampled(view, key, first + second, now_ns) == all_sampled(
            all_sampled(view, key, first, now_ns),
            key,
            second,
            now_ns,
        ),
        all_sample_events(view, key, first + second, now_ns) == all_sample_events(view, key, first, now_ns)
            + all_sample_events(all_sampled(view, key, first, now_ns), key, second, now_ns),
    decreases second.len(),
{
    if second.len() == 0 {
        assert(first + second =~= first);
        assert(all_sample_events(view, key, first, now_ns) =~= all_sample_events(view, key, first, now_ns)
            + Seq::<SampleEvent>::empty());
    } else {
        batches_join(view, key, first, second.drop_last(), now_ns);
        assert((first + second).drop_last() =~= first + second.drop_last());
        assert((first + second).last() == second.last());
        assert(all_sample_events(view, key, first + second, now_ns) =~= all_sample_events(view, key, first, now_ns)
            + all_sample_events(all_sampled(view, key, first, now_ns), key, second, now_ns));
    }
}

/// Reports are numbered without a gap, also across batches.
pub proof fn serials_follow_on(serial: u32, n: nat)
    ensures
        serial_after(serial, 0) == serial,
        serial_after(serial, n as int + 1) == if serial_after(serial, n as int) == u32::MAX {
            0
        } else {
            serial_after(serial, n as int) + 1
        },
{
}

/// The events of a block that comes from a device, from its header to its last
/// report. Blocks that hold no reports to decode have none.
pub open spec fn block_events<R: UsageReader>(
    view: CaptureView,
    key: isize,
    kind: u32,
    size_hid: u32,
    built: Option<DeviceProfile>,
    readers: Seq<R>,
    numbers: Seq<ReportNumbers>,
    now_ns: u64,
) -> Seq<SampleEvent> {
    let known = opened(view, key, kind, built);
    if known.profiles.contains_key(key) && kind == BLOCK_HID && size_hid != 0 {
        all_sample_events(
            CaptureView { serial: serial_after(known.serial, readers.len() as int), ..known },
            key,
            all_completed(block_reports(known, key, readers, now_ns), numbers),
            now_ns,
        )
    } else {
        Seq::empty()
    }
}

/// The memory after a block that comes from a device.
pub open spec fn after_block<R: UsageReader>(
    view: CaptureView,
    key: isize,
    kind: u32,
    size_hid: u32,
    built: Option<DeviceProfile>,
    readers: Seq<R>,
    numbers: Seq<ReportNumbers>,
    now_ns: u64,
) -> CaptureView {
    let known = opened(view, key, kind, built);
    if known.profiles.contains_key(key) && kind == BLOCK_HID && size_hid != 0 {
        all_sampled(
            CaptureView { serial: serial_after(known.serial, readers.len() as int), ..known },
            key,
            all_completed(block_reports(known, key, readers, now_ns), numbers),
            now_ns,
        )
    } else {
        known
    }
}

/// Counting reports and proximity leave the number of the last report alone.
proof fn lemma_sampling_keeps_serial(view: CaptureView, key: isize, samples: Seq<PenSample>, now_ns: u64)
    ensures
        all_sampled(view, key, samples, now_ns).serial == view.serial,
    decreases samples.len(),
{
    if samples.len() > 0 {
        lemma_sampling_keeps_serial(view, key, samples.drop_last(), now_ns);
    }
}

/// A block of a tablet sends one sample for each of its reports, in their
/// order, numbered on from the last one without a gap, all with the time of the
/// block. Blocks of another kind, of another device or without bytes send
/// nothing and use up no number.
pub proof fn blocks_send_a_sample_for_each_report<R: UsageReader>(
    view: CaptureView,
    key: isize,
    kind: u32,
    size_hid: u32,
    built: Option<DeviceProfile>,
    readers: Seq<R>,
    numbers: Seq<ReportNumbers>,
    now_ns: u64,
)
    requires
        numbers.len() == readers.len(),
    ensures
        ({
            let sent = samples_in(block_events(view, key, kind, size_hid, built, readers, numbers, now_ns));
            let after = after_block(view, key, kind, size_hid, built, readers, numbers, now_ns);
            if kind == BLOCK_HID && size_hid != 0 && (view.profiles.contains_key(key) || built is Some) {
                &&& sent.len() == readers.len()
                &&& forall|i: int|
                    #![trigger sent[i]]
                    0 <= i < sent.len() ==> sent[i].serial == serial_after(view.serial, i + 1) && sent[i].t_capture_ns
                        == now_ns
                &&& after.serial == serial_after(view.serial, readers.len() as int)
            } else {
                &&& block_events(view, key, kind, size_hid, built, readers, numbers, now_ns) == Seq::<
                    SampleEvent,
                >::empty()
                &&& after.serial == view.serial
            }
        }),
{
    let known = opened(view, key, kind, built);
    if known.profiles.contains_key(key) && kind == BLOCK_HID && size_hid != 0 {
        let numbered = CaptureView { serial: serial_after(known.serial, readers.len() as int), ..known };
        let samples = all_completed(block_reports(known, key, readers, now_ns), numbers);
        every_sample_goes_out(numbered, key, samples, now_ns);
        lemma_sampling_keeps_serial(numbered, key, samples, now_ns);
    }
}

/// Taking in samples and then one more is taking in all of them: each as it comes,
/// in order.
pub proof fn samples_are_taken_in_one_by_one(
    front: &[PenSample],
    last: PenSample,
    all: &[PenSample],
    key: isize,
    now: u64,
    state: &mut CaptureState,
    out: &mut Vec<SampleEvent>,
    then: &mut CaptureState,
    then_out: &mut Vec<SampleEvent>,
    whole: &mut CaptureState,
    whole_out: &mut Vec<SampleEvent>,
)
    requires
        all@ == front@.push(last),
        old(whole)@ == old(state)@,
        old(whole_out)@ == old(out)@,
        call_ensures(take_samples, (state, key, front, now, out), ()),
        old(then)@ == final(state)@,
        old(then_out)@ == final(out)@,
        call_ensures(take_sample, (then, key, last, now, then_out), ()),
        call_ensures(take_samples, (whole, key, all, now, whole_out), ()),
    ensures
        final(whole)@ == final(then)@,
        final(whole_out)@ == final(then_out)@,
{
    assert(all@.drop_last() =~= front@);
    assert(all@.last() == last);
}

/// No samples change nothing.
pub proof fn no_samples_change_nothing(
    none: &[PenSample],
    key: isize,
    now: u64,
    state: &mut CaptureState,
    out: &mut Vec<SampleEvent>,
)
    requires
        none@.len() == 0,
        call_ensures(take_samples, (state, key, none, now, out), ()),
    ensures
        final(state)@ == old(state)@,
        final(out)@ == old(out)@,
{
}

/// Reports can be counted for as long as the counter holds them, and without end
/// once the rate is known.
pub proof fn reports_can_be_counted_until_the_rate_is_known(
    state: CaptureState,
    reports: usize,
    many: bool,
    one: bool,
    fresh: CaptureState,
    profiles: ProfileMap,
    frequency: i64,
)
    requires
        call_ensures(CaptureState::can_count_all, (&state, reports), many),
        call_ensures(CaptureState::can_count, (&state,), one),
        call_ensures(CaptureState::new, (profiles, frequency), fresh),
    ensures
        many <==> state.rate_emitted || state.count_since_first + reports <= u64::MAX,
        one <==> state.rate_emitted || state.count_since_first < u64::MAX,
        fresh@.profiles == profiles@,
        fresh@.qpc_freq == frequency,
        fresh@.serial == 0 && fresh@.first_ns == 0 && fresh@.count_since_first == 0 && !fresh@.rate_emitted,
        fresh@.prox == Map::<isize, bool>::empty(),
{
}

} // verus!
