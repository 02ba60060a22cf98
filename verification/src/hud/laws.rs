//! What holds of everything that the display decides and shows.
//!
//! The laws speak of calls: of what went in and what came out.
use vstd::prelude::*;

use crate::consumer::source::{ConnectionStatus, Source, SourceView};
use crate::device::capabilities::DeviceCapabilities;
use crate::device::sample::PenSample;
use crate::double::Double;
use crate::hud::actions::Action;
use crate::hud::app::{
    activity_entry, activity_text, change_mapping, choose_velocity, end_test_note, first_place, flashing_pad, is_first_place,
    log_events, logged, note_label, octave_shift, only_port_ignores_mpe, pad_style, path_complaint, play, port_to_remember,
    preselect_port, repair_activation, repair_mapping, reselect_port, send_test_note, service_test_note, status_label,
    status_outcome, stream_label, take_message, takes_place, texts, toggle_tilt_cc, Outcome, PadStyle, Played, Recent,
    TestNote,
};
use crate::hud::midi_out::{bend_setup, find_port_index_by_name, mpe_init_events, push_rpn, rpn, some_name_has};
use crate::hud::panels::{
    file_status, flash_age, meters, meters_view, note_badge, pad_look, playing_profile, prefilled_path, FileTask, Flash, Meter, MeterValue,
    PadLook, TxMeter, TxRate,
};
use crate::midi::engine::{MpeEngine, PenReading};
use crate::midi::event::MidiEvent;
use crate::midi::mapping::{MidiMapping, MpeConfig, NoteMode, TiltAxis, VelocitySource};
use crate::midi::pads::{is_root, pad_note, Pad};
use crate::midi::scale::ScaleKind;
use crate::process::profile::{ActivationConfig, CalibrationProfile};
use crate::stream::StreamMessage;
use crate::text::{contains, decimal, is_blank, occurs_at, occurs_in};

verus! {

/// A list of recent items ends with the newest one. Before it stand those that
/// were there, in order, without the oldest where the list was full.
pub proof fn recent_lists_keep_the_newest<T>(list: &mut Recent<T>, item: T, i: int)
    requires
        old(list).capacity_spec() > 0,
        old(list)@.len() <= old(list).capacity_spec(),
        call_ensures(Recent::<T>::push, (list, item), ()),
    ensures
        final(list).capacity_spec() == old(list).capacity_spec(),
        final(list)@.len() > 0,
        final(list)@.last() == item,
        old(list)@.len() < old(list).capacity_spec() ==> final(list)@.len() == old(list)@.len() + 1,
        old(list)@.len() == old(list).capacity_spec() ==> final(list)@.len() == old(list)@.len(),
        0 <= i < final(list)@.len() - 1 ==> final(list)@[i] == old(list)@[i + old(list)@.len() - (final(list)@.len()
            - 1)],
{
}

/// A list starts empty; its items are counted and found from the oldest.
pub proof fn recent_lists_start_empty<T>(capacity: usize, fresh: Recent<T>, list: Recent<T>, len: usize, place: usize, item: &T)
    requires
        call_ensures(Recent::<T>::new, (capacity,), fresh),
        call_ensures(Recent::<T>::len, (&list,), len),
        place < list@.len(),
        call_ensures(Recent::<T>::get, (&list, place), item),
    ensures
        fresh@.len() == 0,
        fresh.capacity_spec() == capacity,
        len == list@.len(),
        *item == list@[place as int],
{
}

/// The name of a note in every octave.
pub open spec fn class_name(class: int) -> Seq<char> {
    if class == 0 {
        "C"@
    } else if class == 1 {
        "C#"@
    } else if class == 2 {
        "D"@
    } else if class == 3 {
        "D#"@
    } else if class == 4 {
        "E"@
    } else if class == 5 {
        "F"@
    } else if class == 6 {
        "F#"@
    } else if class == 7 {
        "G"@
    } else if class == 8 {
        "G#"@
    } else if class == 9 {
        "A"@
    } else if class == 10 {
        "A#"@
    } else {
        "B"@
    }
}

/// A note is labelled by its name and its octave. Octaves begin at C; the one
/// from middle C, note 60, is the fourth, and the lowest is the one before the
/// octave 0.
pub proof fn notes_are_named_by_class_and_octave(class: int, octave: u64, note: u8, r: String, number: String)
    requires
        0 <= class < 12,
        call_ensures(note_label, (note,), r),
        call_ensures(decimal, (octave,), number),
    ensures
        note == 60 + 12 * (octave - 4) + class ==> r@ == class_name(class) + number@,
        note == class ==> r@ == class_name(class) + "-1"@,
{
}

/// Strikes and releases have an entry in the activity list, expression has none.
/// An entry names the note and the channel, and the velocity of a strike.
pub proof fn entries_name_the_note(
    event: MidiEvent,
    r: Option<String>,
    note: u8,
    channel: u8,
    velocity: u8,
    name: String,
    channel_number: String,
    velocity_number: String,
)
    requires
        call_ensures(activity_entry, (&event,), r),
        call_ensures(note_label, (note,), name),
        call_ensures(decimal, (channel as u64,), channel_number),
        call_ensures(decimal, (velocity as u64,), velocity_number),
    ensures
        event is NoteOn || event is NoteOff <==> r is Some,
        event == (MidiEvent::NoteOn { channel, note, velocity }) ==> r->0@ == "▶ "@ + name@ + " ch"@ + channel_number@
            + " v"@ + velocity_number@,
        event == (MidiEvent::NoteOff { channel, note, velocity }) ==> r->0@ == "■ "@ + name@ + " ch"@ + channel_number@,
{
}

/// Events before a place do not depend on what comes after it.
proof fn lemma_logged_prefix(list: Seq<Seq<char>>, capacity: nat, whole: Seq<MidiEvent>, part: Seq<MidiEvent>, n: nat)
    requires
        n <= part.len() <= whole.len(),
        forall|i: int| 0 <= i < part.len() ==> part[i] == whole[i],
    ensures
        logged(list, capacity, whole, n) == logged(list, capacity, part, n),
    decreases n,
{
    if n > 0 {
        lemma_logged_prefix(list, capacity, whole, part, (n - 1) as nat);
    }
}

/// Events after others are logged onto what those left.
proof fn lemma_logged_suffix(
    list: Seq<Seq<char>>,
    capacity: nat,
    first: Seq<MidiEvent>,
    rest: Seq<MidiEvent>,
    n: nat,
)
    requires
        n <= rest.len(),
    ensures
        logged(list, capacity, first + rest, first.len() + n) == logged(
            logged(list, capacity, first, first.len()),
            capacity,
            rest,
            n,
        ),
    decreases n,
{
    if n == 0 {
        lemma_logged_prefix(list, capacity, first + rest, first, first.len());
    } else {
        lemma_logged_suffix(list, capacity, first, rest, (n - 1) as nat);
        assert((first + rest)[first.len() + n - 1] == rest[n - 1]);
    }
}

/// Logging some events and then others logs them all, in order.
pub proof fn events_are_logged_in_order(
    first: Vec<MidiEvent>,
    rest: Vec<MidiEvent>,
    all: Vec<MidiEvent>,
    once: &mut Recent<String>,
    again: &mut Recent<String>,
    whole: &mut Recent<String>,
)
    requires
        all@ == first@ + rest@,
        old(once).capacity_spec() > 0,
        old(whole).capacity_spec() == old(once).capacity_spec(),
        texts(old(whole)@) == texts(old(once)@),
        call_ensures(log_events, (once, &first), ()),
        old(again).capacity_spec() == final(once).capacity_spec(),
        texts(old(again)@) == texts(final(once)@),
        call_ensures(log_events, (again, &rest), ()),
        call_ensures(log_events, (whole, &all), ()),
    ensures
        texts(final(whole)@) == texts(final(again)@),
        final(whole).capacity_spec() == old(whole).capacity_spec(),
{
    lemma_logged_suffix(texts(old(whole)@), old(whole).capacity_spec(), first@, rest@, rest@.len());
}

/// A strike or a release adds its entry to the activity list, as the newest;
/// other events add nothing.
pub proof fn notes_add_their_entry(
    events: Vec<MidiEvent>,
    activity: &mut Recent<String>,
    entry: Option<String>,
    other: &mut Recent<String>,
)
    requires
        events@.len() == 1,
        old(activity).capacity_spec() > 0,
        call_ensures(activity_entry, (&events@[0],), entry),
        call_ensures(log_events, (activity, &events), ()),
        old(other).capacity_spec() == old(activity).capacity_spec(),
        texts(old(other)@) == texts(old(activity)@),
        call_ensures(Recent::<String>::push, (other, entry->0), ()),
    ensures
        entry is None ==> texts(final(activity)@) == texts(old(activity)@),
        entry is Some ==> texts(final(activity)@) == texts(final(other)@),
{
    reveal_with_fuel(logged, 2);
    assert(old(other)@.len() == texts(old(other)@).len());
    if entry is Some {
        assert(texts(final(other)@) =~= if old(other)@.len() == old(other).capacity_spec() {
            texts(old(other)@).skip(1).push(entry->0@)
        } else {
            texts(old(other)@).push(entry->0@)
        });
    }
}

/// A pad flashes exactly where a note was struck, and it is the sounding one.
pub proof fn strikes_flash_the_sounding_pad(events: Vec<MidiEvent>, active: Option<Pad>, r: Option<Pad>, i: int)
    requires
        call_ensures(flashing_pad, (&events, active), r),
    ensures
        0 <= i < events@.len() && events@[i] is NoteOn ==> r == active,
        r is Some ==> r == active && exists|k: int| 0 <= k < events@.len() && (#[trigger] events@[k]) is NoteOn,
{
}

/// Playing a reading sends what the engine makes of it, lists the notes among
/// that, and flashes as the strikes among that ask.
pub proof fn playing_sends_what_the_engine_makes(
    engine: &mut MpeEngine,
    reading: PenReading,
    mapping: MidiMapping,
    activity: &mut Recent<String>,
    r: Played,
    same: &mut MpeEngine,
    out: &mut Vec<MidiEvent>,
    list: &mut Recent<String>,
    active: Option<Pad>,
    flash: Option<Pad>,
)
    requires
        mapping.mpe.members() <= 255,
        old(activity).capacity_spec() > 0,
        call_ensures(play, (engine, &reading, &mapping, activity), r),
        old(same)@ == old(engine)@,
        old(out)@.len() == 0,
        call_ensures(MpeEngine::process, (same, &reading, &mapping, out), ()),
        old(list).capacity_spec() == old(activity).capacity_spec(),
        texts(old(list)@) == texts(old(activity)@),
        call_ensures(log_events, (list, final(out)), ()),
        call_ensures(MpeEngine::active_pad, (final(same),), active),
        call_ensures(flashing_pad, (final(out), active), flash),
    ensures
        r.events@ == final(out)@,
        final(engine)@ == final(same)@,
        texts(final(activity)@) == texts(final(list)@),
        r.flash == flash,
{
}

/// A description of the device is kept until another comes. A sample is played
/// as it is, once there is a description.
pub proof fn samples_need_a_description(
    latest: &mut Option<DeviceCapabilities>,
    message: StreamMessage,
    r: Option<PenSample>,
)
    requires
        call_ensures(take_message, (latest, message), r),
    ensures
        message matches StreamMessage::Capabilities(caps) ==> *final(latest) == Some(caps),
        !(message is Capabilities) ==> *final(latest) == *old(latest),
        message matches StreamMessage::Sample(sample) ==> *old(latest) is Some ==> r == Some(sample),
        r is Some ==> message is Sample && *old(latest) is Some,
{
}

/// The port to select at the start has the remembered name where one has, and is
/// the first one of those; without one it is the first port.
pub proof fn remembered_ports_are_selected(remembered: Option<&str>, ports: Vec<String>, r: usize, i: int)
    requires
        call_ensures(preselect_port, (remembered, &ports), r),
    ensures
        remembered matches Some(name) ==> 0 <= i < ports@.len() && ports@[i]@ == name@ ==> r <= i && ports@[r as int]@ == name@,
        remembered is None ==> r == 0,
        r > 0 ==> r < ports@.len() && remembered is Some && ports@[r as int]@ == remembered->0@,
{
    if let Some(name) = remembered {
        if 0 <= i < ports@.len() && ports@[i]@ == name@ {
            lemma_first_among(ports, name@, i);
        }
        if first_place(ports@, name@) is Some {
            let at = choose|k: usize| is_first_place(ports@, name@, k);
            assert(is_first_place(ports@, name@, at));
        }
    }
}

/// Where a name occurs, it occurs first somewhere.
proof fn lemma_first_among(ports: Vec<String>, name: Seq<char>, i: int)
    requires
        0 <= i < ports@.len(),
        ports@[i]@ == name,
    ensures
        first_place(ports@, name) matches Some(at) && at <= i && ports@[at as int]@ == name,
    decreases i,
{
    if exists|j: int| 0 <= j < i && (#[trigger] ports@[j])@ == name {
        let j = choose|j: int| 0 <= j < i && (#[trigger] ports@[j])@ == name;
        lemma_first_among(ports, name, j);
    } else {
        assert(ports@.len() == ports.len());
        let at = i as usize;
        assert(at == i);
        assert(is_first_place(ports@, name, at));
        let chosen = choose|k: usize| is_first_place(ports@, name, k);
        assert(is_first_place(ports@, name, chosen));
        if i < chosen {
            assert(ports@[i]@ != name);
        }
    }
}

/// After the ports were listed anew the selected one is selected where it still
/// is listed; otherwise the place stays, or the first port takes over where the
/// place is gone.
pub proof fn selections_follow_their_port(before: Vec<String>, selected: usize, ports: Vec<String>, r: usize, i: int)
    requires
        call_ensures(reselect_port, (&before, selected, &ports), r),
    ensures
        selected < before@.len() && 0 <= i < ports@.len() && ports@[i]@ == before@[selected as int]@ ==> r <= i
            && ports@[r as int]@ == before@[selected as int]@,
        (selected >= before@.len() || forall|k: int|
            0 <= k < ports@.len() ==> (#[trigger] ports@[k])@ != before@[selected as int]@) ==> r == if selected
            < ports@.len() {
            selected
        } else {
            0
        },
{
    if selected < before@.len() {
        let name = before@[selected as int]@;
        if 0 <= i < ports@.len() && ports@[i]@ == name {
            lemma_first_among(ports, name, i);
        }
        if first_place(ports@, name) is Some {
            let at = choose|k: usize| is_first_place(ports@, name, k);
            assert(is_first_place(ports@, name, at));
        }
    }
}

/// The connected port is remembered, or else the selected one.
pub proof fn connected_ports_are_remembered(connected: Option<&str>, ports: Vec<String>, selected: usize, r: Option<String>)
    requires
        call_ensures(port_to_remember, (connected, &ports, selected), r),
    ensures
        connected matches Some(name) ==> r is Some && r->0@ == name@,
        connected is None && selected < ports@.len() ==> r is Some && r->0@ == ports@[selected as int]@,
        connected is None && ports@.len() <= selected ==> r is None,
{
}

/// The warning about MPE is for a sole port whose name holds that of the
/// built-in synthesizer.
pub proof fn the_builtin_synth_is_warned_of(ports: Vec<String>, r: bool, name: &str, synth: &str, found: bool)
    requires
        call_ensures(only_port_ignores_mpe, (&ports,), r),
        synth@ == "Microsoft GS Wavetable Synth"@,
        ports@.len() > 0 ==> name@ == ports@[0]@,
        call_ensures(contains, (name, synth), found),
    ensures
        r <==> ports@.len() == 1 && found,
{
}

/// The top bar names the spawned program, or the source by its kind and address.
pub proof fn labels_name_the_source(spawned: bool, source: Source, r: String)
    requires
        call_ensures(stream_label, (spawned, &source), r),
    ensures
        spawned ==> r@ == "spawned tablet-cli"@,
        !spawned && source@ == SourceView::Stdin ==> r@ == "stdin"@,
        source@ matches SourceView::Tcp(address) ==> !spawned ==> r@ == "tcp: "@ + address,
        source@ matches SourceView::Pipe(name) ==> !spawned ==> r@ == "pipe: "@ + name,
{
}

/// Each state of the connection has its own word.
pub proof fn states_have_their_word(status: ConnectionStatus, r: &'static str)
    requires
        call_ensures(status_label, (status,), r),
    ensures
        status is Connecting ==> r@ == "connecting"@,
        status is Connected ==> r@ == "connected"@,
        status is Disconnected ==> r@ == "disconnected"@,
{
}

/// A shift moves the low note by twelve for each octave, as far as the ends at 0
/// and 96 let it, and changes nothing else.
pub proof fn octaves_are_twelve_notes(m: &mut MidiMapping, delta: i32)
    requires
        call_ensures(octave_shift, (m, delta), ()),
    ensures
        *final(m) == (MidiMapping { low_note: final(m).low_note, ..*old(m) }),
        final(m).low_note <= 96,
        0 <= old(m).low_note + 12 * delta <= 96 ==> final(m).low_note == old(m).low_note + 12 * delta,
        old(m).low_note + 12 * delta < 0 ==> final(m).low_note == 0,
        old(m).low_note + 12 * delta > 96 ==> final(m).low_note == 96,
{
}

/// A test note is a loud middle C on the master channel. It ends half a second
/// later, and not before, by the release of the same note on the same channel.
/// One that still sounds ends when the next begins.
pub proof fn test_notes_end_after_half_a_second(
    pending: &mut Option<TestNote>,
    master: u8,
    start: u64,
    sent: Vec<MidiEvent>,
    later: &mut Option<TestNote>,
    now: u64,
    served: Vec<MidiEvent>,
)
    requires
        start + 500 <= u64::MAX,
        call_ensures(send_test_note, (pending, master, start), sent),
        *old(later) == *final(pending),
        call_ensures(service_test_note, (later, now), served),
    ensures
        sent@.last() == (MidiEvent::NoteOn { channel: master, note: 60, velocity: 100 }),
        *old(pending) is None ==> sent@.len() == 1,
        *old(pending) matches Some(t) ==> sent@.len() == 2 && sent@[0] == (MidiEvent::NoteOff {
            channel: t.channel,
            note: t.note,
            velocity: 0,
        }),
        now < start + 500 ==> served@.len() == 0 && *final(later) == *old(later),
        now >= start + 500 ==> served@ == seq![MidiEvent::NoteOff { channel: master, note: 60, velocity: 0 }]
            && *final(later) is None,
{
}

/// A test note that is ended is released; without one nothing is sent.
pub proof fn ended_test_notes_are_released(
    pending: &mut Option<TestNote>,
    r: Vec<MidiEvent>,
    idle: &mut Option<TestNote>,
    now: u64,
    served: Vec<MidiEvent>,
)
    requires
        call_ensures(end_test_note, (pending,), r),
        *old(idle) is None,
        call_ensures(service_test_note, (idle, now), served),
    ensures
        *final(pending) is None,
        *old(pending) is None ==> r@.len() == 0,
        *old(pending) matches Some(t) ==> r@ == seq![
            MidiEvent::NoteOff { channel: t.channel, note: t.note, velocity: 0 },
        ],
        served@.len() == 0 && *final(idle) is None,
{
}

/// Panic takes place always. Typing holds back every other action, and a test
/// note also waits for a connection.
pub proof fn only_panic_is_never_held_back(action: Action, typing: bool, connected: bool, r: bool)
    requires
        call_ensures(takes_place, (action, typing, connected), r),
    ensures
        action == Action::Panic ==> r,
        typing && action != Action::Panic ==> !r,
        action == Action::TestNote && !connected ==> !r,
        !typing && (connected || action != Action::TestNote) ==> r,
{
}

/// What an action does to a mapping: the octave, the scale, the key and the mode
/// step through their menus, the switches flip, and everything else stays.
pub proof fn actions_change_their_setting(action: Action, m: &mut MidiMapping, r: bool)
    requires
        call_ensures(change_mapping, (action, m), r),
    ensures
        ({
            let (before, after) = (*old(m), *final(m));
            let steps_octave = action == Action::OctaveUp || action == Action::OctaveDown;
            let steps_scale = action == Action::ScaleNext || action == Action::ScalePrev;
            let steps_key = action == Action::KeyNext || action == Action::KeyPrev;
            let steps_mode = action == Action::CycleNoteMode;
            let flips_timbre = action == Action::ToggleXToCc74;
            let flips_pressure = action == Action::TogglePressure;
            let flips_tilt = action == Action::ToggleTiltCc;
            &&& r <==> steps_octave || steps_scale || steps_key || steps_mode || flips_timbre || flips_pressure || flips_tilt
            &&& !steps_octave ==> after.low_note == before.low_note
            &&& !steps_scale ==> after.scale == before.scale
            &&& !steps_key ==> after.key == before.key
            &&& !steps_mode ==> after.mode == before.mode
            &&& flips_timbre <==> after.x_to_cc74 != before.x_to_cc74
            &&& flips_pressure <==> after.pressure_to_channel_pressure != before.pressure_to_channel_pressure
            &&& flips_tilt <==> (after.tilt_cc is Some != before.tilt_cc is Some)
            &&& !flips_tilt ==> after.tilt_cc == before.tilt_cc
            &&& after == MidiMapping {
                low_note: after.low_note,
                scale: after.scale,
                key: after.key,
                mode: after.mode,
                x_to_cc74: after.x_to_cc74,
                pressure_to_channel_pressure: after.pressure_to_channel_pressure,
                tilt_cc: after.tilt_cc,
                ..before
            }
            &&& action == Action::OctaveUp && before.low_note <= 84 ==> after.low_note == before.low_note + 12
            &&& action == Action::OctaveDown && 12 <= before.low_note <= 96 ==> after.low_note == before.low_note - 12
            &&& action == Action::KeyNext && before.key < 11 ==> after.key == before.key + 1
            &&& action == Action::KeyNext && before.key == 11 ==> after.key == 0
            &&& action == Action::KeyPrev && 0 < before.key < 12 ==> after.key == before.key - 1
            &&& action == Action::KeyPrev && before.key == 0 ==> after.key == 11
            &&& action == Action::CycleNoteMode ==> {
                &&& before.mode is Hold ==> after.mode is Glide
                &&& before.mode is Glide ==> after.mode is Discrete
                &&& before.mode is Discrete ==> after.mode is Hold
            }
            &&& action == Action::ScaleNext ==> {
                &&& before.scale is Chromatic ==> after.scale is Major
                &&& before.scale is Major ==> after.scale is NaturalMinor
                &&& before.scale is NaturalMinor ==> after.scale is MajorPentatonic
                &&& before.scale is MajorPentatonic ==> after.scale is MinorPentatonic
                &&& before.scale is MinorPentatonic ==> after.scale is Blues
                &&& before.scale is Blues ==> after.scale is Dorian
                &&& before.scale is Dorian ==> after.scale is Mixolydian
                &&& before.scale is Mixolydian ==> after.scale is Chromatic
            }
        }),
{
}

/// Stepping to the next and back again changes nothing, in a mapping whose key is
/// a pitch class.
pub proof fn steps_go_back(m: &mut MidiMapping, back: &mut MidiMapping, scales: bool, there: bool, here: bool)
    requires
        old(m).key < 12,
        call_ensures(
            change_mapping,
            (
                if scales {
                    Action::ScaleNext
                } else {
                    Action::KeyNext
                },
                m,
            ),
            there,
        ),
        *old(back) == *final(m),
        call_ensures(
            change_mapping,
            (
                if scales {
                    Action::ScalePrev
                } else {
                    Action::KeyPrev
                },
                back,
            ),
            here,
        ),
    ensures
        *final(back) == *old(m),
{
}

/// The tilt controller that is switched on is the modulation wheel, moved by the
/// tilt to the side, at its end at sixty degrees.
pub proof fn tilt_switches_on_the_modulation_wheel(m: &mut MidiMapping)
    requires
        call_ensures(toggle_tilt_cc, (m,), ()),
    ensures
        old(m).tilt_cc is Some <==> final(m).tilt_cc is None,
        final(m).tilt_cc matches Some(cc) ==> cc.controller == 1 && cc.axis == TiltAxis::X && cc.range_deg == (Double {
            bits: 0x404e_0000_0000_0000,
        }),
        *final(m) == (MidiMapping { tilt_cc: final(m).tilt_cc, ..*old(m) }),
{
}

/// Choosing a kind of velocity gives that kind. A source of that kind stays; a
/// new one is fixed at 100, or follows pressure over the whole range.
pub proof fn velocity_is_of_the_chosen_kind(source: VelocitySource, from_pressure: bool, r: VelocitySource)
    requires
        call_ensures(choose_velocity, (source, from_pressure), r),
    ensures
        from_pressure <==> r is Pressure,
        source is Pressure == from_pressure ==> r == source,
        source is Pressure && !from_pressure ==> r == VelocitySource::Fixed(100),
        source is Fixed && from_pressure ==> r == (VelocitySource::Pressure { min: 1, max: 127 }),
{
}

/// Repairing raises an upper bound to its lower bound where it was below it. The
/// lower bounds stay, and so does everything that was in order.
pub proof fn repairs_raise_the_upper_bound(m: &mut MidiMapping)
    requires
        call_ensures(repair_mapping, (m,), ()),
    ensures
        final(m).mpe.member_low == old(m).mpe.member_low,
        final(m).mpe.member_high >= old(m).mpe.member_high,
        final(m).mpe.member_high == old(m).mpe.member_high || final(m).mpe.member_high == final(m).mpe.member_low,
        final(m).mpe.member_low <= final(m).mpe.member_high,
        old(m).velocity is Fixed ==> final(m).velocity == old(m).velocity,
        old(m).velocity matches VelocitySource::Pressure { min, max } ==> {
            &&& min <= max ==> final(m).velocity == old(m).velocity
            &&& min > max ==> final(m).velocity == (VelocitySource::Pressure { min, max: min })
        },
        *final(m) == (MidiMapping {
            mpe: MpeConfig { member_high: final(m).mpe.member_high, ..old(m).mpe },
            velocity: final(m).velocity,
            ..*old(m)
        }),
{
}

/// Repairing lowers an off threshold to the on threshold where it was above it,
/// and nothing else.
pub proof fn repairs_lower_the_off_threshold(activation: &mut ActivationConfig)
    requires
        call_ensures(repair_activation, (activation,), ()),
    ensures
        final(activation).on_threshold == old(activation).on_threshold,
        old(activation).on_threshold.less(old(activation).off_threshold) ==> final(activation).off_threshold == old(
            activation,
        ).on_threshold,
        !old(activation).on_threshold.less(old(activation).off_threshold) ==> *final(activation) == *old(activation),
        *final(activation) == (ActivationConfig {
            off_threshold: final(activation).off_threshold,
            ..*old(activation)
        }),
{
}

/// A pad without a note is dead, whatever else. One that sounds is active, and a
/// silent one is a root or plain.
pub proof fn styles_rank_dead_active_root(note: Option<u8>, sounding: bool, root: bool, r: PadStyle)
    requires
        call_ensures(pad_style, (note, sounding, root), r),
    ensures
        r is Dead <==> note is None,
        r is Active <==> note is Some && sounding,
        r is Root <==> note is Some && !sounding && root,
        r is Plain <==> note is Some && !sounding && !root,
{
}

/// A file task that went well is coloured as good, one that failed as bad, and
/// what failed is quoted. The other texts are neutral.
pub proof fn failures_are_coloured_as_bad(
    task: FileTask,
    error: Option<&str>,
    status: String,
    shown: &str,
    r: Outcome,
    text: &str,
    failing: &str,
    fails: bool,
    outcome: Outcome,
)
    requires
        call_ensures(file_status, (task, error), status),
        shown@ == status@,
        call_ensures(status_outcome, (shown,), r),
        failing@ == "failed"@,
        call_ensures(contains, (text, failing), fails),
        call_ensures(status_outcome, (text,), outcome),
    ensures
        error is None ==> r is Good,
        error is Some ==> r is Bad,
        error matches Some(detail) ==> status@ == (if task is Load {
            "load"@
        } else {
            "save"@
        }) + " failed: "@ + detail@,
        outcome is Bad <==> fails,
        outcome is Good ==> text@ == "loaded"@ || text@ == "saved"@,
{
    reveal_strlit("failed");
    reveal_strlit("loaded");
    reveal_strlit("saved");
    reveal_strlit("load");
    reveal_strlit("save");
    reveal_strlit(" failed: ");
    reveal_strlit("load failed: ");
    reveal_strlit("save failed: ");
    if error is None {
        if occurs_in(shown@, "failed"@) {
            let k = choose|k: int| occurs_at(shown@, "failed"@, k);
            assert(shown@.subrange(k, k + 6)[0] == shown@[k]);
            assert("failed"@[0] == 'f');
            assert("loaded"@[0] == 'l');
            assert(false);
        }
    } else {
        assert("load failed: "@ =~= "load"@ + " failed: "@);
        assert("save failed: "@ =~= "save"@ + " failed: "@);
        assert(shown@.subrange(5, 11) =~= "failed"@);
        assert(occurs_at(shown@, "failed"@, 5));
    }
}

/// The path field is complained about exactly where it is blank.
pub proof fn blank_paths_are_complained_about(path: &str, r: Option<&'static str>, blank: bool)
    requires
        call_ensures(path_complaint, (path,), r),
        call_ensures(is_blank, (path,), blank),
    ensures
        r is Some <==> blank,
        r matches Some(text) ==> text@ == "enter a path first"@,
{
}

/// Without a profile, the neutral one is played, but for contact: it begins at a
/// pressure of 0.04 and ends at 0.02.
pub proof fn playing_needs_pressure(r: CalibrationProfile, neutral: CalibrationProfile)
    requires
        call_ensures(playing_profile, (), r),
        call_ensures(CalibrationProfile::identity, (), neutral),
    ensures
        r.activation.enabled,
        r.activation.on_threshold == (Double { bits: 0x3fa4_7ae1_47ae_147b }),
        r.activation.off_threshold == (Double { bits: 0x3f94_7ae1_47ae_147b }),
        r.activation == (ActivationConfig {
            enabled: true,
            on_threshold: r.activation.on_threshold,
            off_threshold: r.activation.off_threshold,
            ..neutral.activation
        }),
        r.valid(),
{
}

/// The path asked for is shown before the remembered one.
pub proof fn asked_paths_come_first(asked: Option<&str>, remembered: Option<&str>, r: String)
    requires
        call_ensures(prefilled_path, (asked, remembered), r),
    ensures
        asked matches Some(path) ==> r@ == path@,
        remembered matches Some(path) ==> asked is None ==> r@ == path@,
        asked is None && remembered is None ==> r@.len() == 0,
{
}

/// A meter counts what was sent. After a second or more it gives what was sent
/// since the last rate over the time since then, and begins anew; before that it
/// gives nothing.
pub proof fn meters_count_what_was_sent(
    fresh: TxMeter,
    start: u64,
    meter: &mut TxMeter,
    events: u64,
    ticked: &mut TxMeter,
    now: u64,
    r: Option<TxRate>,
)
    requires
        call_ensures(TxMeter::new, (start,), fresh),
        old(meter).valid(),
        call_ensures(TxMeter::count, (meter, events), ()),
        *old(ticked) == *final(meter),
        call_ensures(TxMeter::tick, (ticked, now), r),
    ensures
        fresh.sent == 0 && fresh.sent_at_tick == 0 && fresh.tick_ms == start,
        old(meter).sent + events <= u64::MAX ==> final(meter).sent == old(meter).sent + events,
        old(meter).sent + events > u64::MAX ==> final(meter).sent == u64::MAX,
        final(meter).sent_at_tick == old(meter).sent_at_tick && final(meter).tick_ms == old(meter).tick_ms,
        r is Some <==> now >= old(meter).tick_ms + 1000,
        r matches Some(rate) ==> old(meter).tick_ms + rate.window_ms == now && old(meter).sent_at_tick + rate.events
            == final(ticked).sent,
        final(ticked).sent == final(meter).sent,
        r is Some ==> final(ticked).sent_at_tick == final(ticked).sent && final(ticked).tick_ms == now,
        r is None ==> *final(ticked) == *final(meter),
{
}

/// A flash is seen for 150 ms from its beginning.
pub proof fn flashes_last_150_ms(flash: Option<Flash>, now: u64, r: Option<u64>)
    requires
        call_ensures(flash_age, (flash, now), r),
    ensures
        flash is None ==> r is None,
        flash matches Some(f) ==> {
            &&& f.started_ms + 150 <= now ==> r is None
            &&& f.started_ms <= now < f.started_ms + 150 ==> r == Some((now - f.started_ms) as u64)
            &&& now < f.started_ms ==> r == Some(0u64)
        },
{
}

/// A pad is drawn by its note, and by whether it sounds, is a root, is hovered
/// over or was struck. Its label is that of its note.
pub proof fn pads_look_as_they_are(
    pad: Pad,
    m: MidiMapping,
    active: Option<Pad>,
    hovered: Option<Pad>,
    flash: Option<Pad>,
    labels: bool,
    r: PadLook,
    note: Option<u8>,
    root: bool,
    style: PadStyle,
    name: String,
)
    requires
        call_ensures(pad_look, (pad, &m, active, hovered, flash, labels), r),
        call_ensures(pad_note, (pad, &m), note),
        call_ensures(is_root, (pad, &m), root),
        call_ensures(pad_style, (note, active == Some(pad), root), style),
        note is Some ==> call_ensures(note_label, (note->0,), name),
    ensures
        r.style == style,
        r.glowing <==> active == Some(pad),
        r.outlined <==> hovered == Some(pad) && active != Some(pad) && note is Some,
        r.flashing <==> flash == Some(pad),
        r.label is Some <==> labels && note is Some,
        r.label matches Some(label) ==> label@ == name@,
{
}

/// Does some meter have this caption and this value?
pub open spec fn has_meter(meters: Seq<Meter>, caption: Seq<char>, value: MeterValue) -> bool {
    exists|i: int| 0 <= i < meters.len() && (#[trigger] meters[i]).caption@ == caption && meters[i].value == value
}

/// The first meter shows the bend that went out last, or its centre. Each axis
/// that is mapped has its own meter with what went out last, or nothing; there
/// are no others.
pub proof fn meters_show_what_went_out(engine: MpeEngine, m: MidiMapping, r: Vec<Meter>, number: String)
    requires
        call_ensures(meters, (&engine, &m), r),
        m.tilt_cc is Some ==> call_ensures(decimal, ((m.tilt_cc->0).controller as u64,), number),
    ensures
        r@.len() == 1 + (if m.pressure_to_channel_pressure {
            1int
        } else {
            0
        }) + (if m.x_to_cc74 {
            1int
        } else {
            0
        }) + (if m.tilt_cc is Some {
            1int
        } else {
            0
        }),
        r@[0].caption@ == "bend"@,
        engine@.last_bend is None ==> r@[0].value == MeterValue::Bend(8192),
        engine@.last_bend matches Some(bend) ==> r@[0].value == MeterValue::Bend(bend),
        m.pressure_to_channel_pressure ==> has_meter(
            r@,
            "pressure"@,
            MeterValue::Level(
                if engine@.last_pressure is Some {
                    engine@.last_pressure->0
                } else {
                    0
                },
            ),
        ),
        m.x_to_cc74 ==> has_meter(
            r@,
            "CC74"@,
            MeterValue::Level(
                if engine@.last_cc74 is Some {
                    engine@.last_cc74->0
                } else {
                    0
                },
            ),
        ),
        m.tilt_cc is Some ==> has_meter(
            r@,
            "tilt CC"@ + number@,
            MeterValue::Level(
                if engine@.last_tilt_cc is Some {
                    engine@.last_tilt_cc->0
                } else {
                    0
                },
            ),
        ),
{
    let views = meters_view(r@);
    assert(views.len() == r@.len());
    assert forall|i: int| 0 <= i < r@.len() implies views[i].caption == (#[trigger] r@[i]).caption@ && views[i].value
        == r@[i].value by {
        assert(views[i] == r@[i]@);
    }
    let third: int = if m.pressure_to_channel_pressure {
        2
    } else {
        1
    };
    let last: int = third + if m.x_to_cc74 {
        1int
    } else {
        0
    };
    if m.pressure_to_channel_pressure {
        assert(r@[1].caption@ == "pressure"@);
    }
    if m.x_to_cc74 {
        assert(r@[third].caption@ == "CC74"@);
    }
    if m.tilt_cc is Some {
        assert(r@[last].caption@ == "tilt CC"@ + number@);
    }
    assert(r@[0].caption@ == "bend"@);
}

/// The badge names the sounding note and its channel, or is a dash.
pub proof fn badges_name_the_sounding_note(engine: MpeEngine, r: String, name: String, channel: String)
    requires
        call_ensures(note_badge, (&engine,), r),
        engine@.voice is Some ==> call_ensures(note_label, ((engine@.voice->0).note,), name) && call_ensures(
            decimal,
            ((engine@.voice->0).channel as u64,),
            channel,
        ),
    ensures
        engine@.voice is None ==> r@ == "—"@,
        engine@.voice is Some ==> r@ == name@ + " ch"@ + channel@,
{
}

/// Is `event` the change of a controller on a channel to a value?
pub open spec fn sets(event: MidiEvent, channel: u8, controller: u8, value: u8) -> bool {
    event == MidiEvent::ControlChange { channel, controller, value }
}

/// A registered parameter is written by its number, its value, and then the
/// number that stands for no parameter.
pub proof fn parameters_are_written_and_closed(
    out: &mut Vec<MidiEvent>,
    channel: u8,
    msb: u8,
    lsb: u8,
    value: u8,
    i: int,
)
    requires
        call_ensures(push_rpn, (out, channel, msb, lsb, value), ()),
    ensures
        final(out)@.len() == old(out)@.len() + 5,
        0 <= i < old(out)@.len() ==> final(out)@[i] == old(out)@[i],
        ({
            let n = old(out)@.len() as int;
            &&& sets(final(out)@[n], channel, 101, msb)
            &&& sets(final(out)@[n + 1], channel, 100, lsb)
            &&& sets(final(out)@[n + 2], channel, 6, value)
            &&& sets(final(out)@[n + 3], channel, 101, 127)
            &&& sets(final(out)@[n + 4], channel, 100, 127)
        }),
{
}

/// What the setup of channels holds for one of them.
proof fn lemma_bend_setup_at(channels: Seq<u8>, range: u8, i: int)
    requires
        0 <= i < channels.len(),
    ensures
        bend_setup(channels, range).len() == 5 * channels.len(),
        bend_setup(channels, range).subrange(5 * i, 5 * i + 5) == rpn(channels[i], 0, 0, range),
    decreases channels.len(),
{
    let front = bend_setup(channels.drop_last(), range);
    let all = bend_setup(channels, range);
    if channels.len() == 1 {
        assert(channels.drop_last().len() == 0);
        assert(front.len() == 0);
        assert(all.subrange(0, 5) =~= rpn(channels[0], 0, 0, range));
    } else if i < channels.len() - 1 {
        lemma_bend_setup_at(channels.drop_last(), range, i);
        assert(all.subrange(5 * i, 5 * i + 5) =~= front.subrange(5 * i, 5 * i + 5));
    } else {
        lemma_bend_setup_at(channels.drop_last(), range, 0);
        assert(all.subrange(5 * i, 5 * i + 5) =~= rpn(channels[i], 0, 0, range));
    }
}

/// The setup of a receiver tells the size of the zone on the master channel, by
/// the parameter 6, and then the bend range on each channel of the zone, by the
/// parameter 0: a whole number of semitones up to 96.
pub proof fn receivers_learn_the_zone(m: MidiMapping, r: Vec<MidiEvent>, zone: Vec<u8>, count: u8, range: u8, i: int)
    requires
        call_ensures(mpe_init_events, (&m,), r),
        call_ensures(MpeConfig::zone_member_range, (&m.mpe,), zone),
        call_ensures(MpeConfig::zone_member_count, (&m.mpe,), count),
        call_ensures(Double::rounded, (m.mpe.pitch_bend_range_semitones, 96u8), range),
        0 <= i < zone@.len(),
    ensures
        r@.len() == 5 + 5 * zone@.len(),
        sets(r@[0], m.mpe.master_channel, 101, 0),
        sets(r@[1], m.mpe.master_channel, 100, 6),
        sets(r@[2], m.mpe.master_channel, 6, count),
        sets(r@[5 + 5 * i], zone@[i], 101, 0),
        sets(r@[6 + 5 * i], zone@[i], 100, 0),
        sets(r@[7 + 5 * i], zone@[i], 6, range),
        sets(r@[8 + 5 * i], zone@[i], 101, 127),
        sets(r@[9 + 5 * i], zone@[i], 100, 127),
{
    let tail = bend_setup(m.mpe.zone(), range);
    lemma_bend_setup_at(m.mpe.zone(), range, i);
    let piece = tail.subrange(5 * i, 5 * i + 5);
    assert(piece[0] == tail[5 * i]);
    assert(piece[1] == tail[5 * i + 1]);
    assert(piece[2] == tail[5 * i + 2]);
    assert(piece[3] == tail[5 * i + 3]);
    assert(piece[4] == tail[5 * i + 4]);
}

/// A port is found by a part of its name: the first that has it.
pub proof fn ports_are_found_by_part(
    ports: &Vec<String>,
    part: &str,
    r: Option<usize>,
    i: int,
    name: &str,
    found: bool,
)
    requires
        call_ensures(find_port_index_by_name, (ports, part), r),
        0 <= i < ports@.len(),
        name@ == ports@[i]@,
        call_ensures(contains, (name, part), found),
    ensures
        found ==> r is Some && r->0 <= i,
        r matches Some(at) ==> at < ports@.len() && (at == i ==> found),
{
    if found {
        assert(occurs_in(ports@[i]@, part@));
        assert(some_name_has(ports@, part@));
    }
}

} // verus!
