//! What the performance display decides between drawing.
//!
//! Times are milliseconds since the display started.
use std::collections::VecDeque;
use vstd::prelude::*;
use vstd::string::StringExecFns;

use crate::consumer::source::{ConnectionStatus, Source, SourceView};
use crate::device::capabilities::DeviceCapabilities;
use crate::device::sample::PenSample;
use crate::double::Double;
use crate::hud::actions::Action;
use crate::hud::cli::source_label;
use crate::midi::engine::{MpeEngine, PenReading};
use crate::midi::event::MidiEvent;
use crate::midi::mapping::{MidiMapping, MpeConfig, NoteMode, TiltAxis, TiltCc, VelocitySource};
use crate::midi::pads::Pad;
use crate::midi::scale::{ScaleKind, PITCH_CLASS_NAMES};
use crate::process::profile::ActivationConfig;
use crate::stream::StreamMessage;
use crate::text::{contains, decimal, decimal_text, is_blank, is_blank_text, occurs_in, same_text};

verus! {

/// Points of the trail that are kept.
pub const HISTORY_CAPACITY: usize = 512;

/// Note events that the activity list keeps.
pub const ACTIVITY_CAPACITY: usize = 64;

/// How long a struck pad flashes.
pub const FLASH_MS: u64 = 150;

/// How long a test note sounds.
pub const TEST_NOTE_MS: u64 = 500;

/// The most recent of a run of items.
pub struct Recent<T> {
    items: VecDeque<T>,
    capacity: usize,
}

impl<T> View for Recent<T> {
    type V = Seq<T>;

    closed spec fn view(&self) -> Seq<T> {
        self.items@
    }
}

impl<T> Recent<T> {
    /// How many items are kept.
    pub closed spec fn capacity_spec(self) -> nat {
        self.capacity as nat
    }

    /// Nothing yet.
    pub fn new(capacity: usize) -> (r: Recent<T>)
        ensures
            r@ == Seq::<T>::empty(),
            r.capacity_spec() == capacity,
    {
        Recent { items: VecDeque::new(), capacity }
    }

    /// Add an item. The oldest one leaves where the list is full.
    pub fn push(&mut self, item: T)
        requires
            old(self).capacity_spec() > 0,
        ensures
            final(self).capacity_spec() == old(self).capacity_spec(),
            final(self)@ == (if old(self)@.len() == old(self).capacity_spec() {
                old(self)@.skip(1).push(item)
            } else {
                old(self)@.push(item)
            }),
            old(self)@.len() <= old(self).capacity_spec() ==> final(self)@.len() <= final(self).capacity_spec(),
    {
        if self.items.len() == self.capacity {
            let oldest = self.items.pop_front();
        }
        self.items.push_back(item);
        proof {
            if old(self)@.len() == old(self).capacity_spec() {
                assert(self.items@ =~= old(self)@.skip(1).push(item));
            } else {
                assert(self.items@ =~= old(self)@.push(item));
            }
        }
    }

    /// Number of items.
    pub fn len(&self) -> (r: usize)
        ensures
            r == self@.len(),
    {
        self.items.len()
    }

    /// The item at a place, counted from the oldest.
    pub fn get(&self, place: usize) -> (r: &T)
        requires
            place < self@.len(),
        ensures
            *r == self@[place as int],
    {
        &self.items[place]
    }
}

/// The label of a note: its pitch class and its octave, middle C being C4.
pub open spec fn note_text(note: u8) -> Seq<char> {
    PITCH_CLASS_NAMES@[(note % 12) as int]@ + if note < 12 {
        "-1"@
    } else {
        decimal_text((note / 12 - 1) as nat)
    }
}

/// The label of a note.
pub fn note_label(note: u8) -> (r: String)
    ensures
        r@ == note_text(note),
{
    let names = PITCH_CLASS_NAMES;
    let name = names[(note % 12) as usize];
    if note < 12 {
        name.to_owned().concat("-1")
    } else {
        name.to_owned().concat(decimal((note / 12 - 1) as u64).as_str())
    }
}

/// The entry of an event in the activity list. Expression would flood the list
/// and has none.
pub open spec fn activity_text(event: MidiEvent) -> Option<Seq<char>> {
    match event {
        MidiEvent::NoteOn { channel, note, velocity } => Some(
            "▶ "@ + note_text(note) + " ch"@ + decimal_text(channel as nat) + " v"@ + decimal_text(velocity as nat),
        ),
        MidiEvent::NoteOff { channel, note, .. } => Some(
            "■ "@ + note_text(note) + " ch"@ + decimal_text(channel as nat),
        ),
        _ => None,
    }
}

/// The entry of an event in the activity list.
pub fn activity_entry(event: &MidiEvent) -> (r: Option<String>)
    ensures
        match r {
            Some(text) => activity_text(*event) == Some(text@),
            None => activity_text(*event) is None,
        },
{
    match event {
        MidiEvent::NoteOn { channel, note, velocity } => Some(
            "▶ ".to_owned().concat(note_label(*note).as_str()).concat(" ch").concat(
                decimal(*channel as u64).as_str(),
            ).concat(" v").concat(decimal(*velocity as u64).as_str()),
        ),
        MidiEvent::NoteOff { channel, note, .. } => Some(
            "■ ".to_owned().concat(note_label(*note).as_str()).concat(" ch").concat(
                decimal(*channel as u64).as_str(),
            ),
        ),
        _ => None,
    }
}

/// The pad that flashes after `events`: the sounding one, where a note was
/// struck.
pub fn flashing_pad(events: &Vec<MidiEvent>, active_pad: Option<Pad>) -> (r: Option<Pad>)
    ensures
        r == (if exists|i: int| 0 <= i < events@.len() && (#[trigger] events@[i]) is NoteOn {
            active_pad
        } else {
            None
        }),
{
    let mut i: usize = 0;
    while i < events.len()
        invariant
            i <= events@.len(),
            forall|j: int| 0 <= j < i ==> !((#[trigger] events@[j]) is NoteOn),
        decreases events@.len() - i,
    {
        if let MidiEvent::NoteOn { .. } = events[i] {
            assert(events@[i as int] is NoteOn);
            return active_pad;
        }
        i = i + 1;
    }
    None
}

/// The characters of each text.
pub open spec fn texts(list: Seq<String>) -> Seq<Seq<char>> {
    list.map_values(|text: String| text@)
}

/// A list of the most recent items with one more.
pub open spec fn with_recent(list: Seq<Seq<char>>, capacity: nat, text: Seq<char>) -> Seq<Seq<char>> {
    if list.len() == capacity {
        list.skip(1).push(text)
    } else {
        list.push(text)
    }
}

/// The activity list after the first `n` events.
pub open spec fn logged(list: Seq<Seq<char>>, capacity: nat, events: Seq<MidiEvent>, n: nat) -> Seq<
    Seq<char>,
>
    decreases n,
{
    if n == 0 {
        list
    } else {
        let before = logged(list, capacity, events, (n - 1) as nat);
        match activity_text(events[n - 1]) {
            Some(text) => with_recent(before, capacity, text),
            None => before,
        }
    }
}

/// Adds the notes among `events` to the activity list.
pub fn log_events(activity: &mut Recent<String>, events: &Vec<MidiEvent>)
    requires
        old(activity).capacity_spec() > 0,
    ensures
        final(activity).capacity_spec() == old(activity).capacity_spec(),
        texts(final(activity)@) == logged(
            texts(old(activity)@),
            old(activity).capacity_spec(),
            events@,
            events@.len(),
        ),
{
    let mut i: usize = 0;
    let ghost start = texts(activity@);
    let ghost capacity = activity.capacity_spec();
    while i < events.len()
        invariant
            i <= events@.len(),
            activity.capacity_spec() == capacity,
            capacity > 0,
            texts(activity@) == logged(start, capacity, events@, i as nat),
        decreases events@.len() - i,
    {
        let ghost before = activity@;
        if let Some(text) = activity_entry(&events[i]) {
            let ghost chars = text@;
            activity.push(text);
            assert(texts(activity@) =~= with_recent(texts(before), capacity, chars));
        }
        i = i + 1;
    }
}

/// What one reading makes the display do.
pub struct Played {
    /// Events to send, in order.
    pub events: Vec<MidiEvent>,
    /// The pad to flash.
    pub flash: Option<Pad>,
}

/// Plays one reading: the events it gives rise to, the notes among them in
/// the activity list, and the pad that was struck.
pub fn play(
    engine: &mut MpeEngine,
    reading: &PenReading,
    mapping: &MidiMapping,
    activity: &mut Recent<String>,
) -> (r: Played)
    requires
        mapping.mpe.members() <= 255,
        old(activity).capacity_spec() > 0,
    ensures
        final(engine)@ == old(engine)@.after(*reading, *mapping),
        r.events@ == old(engine)@.events(*reading, *mapping),
        final(activity).capacity_spec() == old(activity).capacity_spec(),
        texts(final(activity)@) == logged(
            texts(old(activity)@),
            old(activity).capacity_spec(),
            r.events@,
            r.events@.len(),
        ),
        r.flash == (if exists|i: int| 0 <= i < r.events@.len() && (#[trigger] r.events@[i]) is NoteOn {
            match final(engine)@.voice {
                Some(voice) => Some(voice.pad),
                None => None,
            }
        } else {
            None
        }),
{
    let mut events: Vec<MidiEvent> = Vec::new();
    engine.process(reading, mapping, &mut events);
    proof {
        assert(events@ =~= old(engine)@.events(*reading, *mapping));
    }
    log_events(activity, &events);
    let flash: Option<Pad> = flashing_pad(&events, engine.active_pad());
    Played { events, flash }
}

/// Takes in a message of the stream. A description of the device is kept; a
/// sample is to be played, once a description is there to read it by.
pub fn take_message(latest: &mut Option<DeviceCapabilities>, message: StreamMessage) -> (r: Option<
    PenSample,
>)
    ensures
        match message {
            StreamMessage::Capabilities(caps) => *final(latest) == Some(caps) && r is None,
            StreamMessage::Sample(sample) => *final(latest) == *old(latest) && r == (if *old(
                latest,
            ) is Some {
                Some(sample)
            } else {
                None
            }),
            _ => *final(latest) == *old(latest) && r is None,
        },
{
    match message {
        StreamMessage::Capabilities(caps) => {
            *latest = Some(caps);
            None
        },
        StreamMessage::Sample(sample) => if latest.is_some() {
            Some(sample)
        } else {
            None
        },
        _ => None,
    }
}

/// Where `name` stands among the ports, if it does.
fn port_position(ports: &Vec<String>, name: &str) -> (r: Option<usize>)
    ensures
        r == first_place(ports@, name@),
{
    let mut i: usize = 0;
    while i < ports.len()
        invariant
            i <= ports@.len(),
            forall|j: int| 0 <= j < i ==> (#[trigger] ports@[j])@ != name@,
        decreases ports@.len() - i,
    {
        if same_text(ports[i].as_str(), name) {
            proof {
                lemma_first_place(ports@, name@, i);
            }
            return Some(i);
        }
        i = i + 1;
    }
    None
}

/// Is `i` the first place of `name` among the ports?
pub open spec fn is_first_place(ports: Seq<String>, name: Seq<char>, i: usize) -> bool {
    i < ports.len() && ports[i as int]@ == name && forall|j: int| 0 <= j < i ==> (#[trigger] ports[j])@ != name
}

/// The first place of `name` among the ports.
pub open spec fn first_place(ports: Seq<String>, name: Seq<char>) -> Option<usize> {
    if exists|i: usize| is_first_place(ports, name, i) {
        Some(choose|i: usize| is_first_place(ports, name, i))
    } else {
        None
    }
}

proof fn lemma_first_place(ports: Seq<String>, name: Seq<char>, i: usize)
    requires
        is_first_place(ports, name, i),
    ensures
        first_place(ports, name) == Some(i),
{
    let chosen = choose|k: usize| is_first_place(ports, name, k);
    if chosen < i {
        assert(ports[chosen as int]@ != name);
    } else if i < chosen {
        assert(ports[i as int]@ != name);
    }
}

/// The port to select at the start: the one remembered, or else the first.
pub fn preselect_port(remembered: Option<&str>, ports: &Vec<String>) -> (r: usize)
    ensures
        r == match remembered {
            Some(name) => match first_place(ports@, name@) {
                Some(i) => i,
                None => 0,
            },
            None => 0,
        },
{
    match remembered {
        Some(name) => match port_position(ports, name) {
            Some(i) => i,
            None => 0,
        },
        None => 0,
    }
}

/// The port to select once the ports were listed anew: the one selected before,
/// wherever it stands now; without it the same place, or the first one where
/// that place is gone.
pub fn reselect_port(before: &Vec<String>, selected: usize, ports: &Vec<String>) -> (r: usize)
    ensures
        r == ({
            let stay = if selected < ports@.len() {
                selected
            } else {
                0
            };
            if selected < before@.len() {
                match first_place(ports@, before@[selected as int]@) {
                    Some(i) => i,
                    None => stay,
                }
            } else {
                stay
            }
        }),
{
    if selected < before.len() {
        if let Some(i) = port_position(ports, before[selected].as_str()) {
            return i;
        }
    }
    if selected < ports.len() {
        selected
    } else {
        0
    }
}

/// A port that was selected stays selected for as long as it is listed.
pub proof fn selected_ports_stay_selected(before: Seq<String>, selected: usize, ports: Seq<String>, i: usize)
    requires
        selected < before.len(),
        is_first_place(ports, before[selected as int]@, i),
    ensures
        first_place(ports, before[selected as int]@) == Some(i),
        ports[i as int]@ == before[selected as int]@,
{
    lemma_first_place(ports, before[selected as int]@, i);
}

/// The port to remember at the end: the connected one, or else the selected
/// one.
pub fn port_to_remember(connected: Option<&str>, ports: &Vec<String>, selected: usize) -> (r: Option<String>)
    ensures
        match r {
            Some(name) => match connected {
                Some(label) => name@ == label@,
                None => selected < ports@.len() && name@ == ports@[selected as int]@,
            },
            None => connected is None && selected >= ports@.len(),
        },
{
    match connected {
        Some(label) => Some(label.to_owned()),
        None => if selected < ports.len() {
            Some(ports[selected].clone())
        } else {
            None
        },
    }
}

/// Is the only port one that ignores MPE?
pub fn only_port_ignores_mpe(ports: &Vec<String>) -> (r: bool)
    ensures
        r == (ports@.len() == 1 && occurs_in(ports@[0]@, "Microsoft GS Wavetable Synth"@)),
{
    ports.len() == 1 && contains(ports[0].as_str(), "Microsoft GS Wavetable Synth")
}

/// How the source is shown in the top bar.
pub fn stream_label(spawned: bool, source: &Source) -> (r: String)
    ensures
        r@ == (if spawned {
            "spawned tablet-cli"@
        } else {
            match source@ {
                SourceView::Stdin => "stdin"@,
                SourceView::Tcp(addr) => "tcp: "@ + addr,
                SourceView::Pipe(name) => "pipe: "@ + name,
            }
        }),
{
    if spawned {
        "spawned tablet-cli".to_owned()
    } else {
        source_label(source)
    }
}

/// The word for a connection state.
pub fn status_label(status: ConnectionStatus) -> (r: &'static str)
    ensures
        r@ == match status {
            ConnectionStatus::Connecting => "connecting"@,
            ConnectionStatus::Connected => "connected"@,
            ConnectionStatus::Disconnected => "disconnected"@,
        },
{
    match status {
        ConnectionStatus::Connecting => "connecting",
        ConnectionStatus::Connected => "connected",
        ConnectionStatus::Disconnected => "disconnected",
    }
}

/// The low note after a shift by octaves, within what the slider offers.
pub open spec fn shifted_note(low_note: int, delta: int) -> int {
    let shifted = low_note + delta * 12;
    if shifted < 0 {
        0
    } else if shifted > 96 {
        96
    } else {
        shifted
    }
}

/// Shift the pads of a mapping by octaves.
pub fn octave_shift(m: &mut MidiMapping, delta: i32)
    ensures
        *final(m) == (MidiMapping {
            low_note: shifted_note(old(m).low_note as int, delta as int) as u8,
            ..*old(m)
        }),
{
    let shifted: i64 = m.low_note as i64 + delta as i64 * 12;
    m.low_note = if shifted < 0 {
        0
    } else if shifted > 96 {
        96
    } else {
        shifted as u8
    };
}

/// A shift up and a shift down cancel, as long as neither meets an end.
pub proof fn octave_shifts_cancel(low_note: int, delta: int)
    requires
        0 <= low_note <= 96,
        0 <= low_note + delta * 12 <= 96,
    ensures
        shifted_note(shifted_note(low_note, delta), -delta) == low_note,
{
    assert(delta * 12 + (-delta) * 12 == 0);
}

/// A test note that has not ended yet.
#[derive(Clone, Copy, Debug, PartialEq, Eq, Structural)]
pub struct TestNote {
    pub channel: u8,
    pub note: u8,
    /// When it ends.
    pub deadline: u64,
}

/// The end of a test note.
pub open spec fn test_note_off(pending: Option<TestNote>) -> Seq<MidiEvent> {
    match pending {
        Some(t) => seq![MidiEvent::NoteOff { channel: t.channel, note: t.note, velocity: 0 }],
        None => Seq::empty(),
    }
}

/// Play a loud middle C on the master channel, ending a test note that is still
/// sounding. Returns the events to send.
pub fn send_test_note(pending: &mut Option<TestNote>, master_channel: u8, now: u64) -> (r: Vec<MidiEvent>)
    requires
        now + TEST_NOTE_MS <= u64::MAX,
    ensures
        r@ == test_note_off(*old(pending)).push(
            MidiEvent::NoteOn { channel: master_channel, note: 60, velocity: 100 },
        ),
        *final(pending) == Some(
            TestNote { channel: master_channel, note: 60, deadline: (now + TEST_NOTE_MS) as u64 },
        ),
{
    let mut events = end_test_note(pending);
    events.push(MidiEvent::NoteOn { channel: master_channel, note: 60, velocity: 100 });
    *pending = Some(TestNote { channel: master_channel, note: 60, deadline: now + TEST_NOTE_MS });
    events
}

/// End a test note whose time has come.
pub fn service_test_note(pending: &mut Option<TestNote>, now: u64) -> (r: Vec<MidiEvent>)
    ensures
        match *old(pending) {
            Some(t) => if now >= t.deadline {
                r@ == test_note_off(*old(pending)) && *final(pending) is None
            } else {
                r@ == Seq::<MidiEvent>::empty() && *final(pending) == *old(pending)
            },
            None => r@ == Seq::<MidiEvent>::empty() && *final(pending) is None,
        },
{
    if let Some(t) = *pending {
        if now >= t.deadline {
            return end_test_note(pending);
        }
    }
    Vec::new()
}

/// End a test note now.
pub fn end_test_note(pending: &mut Option<TestNote>) -> (r: Vec<MidiEvent>)
    ensures
        r@ == test_note_off(*old(pending)),
        *final(pending) is None,
{
    let mut events: Vec<MidiEvent> = Vec::new();
    if let Some(t) = *pending {
        events.push(MidiEvent::NoteOff { channel: t.channel, note: t.note, velocity: 0 });
    }
    *pending = None;
    proof {
        assert(events@ =~= test_note_off(*old(pending)));
    }
    events
}

/// Does a triggered action take place? Panic always does; no other does while
/// text is typed, and a test note needs a connected port.
pub fn takes_place(action: Action, typing: bool, connected: bool) -> (r: bool)
    ensures
        r == (action == Action::Panic || (!typing && (action == Action::TestNote ==> connected))),
{
    match action {
        Action::Panic => true,
        Action::TestNote => !typing && connected,
        _ => !typing,
    }
}

/// The tilt controller of a mapping that had none.
pub open spec fn default_tilt_cc() -> TiltCc {
    TiltCc { controller: 1, axis: TiltAxis::X, range_deg: Double { bits: 0x404e_0000_0000_0000 } }
}

/// The place of a scale in the menu.
pub open spec fn scale_place(scale: ScaleKind) -> int {
    match scale {
        ScaleKind::Chromatic => 0,
        ScaleKind::Major => 1,
        ScaleKind::NaturalMinor => 2,
        ScaleKind::MajorPentatonic => 3,
        ScaleKind::MinorPentatonic => 4,
        ScaleKind::Blues => 5,
        ScaleKind::Dorian => 6,
        ScaleKind::Mixolydian => 7,
    }
}

fn place_of_scale(scale: ScaleKind) -> (r: usize)
    ensures
        r == scale_place(scale),
        r < 8,
        ScaleKind::ALL@[r as int] == scale,
{
    match scale {
        ScaleKind::Chromatic => 0,
        ScaleKind::Major => 1,
        ScaleKind::NaturalMinor => 2,
        ScaleKind::MajorPentatonic => 3,
        ScaleKind::MinorPentatonic => 4,
        ScaleKind::Blues => 5,
        ScaleKind::Dorian => 6,
        ScaleKind::Mixolydian => 7,
    }
}

/// The mode after this one in the menu, the first after the last.
pub open spec fn mode_after(mode: NoteMode) -> NoteMode {
    match mode {
        NoteMode::Hold => NoteMode::Glide,
        NoteMode::Glide => NoteMode::Discrete,
        NoteMode::Discrete => NoteMode::Hold,
    }
}

/// A mapping after an action, if the action is one that changes mappings.
pub open spec fn mapping_after(action: Action, m: MidiMapping) -> Option<MidiMapping> {
    match action {
        Action::OctaveUp => Some(MidiMapping { low_note: shifted_note(m.low_note as int, 1) as u8, ..m }),
        Action::OctaveDown => Some(MidiMapping { low_note: shifted_note(m.low_note as int, -1) as u8, ..m }),
        Action::ScaleNext => Some(
            MidiMapping { scale: ScaleKind::ALL@[(scale_place(m.scale) + 1) % 8], ..m },
        ),
        Action::ScalePrev => Some(
            MidiMapping { scale: ScaleKind::ALL@[(scale_place(m.scale) + 7) % 8], ..m },
        ),
        Action::KeyNext => Some(MidiMapping { key: ((m.key + 1) % 12) as u8, ..m }),
        Action::KeyPrev => Some(MidiMapping { key: ((m.key + 11) % 12) as u8, ..m }),
        Action::CycleNoteMode => Some(MidiMapping { mode: mode_after(m.mode), ..m }),
        Action::ToggleXToCc74 => Some(MidiMapping { x_to_cc74: !m.x_to_cc74, ..m }),
        Action::TogglePressure => Some(
            MidiMapping { pressure_to_channel_pressure: !m.pressure_to_channel_pressure, ..m },
        ),
        Action::ToggleTiltCc => Some(
            MidiMapping {
                tilt_cc: match m.tilt_cc {
                    Some(_) => None,
                    None => Some(default_tilt_cc()),
                },
                ..m
            },
        ),
        _ => None,
    }
}

/// Carry out an action on a mapping. Returns whether it is one that changes
/// mappings.
pub fn change_mapping(action: Action, m: &mut MidiMapping) -> (r: bool)
    ensures
        match mapping_after(action, *old(m)) {
            Some(after) => r && *final(m) == after,
            None => !r && *final(m) == *old(m),
        },
{
    let scales = ScaleKind::ALL;
    match action {
        Action::OctaveUp => {
            octave_shift(m, 1);
        },
        Action::OctaveDown => {
            octave_shift(m, -1);
        },
        Action::ScaleNext => {
            m.scale = scales[(place_of_scale(m.scale) + 1) % 8];
        },
        Action::ScalePrev => {
            m.scale = scales[(place_of_scale(m.scale) + 7) % 8];
        },
        Action::KeyNext => {
            m.key = ((m.key as u16 + 1) % 12) as u8;
        },
        Action::KeyPrev => {
            m.key = ((m.key as u16 + 11) % 12) as u8;
        },
        Action::CycleNoteMode => {
            m.mode = match m.mode {
                NoteMode::Hold => NoteMode::Glide,
                NoteMode::Glide => NoteMode::Discrete,
                NoteMode::Discrete => NoteMode::Hold,
            };
        },
        Action::ToggleXToCc74 => {
            m.x_to_cc74 = !m.x_to_cc74;
        },
        Action::TogglePressure => {
            m.pressure_to_channel_pressure = !m.pressure_to_channel_pressure;
        },
        Action::ToggleTiltCc => {
            toggle_tilt_cc(m);
        },
        _ => {
            return false;
        },
    }
    true
}

/// Switch the tilt controller of a mapping on or off.
pub fn toggle_tilt_cc(m: &mut MidiMapping)
    ensures
        *final(m) == (MidiMapping {
            tilt_cc: match old(m).tilt_cc {
                Some(_) => None,
                None => Some(default_tilt_cc()),
            },
            ..*old(m)
        }),
{
    m.tilt_cc = match m.tilt_cc {
        Some(_) => None,
        None => Some(
            TiltCc {
                controller: 1,
                axis: TiltAxis::X,
                range_deg: Double { bits: 0x404e_0000_0000_0000 },
            },
        ),
    };
}

/// Next and previous cancel for scales, and for the keys of a valid mapping.
pub proof fn menu_steps_cancel(m: MidiMapping)
    requires
        m.key < 12,
    ensures
        mapping_after(Action::ScalePrev, mapping_after(Action::ScaleNext, m)->0) == Some(m),
        mapping_after(Action::KeyPrev, mapping_after(Action::KeyNext, m)->0) == Some(m),
        mapping_after(Action::ToggleXToCc74, mapping_after(Action::ToggleXToCc74, m)->0) == Some(m),
        mapping_after(Action::TogglePressure, mapping_after(Action::TogglePressure, m)->0) == Some(m),
{
}

/// No action makes a valid mapping invalid.
pub proof fn actions_keep_mappings_valid(action: Action, m: MidiMapping)
    requires
        m.valid(),
    ensures
        mapping_after(action, m) matches Some(after) ==> after.valid(),
{
}

/// The velocity source after choosing between pressure and a fixed velocity.
/// A source that already is of the chosen kind stays.
pub fn choose_velocity(source: VelocitySource, from_pressure: bool) -> (r: VelocitySource)
    ensures
        r == (match source {
            VelocitySource::Pressure { .. } if !from_pressure => VelocitySource::Fixed(100),
            VelocitySource::Fixed(_) if from_pressure => VelocitySource::Pressure { min: 1, max: 127 },
            kept => kept,
        }),
{
    match source {
        VelocitySource::Pressure { min, max } => {
            if from_pressure {
                VelocitySource::Pressure { min, max }
            } else {
                VelocitySource::Fixed(100)
            }
        },
        VelocitySource::Fixed(v) => {
            if from_pressure {
                VelocitySource::Pressure { min: 1, max: 127 }
            } else {
                VelocitySource::Fixed(v)
            }
        },
    }
}

/// Raise upper bounds that a slider left below their lower bounds.
pub fn repair_mapping(m: &mut MidiMapping)
    ensures
        *final(m) == (MidiMapping {
            mpe: MpeConfig {
                member_high: if old(m).mpe.member_low > old(m).mpe.member_high {
                    old(m).mpe.member_low
                } else {
                    old(m).mpe.member_high
                },
                ..old(m).mpe
            },
            velocity: match old(m).velocity {
                VelocitySource::Pressure { min, max } if min > max => VelocitySource::Pressure { min, max: min },
                kept => kept,
            },
            ..*old(m)
        }),
        final(m).mpe.member_low <= final(m).mpe.member_high,
{
    if m.mpe.member_low > m.mpe.member_high {
        m.mpe.member_high = m.mpe.member_low;
    }
    if let VelocitySource::Pressure { min, max } = m.velocity {
        if min > max {
            m.velocity = VelocitySource::Pressure { min, max: min };
        }
    }
}

/// Lower an off threshold that a slider left above the on threshold.
pub fn repair_activation(activation: &mut ActivationConfig)
    ensures
        *final(activation) == (ActivationConfig {
            off_threshold: if old(activation).on_threshold.less(old(activation).off_threshold) {
                old(activation).on_threshold
            } else {
                old(activation).off_threshold
            },
            ..*old(activation)
        }),
{
    if activation.on_threshold.lt(activation.off_threshold) {
        activation.off_threshold = activation.on_threshold;
    }
}

/// How a pad is drawn.
#[derive(Clone, Copy, Debug, PartialEq, Eq, Structural)]
pub enum PadStyle {
    /// It has no note.
    Dead,
    /// Its note sounds.
    Active,
    /// Its note is the root of the scale.
    Root,
    /// None of these.
    Plain,
}

/// How a pad is drawn.
pub fn pad_style(note: Option<u8>, sounding: bool, root: bool) -> (r: PadStyle)
    ensures
        r == (if note is None {
            PadStyle::Dead
        } else if sounding {
            PadStyle::Active
        } else if root {
            PadStyle::Root
        } else {
            PadStyle::Plain
        }),
{
    if note.is_none() {
        PadStyle::Dead
    } else if sounding {
        PadStyle::Active
    } else if root {
        PadStyle::Root
    } else {
        PadStyle::Plain
    }
}

/// What the outcome of loading or saving is coloured as.
#[derive(Clone, Copy, Debug, PartialEq, Eq, Structural)]
pub enum Outcome {
    Good,
    Bad,
    Neutral,
}

/// The outcome that a status text tells of.
pub fn status_outcome(status: &str) -> (r: Outcome)
    ensures
        r == (if occurs_in(status@, "failed"@) {
            Outcome::Bad
        } else if status@ == "loaded"@ || status@ == "saved"@ {
            Outcome::Good
        } else {
            Outcome::Neutral
        }),
{
    if contains(status, "failed") {
        Outcome::Bad
    } else if same_text(status, "loaded") || same_text(status, "saved") {
        Outcome::Good
    } else {
        Outcome::Neutral
    }
}

/// Does the path field hold a path? If not, the text to show instead.
pub fn path_complaint(path: &str) -> (r: Option<&'static str>)
    ensures
        match r {
            Some(text) => is_blank_text(path@) && text@ == "enter a path first"@,
            None => !is_blank_text(path@),
        },
{
    if is_blank(path) {
        Some("enter a path first")
    } else {
        None
    }
}

} // verus!
