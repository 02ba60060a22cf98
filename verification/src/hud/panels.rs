//! What the panels of the display show.
use vstd::prelude::*;
use vstd::string::StringExecFns;

use crate::double::{lemma_units_order, Double};
use crate::hud::app::{note_label, note_text, pad_style, PadStyle, FLASH_MS};
use crate::midi::engine::MpeEngine;
use crate::midi::event::PITCH_BEND_CENTER;
use crate::midi::mapping::MidiMapping;
use crate::midi::pads::{is_root, note_of, pad_note, sounds, Pad};
use crate::process::profile::{ActivationConfig, CalibrationProfile};
use crate::process::validate::identity_is_valid;
use crate::text::{decimal, decimal_text};

verus! {

/// Milliseconds over which the rate of sent events is shown.
pub const RATE_MS: u64 = 1000;

/// Encodings of the pressures 0.04 and 0.02.
pub const CONTACT_BITS: u64 = 0x3fa4_7ae1_47ae_147b;

pub const RELEASE_BITS: u64 = 0x3f94_7ae1_47ae_147b;

/// Contact by pressure: a pen that merely hovers does not strike.
pub open spec fn contact_activation() -> ActivationConfig {
    ActivationConfig {
        enabled: true,
        on_threshold: Double { bits: CONTACT_BITS },
        off_threshold: Double { bits: RELEASE_BITS },
        ..ActivationConfig::identity_spec()
    }
}

/// The profile where none was loaded: it changes nothing but for contact,
/// which pressure decides.
pub fn playing_profile() -> (r: CalibrationProfile)
    ensures
        r.activation == contact_activation(),
        exists|identity: CalibrationProfile| #[trigger]
            identity.is_identity() && r == (CalibrationProfile {
                activation: contact_activation(),
                ..identity
            }),
        r.valid(),
{
    let mut profile: CalibrationProfile = CalibrationProfile::identity();
    let ghost identity = profile;
    profile.activation.enabled = true;
    profile.activation.on_threshold = Double::from_bits(CONTACT_BITS);
    profile.activation.off_threshold = Double::from_bits(RELEASE_BITS);
    assert(identity.is_identity());
    proof {
        identity_is_valid(identity);
        lemma_units_order(RELEASE_BITS as nat, CONTACT_BITS as nat);
        lemma_units_order(CONTACT_BITS as nat, Double::one_spec().magnitude_spec());
    }
    profile
}

/// The path to show at the start: the one asked for, or else the one
/// remembered.
pub fn prefilled_path(asked: Option<&str>, remembered: Option<&str>) -> (r: String)
    ensures
        r@ == match (asked, remembered) {
            (Some(path), _) => path@,
            (None, Some(path)) => path@,
            (None, None) => Seq::empty(),
        },
{
    match (asked, remembered) {
        (Some(path), _) => path.to_owned(),
        (None, Some(path)) => path.to_owned(),
        (None, None) => String::new(),
    }
}

/// What to do with a mapping file.
#[derive(Clone, Copy, Debug, PartialEq, Eq, Structural)]
pub enum FileTask {
    Load,
    Save,
}

/// The text that tells how a file task went.
pub fn file_status(task: FileTask, error: Option<&str>) -> (r: String)
    ensures
        r@ == match (task, error) {
            (FileTask::Load, None) => "loaded"@,
            (FileTask::Save, None) => "saved"@,
            (FileTask::Load, Some(error)) => "load failed: "@ + error@,
            (FileTask::Save, Some(error)) => "save failed: "@ + error@,
        },
{
    match (task, error) {
        (FileTask::Load, None) => "loaded".to_owned(),
        (FileTask::Save, None) => "saved".to_owned(),
        (FileTask::Load, Some(error)) => "load failed: ".to_owned().concat(error),
        (FileTask::Save, Some(error)) => "save failed: ".to_owned().concat(error),
    }
}

/// Counts sent events, and how many of them the last rate window saw.
#[derive(Clone, Copy, Debug, PartialEq, Eq, Structural)]
pub struct TxMeter {
    pub sent: u64,
    pub sent_at_tick: u64,
    pub tick_ms: u64,
}

/// Events over a span of time.
#[derive(Clone, Copy, Debug, PartialEq, Eq, Structural)]
pub struct TxRate {
    pub events: u64,
    pub window_ms: u64,
}

impl TxMeter {
    /// Nothing sent yet.
    pub fn new(now_ms: u64) -> (r: TxMeter)
        ensures
            r == (TxMeter { sent: 0, sent_at_tick: 0, tick_ms: now_ms }),
    {
        TxMeter { sent: 0, sent_at_tick: 0, tick_ms: now_ms }
    }

    /// Has the counter not run backwards?
    pub open spec fn valid(self) -> bool {
        self.sent_at_tick <= self.sent
    }

    /// Counts sent events; the counter stops at its largest value.
    pub fn count(&mut self, events: u64)
        requires
            old(self).valid(),
        ensures
            final(self).valid(),
            *final(self) == (TxMeter {
                sent: if old(self).sent + events > u64::MAX {
                    u64::MAX
                } else {
                    (old(self).sent + events) as u64
                },
                ..*old(self)
            }),
    {
        self.sent = self.sent.saturating_add(events);
    }

    /// The rate since the last tick, once a window has passed; a new window
    /// then begins.
    pub fn tick(&mut self, now_ms: u64) -> (r: Option<TxRate>)
        requires
            old(self).valid(),
        ensures
            final(self).valid(),
            match r {
                Some(rate) => {
                    &&& now_ms - old(self).tick_ms >= RATE_MS
                    &&& rate == TxRate {
                        events: (old(self).sent - old(self).sent_at_tick) as u64,
                        window_ms: (now_ms - old(self).tick_ms) as u64,
                    }
                    &&& *final(self) == TxMeter {
                        sent: old(self).sent,
                        sent_at_tick: old(self).sent,
                        tick_ms: now_ms,
                    }
                },
                None => now_ms - old(self).tick_ms < RATE_MS && *final(self) == *old(self),
            },
    {
        if now_ms < self.tick_ms || now_ms - self.tick_ms < RATE_MS {
            return None;
        }
        let rate: TxRate = TxRate {
            events: self.sent - self.sent_at_tick,
            window_ms: now_ms - self.tick_ms,
        };
        self.sent_at_tick = self.sent;
        self.tick_ms = now_ms;
        Some(rate)
    }
}

/// A pad that was struck, and when.
#[derive(Clone, Copy, Debug, PartialEq, Eq, Structural)]
pub struct Flash {
    pub pad: Pad,
    pub started_ms: u64,
}

/// Is the flash still seen?
pub open spec fn shines(flash: Option<Flash>, now_ms: u64) -> bool {
    flash matches Some(flash) && now_ms - flash.started_ms < FLASH_MS
}

/// How long ago a flash began that is still seen.
pub fn flash_age(flash: Option<Flash>, now_ms: u64) -> (r: Option<u64>)
    ensures
        match r {
            Some(age) => shines(flash, now_ms) && age < FLASH_MS && age == (if now_ms
                >= (flash->0).started_ms {
                now_ms - (flash->0).started_ms
            } else {
                0
            }),
            None => !shines(flash, now_ms),
        },
{
    match flash {
        Some(flash) => {
            let age: u64 = now_ms.saturating_sub(flash.started_ms);
            if age < FLASH_MS {
                Some(age)
            } else {
                None
            }
        },
        None => None,
    }
}

/// How a pad is drawn.
pub struct PadLook {
    pub style: PadStyle,
    /// Does it glow? The pad whose note sounds does, also where the mapping
    /// has no note for it any more.
    pub glowing: bool,
    /// Does the pen hover over it, ready to strike?
    pub outlined: bool,
    /// Was it just struck?
    pub flashing: bool,
    /// Its note, where there is room to name it.
    pub label: Option<String>,
}

/// How a pad is drawn. A pad without a note is dead and has no label.
pub fn pad_look(
    pad: Pad,
    mapping: &MidiMapping,
    active: Option<Pad>,
    hovered: Option<Pad>,
    flash: Option<Pad>,
    labels: bool,
) -> (r: PadLook)
    ensures
        r.style == (if note_of(pad, *mapping) is None {
            PadStyle::Dead
        } else if active == Some(pad) {
            PadStyle::Active
        } else if (exists|note: int| #[trigger]
            sounds(pad, *mapping, note) && (note - mapping.key) % 12 == 0) {
            PadStyle::Root
        } else {
            PadStyle::Plain
        }),
        r.glowing == (active == Some(pad)),
        r.outlined == (active != Some(pad) && hovered == Some(pad) && note_of(
            pad,
            *mapping,
        ) is Some),
        r.flashing == (flash == Some(pad)),
        match r.label {
            Some(label) => labels && note_of(pad, *mapping) is Some && label@ == note_text(
                note_of(pad, *mapping)->0,
            ),
            None => !labels || note_of(pad, *mapping) is None,
        },
{
    let note: Option<u8> = pad_note(pad, mapping);
    let sounding: bool = is_pad(active, pad);
    PadLook {
        style: pad_style(note, sounding, is_root(pad, mapping)),
        glowing: sounding,
        outlined: !sounding && is_pad(hovered, pad) && note.is_some(),
        flashing: is_pad(flash, pad),
        label: match note {
            Some(note) => if labels {
                Some(note_label(note))
            } else {
                None
            },
            None => None,
        },
    }
}

fn is_pad(candidate: Option<Pad>, pad: Pad) -> (r: bool)
    ensures
        r == (candidate == Some(pad)),
{
    match candidate {
        Some(candidate) => candidate == pad,
        None => false,
    }
}

/// What a meter shows.
#[derive(Clone, Copy, Debug, PartialEq, Eq, Structural)]
pub enum MeterValue {
    /// A pitch bend, around its centre.
    Bend(u16),
    /// A controller value, from the left.
    Level(u8),
}

/// A meter with its caption.
#[derive(Clone, Debug)]
pub struct Meter {
    pub caption: String,
    pub value: MeterValue,
}

/// A meter by its characters.
pub struct MeterView {
    pub caption: Seq<char>,
    pub value: MeterValue,
}

impl View for Meter {
    type V = MeterView;

    open spec fn view(&self) -> MeterView {
        MeterView { caption: self.caption@, value: self.value }
    }
}

/// The level of a value that went out last; zero before that.
pub open spec fn level_of(sent: Option<u8>) -> MeterValue {
    MeterValue::Level(
        match sent {
            Some(value) => value,
            None => 0,
        },
    )
}

/// The meters of a performance: the bend, and each axis that is mapped.
pub open spec fn meters_of(
    bend: Option<u16>,
    pressure: Option<u8>,
    timbre: Option<u8>,
    tilt: Option<u8>,
    m: MidiMapping,
) -> Seq<MeterView> {
    seq![
        MeterView {
            caption: "bend"@,
            value: MeterValue::Bend(
                match bend {
                    Some(bend) => bend,
                    None => PITCH_BEND_CENTER,
                },
            ),
        },
    ] + (if m.pressure_to_channel_pressure {
        seq![MeterView { caption: "pressure"@, value: level_of(pressure) }]
    } else {
        Seq::empty()
    }) + (if m.x_to_cc74 {
        seq![MeterView { caption: "CC74"@, value: level_of(timbre) }]
    } else {
        Seq::empty()
    }) + (match m.tilt_cc {
        Some(cc) => seq![
            MeterView {
                caption: "tilt CC"@ + decimal_text(cc.controller as nat),
                value: level_of(tilt),
            },
        ],
        None => Seq::empty(),
    })
}

/// Meters by their characters.
pub open spec fn meters_view(meters: Seq<Meter>) -> Seq<MeterView> {
    meters.map_values(|meter: Meter| meter@)
}

fn level(sent: Option<u8>) -> (r: MeterValue)
    ensures
        r == level_of(sent),
{
    match sent {
        Some(value) => MeterValue::Level(value),
        None => MeterValue::Level(0),
    }
}

fn add_meter(meters: &mut Vec<Meter>, caption: String, value: MeterValue)
    ensures
        meters_view(final(meters)@) == meters_view(old(meters)@).push(
            MeterView { caption: caption@, value },
        ),
{
    meters.push(Meter { caption, value });
    assert(meters_view(meters@) =~= meters_view(old(meters)@).push(
        MeterView { caption: caption@, value },
    ));
}

/// The meters of a performance.
pub fn meters(engine: &MpeEngine, m: &MidiMapping) -> (r: Vec<Meter>)
    ensures
        meters_view(r@) == meters_of(
            engine@.last_bend,
            engine@.last_pressure,
            engine@.last_cc74,
            engine@.last_tilt_cc,
            *m,
        ),
{
    let mut meters: Vec<Meter> = Vec::new();
    let bend: u16 = match engine.last_bend() {
        Some(bend) => bend,
        None => PITCH_BEND_CENTER,
    };
    add_meter(&mut meters, "bend".to_owned(), MeterValue::Bend(bend));
    if m.pressure_to_channel_pressure {
        add_meter(&mut meters, "pressure".to_owned(), level(engine.last_pressure()));
    }
    if m.x_to_cc74 {
        add_meter(&mut meters, "CC74".to_owned(), level(engine.last_cc74()));
    }
    if let Some(cc) = m.tilt_cc {
        add_meter(
            &mut meters,
            "tilt CC".to_owned().concat(decimal(cc.controller as u64).as_str()),
            level(engine.last_tilt_cc()),
        );
    }
    assert(meters_view(meters@) =~= meters_of(
        engine@.last_bend,
        engine@.last_pressure,
        engine@.last_cc74,
        engine@.last_tilt_cc,
        *m,
    ));
    meters
}

/// The sounding note with its channel, or a dash.
pub fn note_badge(engine: &MpeEngine) -> (r: String)
    ensures
        r@ == match engine@.voice {
            Some(voice) => note_text(voice.note) + " ch"@ + decimal_text(voice.channel as nat),
            None => "—"@,
        },
{
    match (engine.active_note(), engine.active_channel()) {
        (Some(note), Some(channel)) => note_label(note).concat(" ch").concat(
            decimal(channel as u64).as_str(),
        ),
        _ => "—".to_owned(),
    }
}

} // verus!
