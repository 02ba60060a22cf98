//! The configuration that turns stylus input into MPE events.
use vstd::prelude::*;
use vstd::string::StringExecFns;

use crate::double::Double;
use crate::midi::scale::ScaleKind;
use crate::midi::vibrato::VibratoConfig;
use crate::text::{decimal, decimal_text, Reason, ReasonPartView};

verus! {

/// MPE channel layout and pitch-bend range. Channels are counted from 0.
#[derive(Clone, Copy, Debug, PartialEq, Eq, Structural)]
pub struct MpeConfig {
    /// Channel of the whole zone.
    pub master_channel: u8,
    /// First channel that notes go out on.
    pub member_low: u8,
    /// Last channel that notes go out on.
    pub member_high: u8,
    /// Pitch-bend range of a note in semitones.
    pub pitch_bend_range_semitones: Double,
}

impl Default for MpeConfig {
    /// The lower zone: master on channel 0, members on 1 to 15, a range of
    /// 48 semitones.
    fn default() -> (r: MpeConfig)
        ensures
            r == (MpeConfig {
                master_channel: 0,
                member_low: 1,
                member_high: 15,
                pitch_bend_range_semitones: Double { bits: 0x4048_0000_0000_0000 },
            }),
    {
        MpeConfig {
            master_channel: 0,
            member_low: 1,
            member_high: 15,
            pitch_bend_range_semitones: Double { bits: 0x4048_0000_0000_0000 },
        }
    }
}

impl MpeConfig {
    /// Number of channels from `member_low` up to `member_high`; 1 where the
    /// bounds are out of order.
    pub open spec fn members(self) -> int {
        if self.member_low <= self.member_high {
            self.member_high - self.member_low + 1
        } else {
            1
        }
    }

    /// Number of member channels.
    pub fn member_count(&self) -> (r: u8)
        requires
            self.members() <= 255,
        ensures
            r == self.members(),
    {
        self.member_high.saturating_sub(self.member_low) + 1
    }

    /// The channels of the zone: those next to the master, as far as the
    /// members reach. A master below the members has them above itself, any
    /// other master has them below.
    pub open spec fn zone(self) -> Seq<u8> {
        if self.master_channel < self.member_high {
            Seq::new(
                (self.member_high - self.master_channel) as nat,
                |i: int| (self.master_channel + 1 + i) as u8,
            )
        } else if self.member_low < self.master_channel {
            Seq::new(
                (self.master_channel - self.member_low) as nat,
                |i: int| (self.member_low + i) as u8,
            )
        } else {
            Seq::empty()
        }
    }

    /// The channels of the zone, ascending.
    pub fn zone_member_range(&self) -> (r: Vec<u8>)
        ensures
            r@ == self.zone(),
    {
        let mut channels: Vec<u8> = Vec::new();
        let (start, end): (u8, u8) = if self.master_channel < self.member_high {
            (self.master_channel, self.member_high)
        } else if self.member_low < self.master_channel {
            (self.member_low, self.master_channel)
        } else {
            (0, 0)
        };
        let shift: u8 = if self.master_channel < self.member_high {
            1
        } else {
            0
        };
        let mut i: u8 = 0;
        while i < end - start
            invariant
                start <= end,
                i <= end - start,
                shift <= 1,
                shift == 1 ==> start < end,
                start + shift + (end - start) <= 256,
                channels@.len() == i,
                forall|j: int| 0 <= j < i ==> channels@[j] == (start + shift + j) as u8,
            decreases end - start - i,
        {
            channels.push(start + shift + i);
            i = i + 1;
        }
        proof {
            assert(channels@ =~= self.zone());
        }
        channels
    }

    /// Number of channels in the zone.
    pub fn zone_member_count(&self) -> (r: u8)
        ensures
            r == self.zone().len(),
    {
        if self.master_channel < self.member_high {
            self.member_high - self.master_channel
        } else if self.member_low < self.master_channel {
            self.master_channel - self.member_low
        } else {
            0
        }
    }
}

/// The pad grid of the playing surface. Row 0 is the bottom row; each row lies
/// `row_interval_degrees` scale degrees above the one below it.
#[derive(Clone, Copy, Debug, PartialEq, Eq, Structural)]
pub struct GridConfig {
    pub rows: u8,
    pub cols: u8,
    pub row_interval_degrees: u8,
}

impl Default for GridConfig {
    /// Eight rows and columns, rows three degrees apart.
    fn default() -> (r: GridConfig)
        ensures
            r == (GridConfig { rows: 8, cols: 8, row_interval_degrees: 3 }),
    {
        GridConfig { rows: 8, cols: 8, row_interval_degrees: 3 }
    }
}

/// How the velocity of a struck note is chosen.
#[derive(Clone, Copy, Debug, PartialEq, Eq, Structural)]
pub enum VelocitySource {
    /// The same velocity for every note.
    Fixed(u8),
    /// The pressure at the strike, mapped onto `min..=max`.
    Pressure { min: u8, max: u8 },
}

impl Default for VelocitySource {
    /// Pressure, from a floor that stays audible at a light touch.
    fn default() -> (r: VelocitySource)
        ensures
            r == (VelocitySource::Pressure { min: 40, max: 127 }),
    {
        VelocitySource::Pressure { min: 40, max: 127 }
    }
}

/// What sliding onto another pad does while a note is held.
#[derive(Clone, Copy, Debug, PartialEq, Eq, Structural)]
pub enum NoteMode {
    /// The struck pad stays held; sliding only moves the expression.
    Hold,
    /// The note bends toward the pad under the pen, and is struck anew only
    /// where the bend would leave the bend range.
    Glide,
    /// Each pad is a key: entering one strikes it.
    Discrete,
}

impl Default for NoteMode {
    fn default() -> (r: NoteMode)
        ensures
            r == NoteMode::Hold,
    {
        NoteMode::Hold
    }
}

impl NoteMode {
    /// All modes, in menu order.
    pub const ALL: [NoteMode; 3] = [NoteMode::Hold, NoteMode::Glide, NoteMode::Discrete];

    /// Label for menus.
    pub fn label(self) -> (r: &'static str)
        ensures
            r@ == match self {
                NoteMode::Hold => "Latch (drag modulates, note stays)"@,
                NoteMode::Glide => "Glide (bend between pads)"@,
                NoteMode::Discrete => "Pads (retrigger per pad)"@,
            },
    {
        match self {
            NoteMode::Hold => "Latch (drag modulates, note stays)",
            NoteMode::Glide => "Glide (bend between pads)",
            NoteMode::Discrete => "Pads (retrigger per pad)",
        }
    }
}

/// Which tilt component drives the extra controller.
#[derive(Clone, Copy, Debug, PartialEq, Eq, Structural)]
pub enum TiltAxis {
    X,
    Y,
}

/// Pen tilt mapped onto a controller.
#[derive(Clone, Copy, Debug, PartialEq, Eq, Structural)]
pub struct TiltCc {
    /// Controller number.
    pub controller: u8,
    /// The axis that drives it.
    pub axis: TiltAxis,
    /// Tilt in degrees that gives the largest controller value.
    pub range_deg: Double,
}

/// The complete stylus-to-MPE mapping.
#[derive(Clone, Debug)]
pub struct MidiMapping {
    /// Name to show.
    pub name: String,
    /// Scale of the pads.
    pub scale: ScaleKind,
    /// Root pitch class, 0 for C up to 11 for B.
    pub key: u8,
    /// Note of the bottom-left pad.
    pub low_note: u8,
    /// Layout of the pads.
    pub grid: GridConfig,
    /// Semitones of bend for a drag over the full height; 0 turns it off.
    pub y_bend_semitones: Double,
    /// What sliding onto another pad does.
    pub mode: NoteMode,
    /// Channels and bend range.
    pub mpe: MpeConfig,
    /// Source of the velocity.
    pub velocity: VelocitySource,
    /// Drive the timbre controller from horizontal movement.
    pub x_to_cc74: bool,
    /// Send pen pressure as channel pressure.
    pub pressure_to_channel_pressure: bool,
    /// Extra controller driven by tilt.
    pub tilt_cc: Option<TiltCc>,
    /// Tuning of the vibrato.
    pub vibrato: VibratoConfig,
}

/// The drag bend of a mapping that names none: 12 semitones.
pub fn default_y_bend_semitones() -> (r: Double)
    ensures
        r == (Double { bits: 0x4028_0000_0000_0000 }),
{
    Double { bits: 0x4028_0000_0000_0000 }
}

/// The value of a switch that a mapping does not name.
pub fn default_true() -> (r: bool)
    ensures
        r,
{
    true
}

impl Default for MidiMapping {
    fn default() -> (r: MidiMapping)
        ensures
            r.name@ == "default"@,
            r.scale == ScaleKind::MajorPentatonic,
            r.key == 0,
            r.low_note == 48,
            r.grid == (GridConfig { rows: 8, cols: 8, row_interval_degrees: 3 }),
            r.y_bend_semitones == (Double { bits: 0x4028_0000_0000_0000 }),
            r.mode == NoteMode::Hold,
            r.mpe == (MpeConfig {
                master_channel: 0,
                member_low: 1,
                member_high: 15,
                pitch_bend_range_semitones: Double { bits: 0x4048_0000_0000_0000 },
            }),
            r.velocity == (VelocitySource::Pressure { min: 40, max: 127 }),
            r.x_to_cc74,
            r.pressure_to_channel_pressure,
            r.tilt_cc == Some(
                TiltCc {
                    controller: 1,
                    axis: TiltAxis::X,
                    range_deg: Double { bits: 0x404e_0000_0000_0000 },
                },
            ),
            r.vibrato == VibratoConfig::preset(),
            r.valid(),
    {
        proof {
            crate::double::lemma_units_order(0, 0x4048_0000_0000_0000);
        }
        MidiMapping {
            name: "default".to_owned(),
            scale: ScaleKind::MajorPentatonic,
            key: 0,
            low_note: 48,
            grid: GridConfig::default(),
            y_bend_semitones: default_y_bend_semitones(),
            mode: NoteMode::Hold,
            mpe: MpeConfig::default(),
            velocity: VelocitySource::default(),
            x_to_cc74: default_true(),
            pressure_to_channel_pressure: true,
            tilt_cc: Some(
                TiltCc {
                    controller: 1,
                    axis: TiltAxis::X,
                    range_deg: Double { bits: 0x404e_0000_0000_0000 },
                },
            ),
            vibrato: VibratoConfig::default(),
        }
    }
}

/// Why a mapping could not be loaded, saved or used.
#[derive(Clone, Debug)]
pub enum MappingError {
    /// The file could not be read or written.
    Io { path: String, message: String },
    /// The file is no TOML mapping.
    TomlParse { path: String, message: String },
    /// The file is no JSON mapping.
    JsonParse { path: String, message: String },
    /// A field holds a value that makes no sense.
    Validation { field: &'static str, reason: Reason },
}

/// A message of text alone.
pub open spec fn plain(text: Seq<char>) -> Seq<ReasonPartView> {
    seq![ReasonPartView::Text(text)]
}

impl MappingError {
    /// What the error tells the user.
    pub open spec fn report_spec(self) -> Seq<ReasonPartView> {
        match self {
            MappingError::Io { path, message } => plain(
                "I/O error for '"@ + path@ + "': "@ + message@,
            ),
            MappingError::TomlParse { path, message } => plain(
                "TOML parse error in '"@ + path@ + "': "@ + message@,
            ),
            MappingError::JsonParse { path, message } => plain(
                "JSON parse error in '"@ + path@ + "': "@ + message@,
            ),
            MappingError::Validation { field, reason } => plain(
                "Invalid mapping field '"@ + field@ + "': "@,
            ) + reason@,
        }
    }

    /// The message for the user.
    pub fn report(&self) -> (r: Reason)
        ensures
            r@ == self.report_spec(),
    {
        match self {
            MappingError::Io { path, message } => {
                Reason::text(("I/O error for '".to_owned().concat(path).concat("': ").concat(message)).as_str())
            },
            MappingError::TomlParse { path, message } => {
                Reason::text(("TOML parse error in '".to_owned().concat(path).concat("': ").concat(message)).as_str())
            },
            MappingError::JsonParse { path, message } => {
                Reason::text(("JSON parse error in '".to_owned().concat(path).concat("': ").concat(message)).as_str())
            },
            MappingError::Validation { field, reason } => {
                Reason::text(("Invalid mapping field '".to_owned().concat(field).concat("': ")).as_str()).and(reason)
            },
        }
    }
}

/// A refused field and the message about it.
pub type Fault = (Seq<char>, Seq<ReasonPartView>);

impl MidiMapping {
    /// Does every field hold a usable value?
    pub open spec fn valid(self) -> bool {
        &&& self.key <= 11
        &&& self.grid.rows > 0
        &&& self.grid.cols > 0
        &&& self.grid.row_interval_degrees > 0
        &&& self.low_note <= 127
        &&& !self.y_bend_semitones.nan()
        &&& self.y_bend_semitones.rank() >= 0
        &&& self.mpe.master_channel <= 15
        &&& self.mpe.member_low <= self.mpe.member_high <= 15
        &&& Double::zero_spec().less(self.mpe.pitch_bend_range_semitones)
        &&& (self.velocity matches VelocitySource::Pressure { min, max } ==> min <= max)
    }

    /// The first refused field, in the order in which fields are looked at.
    pub open spec fn first_fault(self) -> Option<Fault> {
        if self.key > 11 {
            Some(
                (
                    "key"@,
                    plain("key (pitch class) must be 0..=11, got "@ + decimal_text(self.key as nat)),
                ),
            )
        } else if self.grid.rows == 0 || self.grid.cols == 0 {
            Some(
                (
                    "grid.rows / grid.cols"@,
                    plain(
                        "grid must have at least one row and column, got "@ + decimal_text(self.grid.rows as nat)
                            + "x"@ + decimal_text(self.grid.cols as nat),
                    ),
                ),
            )
        } else if self.grid.row_interval_degrees == 0 {
            Some(("grid.row_interval_degrees"@, plain("row interval must be >= 1 scale degree"@)))
        } else if self.low_note > 127 {
            Some(("low_note"@, plain("low_note must be <= 127, got "@ + decimal_text(self.low_note as nat))))
        } else if self.y_bend_semitones.nan() || self.y_bend_semitones.rank() < 0 {
            Some(
                (
                    "y_bend_semitones"@,
                    seq![
                        ReasonPartView::Text("drag bend must be >= 0 semitones, got "@),
                        ReasonPartView::Number(self.y_bend_semitones),
                    ],
                ),
            )
        } else if self.mpe.master_channel > 15 || self.mpe.member_low > 15 || self.mpe.member_high > 15 {
            Some(("mpe channels"@, plain("all channels must be 0..=15"@)))
        } else if self.mpe.member_low > self.mpe.member_high {
            Some(
                (
                    "mpe.member_low / member_high"@,
                    plain(
                        "member_low ("@ + decimal_text(self.mpe.member_low as nat) + ") must be <= member_high ("@
                            + decimal_text(self.mpe.member_high as nat) + ")"@,
                    ),
                ),
            )
        } else if !Double::zero_spec().less(self.mpe.pitch_bend_range_semitones) {
            Some(
                (
                    "mpe.pitch_bend_range_semitones"@,
                    seq![
                        ReasonPartView::Text("pitch-bend range must be > 0, got "@),
                        ReasonPartView::Number(self.mpe.pitch_bend_range_semitones),
                    ],
                ),
            )
        } else {
            match self.velocity {
                VelocitySource::Pressure { min, max } if min > max => Some(
                    (
                        "velocity (Pressure)"@,
                        plain(
                            "velocity min ("@ + decimal_text(min as nat) + ") must be <= max ("@ + decimal_text(
                                max as nat,
                            ) + ")"@,
                        ),
                    ),
                ),
                _ => None,
            }
        }
    }

    /// Bring the tuning of the vibrato into its ranges, and check channel
    /// layout, note range and value ranges.
    pub fn validate(&mut self) -> (r: Result<(), MappingError>)
        ensures
            *final(self) == (MidiMapping { vibrato: old(self).vibrato.clamped(), ..*old(self) }),
            final(self).valid() == old(self).valid(),
            r is Ok <==> old(self).valid(),
            match r {
                Ok(_) => old(self).first_fault() is None,
                Err(MappingError::Validation { field, reason }) => old(self).first_fault() == Some((field@, reason@)),
                Err(_) => false,
            },
    {
        self.vibrato.clamp();
        if self.key > 11 {
            return Err(
                MappingError::Validation {
                    field: "key",
                    reason: Reason::text(
                        "key (pitch class) must be 0..=11, got ".to_owned().concat(
                            decimal(self.key as u64).as_str(),
                        ).as_str(),
                    ),
                },
            );
        }
        if self.grid.rows == 0 || self.grid.cols == 0 {
            return Err(
                MappingError::Validation {
                    field: "grid.rows / grid.cols",
                    reason: Reason::text(
                        "grid must have at least one row and column, got ".to_owned().concat(
                            decimal(self.grid.rows as u64).as_str(),
                        ).concat("x").concat(decimal(self.grid.cols as u64).as_str()).as_str(),
                    ),
                },
            );
        }
        if self.grid.row_interval_degrees == 0 {
            return Err(
                MappingError::Validation {
                    field: "grid.row_interval_degrees",
                    reason: Reason::text("row interval must be >= 1 scale degree"),
                },
            );
        }
        if self.low_note > 127 {
            return Err(
                MappingError::Validation {
                    field: "low_note",
                    reason: Reason::text(
                        "low_note must be <= 127, got ".to_owned().concat(
                            decimal(self.low_note as u64).as_str(),
                        ).as_str(),
                    ),
                },
            );
        }
        if self.y_bend_semitones.is_nan() || self.y_bend_semitones.lt(Double::zero()) {
            return Err(
                MappingError::Validation {
                    field: "y_bend_semitones",
                    reason: Reason::quoting("drag bend must be >= 0 semitones, got ", self.y_bend_semitones),
                },
            );
        }
        let m = &self.mpe;
        if m.master_channel > 15 || m.member_low > 15 || m.member_high > 15 {
            return Err(
                MappingError::Validation {
                    field: "mpe channels",
                    reason: Reason::text("all channels must be 0..=15"),
                },
            );
        }
        if m.member_low > m.member_high {
            return Err(
                MappingError::Validation {
                    field: "mpe.member_low / member_high",
                    reason: Reason::text(
                        "member_low (".to_owned().concat(decimal(m.member_low as u64).as_str()).concat(
                            ") must be <= member_high (",
                        ).concat(decimal(m.member_high as u64).as_str()).concat(")").as_str(),
                    ),
                },
            );
        }
        if !Double::zero().lt(m.pitch_bend_range_semitones) {
            return Err(
                MappingError::Validation {
                    field: "mpe.pitch_bend_range_semitones",
                    reason: Reason::quoting("pitch-bend range must be > 0, got ", m.pitch_bend_range_semitones),
                },
            );
        }
        if let VelocitySource::Pressure { min, max } = self.velocity {
            if min > max {
                return Err(
                    MappingError::Validation {
                        field: "velocity (Pressure)",
                        reason: Reason::text(
                            "velocity min (".to_owned().concat(decimal(min as u64).as_str()).concat(
                                ") must be <= max (",
                            ).concat(decimal(max as u64).as_str()).concat(")").as_str(),
                        ),
                    },
                );
            }
        }
        Ok(())
    }
}

/// A report quotes the file and what went wrong, or the field and the reason.
pub proof fn reports_quote_the_fault(error: MappingError, r: Reason)
    requires
        call_ensures(MappingError::report, (&error,), r),
    ensures
        error matches MappingError::Io { path, message } ==> r@ == seq![
            ReasonPartView::Text("I/O error for '"@ + path@ + "': "@ + message@),
        ],
        error matches MappingError::TomlParse { path, message } ==> r@ == seq![
            ReasonPartView::Text("TOML parse error in '"@ + path@ + "': "@ + message@),
        ],
        error matches MappingError::JsonParse { path, message } ==> r@ == seq![
            ReasonPartView::Text("JSON parse error in '"@ + path@ + "': "@ + message@),
        ],
        error matches MappingError::Validation { field, reason } ==> r@ == seq![
            ReasonPartView::Text("Invalid mapping field '"@ + field@ + "': "@),
        ] + reason@,
{
}

/// A mapping starts on the major pentatonic scale of C, with eight rows of eight
/// pads from the C below middle C, on the lower zone of MPE.
pub proof fn mappings_start_playable(r: MidiMapping)
    requires
        call_ensures(<MidiMapping as Default>::default, (), r),
    ensures
        r.scale is MajorPentatonic,
        r.key == 0 && r.low_note == 48,
        r.grid.rows == 8 && r.grid.cols == 8 && r.grid.row_interval_degrees == 3,
        r.mpe.master_channel == 0 && r.mpe.member_low == 1 && r.mpe.member_high == 15,
        r.mpe.pitch_bend_range_semitones == (Double { bits: 0x4048_0000_0000_0000 }),
        r.y_bend_semitones == (Double { bits: 0x4028_0000_0000_0000 }),
        r.mode is Hold,
        r.velocity == (VelocitySource::Pressure { min: 40, max: 127 }),
        r.x_to_cc74 && r.pressure_to_channel_pressure,
        r.valid(),
{
}

} // verus!
