//! What a performance looks like: where each visible axis comes from, and
//! the colours that show it.
use vstd::prelude::*;

use crate::double::Double;
use crate::midi::engine::MpeEngine;
use crate::midi::event::PITCH_BEND_CENTER;
use crate::midi::mapping::MidiMapping;

verus! {

/// A colour.
#[derive(Clone, Copy, Debug, PartialEq, Eq, Structural)]
pub struct Rgb {
    pub r: u8,
    pub g: u8,
    pub b: u8,
}

/// The levels that the channels of a saturated colour take: the full one,
/// the one that rises through the sector, the lowest, and the one that falls.
#[derive(Clone, Copy, Debug, PartialEq, Eq, Structural)]
pub struct HsvLevels {
    pub full: u8,
    pub rising: u8,
    pub low: u8,
    pub falling: u8,
}

impl Rgb {
    /// A colour without hue.
    pub fn grey(level: u8) -> (r: Rgb)
        ensures
            r == (Rgb { r: level, g: level, b: level }),
    {
        Rgb { r: level, g: level, b: level }
    }

    /// The colour in a sector of the hue circle. There are six, from red on
    /// by 60 degrees each.
    pub open spec fn sector_spec(sector: i32, levels: HsvLevels) -> Rgb {
        if sector == 0 {
            Rgb { r: levels.full, g: levels.rising, b: levels.low }
        } else if sector == 1 {
            Rgb { r: levels.falling, g: levels.full, b: levels.low }
        } else if sector == 2 {
            Rgb { r: levels.low, g: levels.full, b: levels.rising }
        } else if sector == 3 {
            Rgb { r: levels.low, g: levels.falling, b: levels.full }
        } else if sector == 4 {
            Rgb { r: levels.rising, g: levels.low, b: levels.full }
        } else {
            Rgb { r: levels.full, g: levels.low, b: levels.falling }
        }
    }

    /// The colour in a sector of the hue circle.
    pub fn in_sector(sector: i32, levels: &HsvLevels) -> (r: Rgb)
        ensures
            r == Rgb::sector_spec(sector, *levels),
    {
        match sector {
            0 => Rgb { r: levels.full, g: levels.rising, b: levels.low },
            1 => Rgb { r: levels.falling, g: levels.full, b: levels.low },
            2 => Rgb { r: levels.low, g: levels.full, b: levels.rising },
            3 => Rgb { r: levels.low, g: levels.falling, b: levels.full },
            4 => Rgb { r: levels.rising, g: levels.low, b: levels.full },
            _ => Rgb { r: levels.full, g: levels.low, b: levels.falling },
        }
    }
}

/// Colours do not jump from one sector to the next: where the rising level
/// has become full and the falling one low, the next sector begins with the
/// rising level low and the falling one full.
pub proof fn sectors_join(sector: i32, full: u8, low: u8)
    requires
        0 <= sector < 6,
    ensures
        Rgb::sector_spec(sector, HsvLevels { full, rising: full, low, falling: low })
            == Rgb::sector_spec(
            ((sector + 1) % 6) as i32,
            HsvLevels { full, rising: low, low, falling: full },
        ),
{
}

/// What one visible axis shows.
#[derive(Clone, Copy, Debug, PartialEq, Eq, Structural)]
pub enum AxisSource {
    /// The place of the pen.
    Pen,
    /// The value that went out last.
    Sent(u8),
    /// Nothing went out yet.
    Resting,
}

/// Where the visible axes of a sounding note come from.
#[derive(Clone, Copy, Debug, PartialEq, Eq, Structural)]
pub struct ExpressionSources {
    /// Where the note was struck.
    pub strike_x: Double,
    pub strike_y: Double,
    pub timbre: AxisSource,
    pub pressure: AxisSource,
    pub tilt: Option<u8>,
}

/// The values that went out last for a sounding note.
#[derive(Clone, Copy, Debug, PartialEq, Eq, Structural)]
pub struct SentExpression {
    pub bend: u16,
    pub timbre: Option<u8>,
    pub pressure: Option<u8>,
    pub tilt: Option<u8>,
}

/// The pen if the axis follows it, else what went out last.
pub open spec fn source_of(follows: bool, sent: Option<u8>) -> AxisSource {
    if follows {
        AxisSource::Pen
    } else {
        match sent {
            Some(value) => AxisSource::Sent(value),
            None => AxisSource::Resting,
        }
    }
}

fn axis_source(follows: bool, sent: Option<u8>) -> (r: AxisSource)
    ensures
        r == source_of(follows, sent),
{
    if follows {
        AxisSource::Pen
    } else {
        match sent {
            Some(value) => AxisSource::Sent(value),
            None => AxisSource::Resting,
        }
    }
}

impl ExpressionSources {
    /// Where the visible axes come from while a note sounds. Pitch always
    /// follows the pen, which moves further than the bend it causes.
    pub fn from_performance(engine: &MpeEngine, mapping: &MidiMapping) -> (r: Option<
        ExpressionSources,
    >)
        ensures
            r == match engine@.voice {
                Some(voice) => Some(
                    ExpressionSources {
                        strike_x: voice.strike_x,
                        strike_y: voice.strike_y,
                        timbre: source_of(mapping.x_to_cc74, engine@.last_cc74),
                        pressure: source_of(
                            mapping.pressure_to_channel_pressure,
                            engine@.last_pressure,
                        ),
                        tilt: engine@.last_tilt_cc,
                    },
                ),
                None => None,
            },
    {
        match engine.strike_origin() {
            Some((strike_x, strike_y)) => Some(
                ExpressionSources {
                    strike_x,
                    strike_y,
                    timbre: axis_source(mapping.x_to_cc74, engine.last_cc74()),
                    pressure: axis_source(
                        mapping.pressure_to_channel_pressure,
                        engine.last_pressure(),
                    ),
                    tilt: engine.last_tilt_cc(),
                },
            ),
            None => None,
        }
    }
}

impl SentExpression {
    /// The values that went out last while a note sounds; an unsent bend is
    /// none.
    pub fn from_engine(engine: &MpeEngine) -> (r: Option<SentExpression>)
        ensures
            r == match engine@.voice {
                Some(_) => Some(
                    SentExpression {
                        bend: match engine@.last_bend {
                            Some(bend) => bend,
                            None => PITCH_BEND_CENTER,
                        },
                        timbre: engine@.last_cc74,
                        pressure: engine@.last_pressure,
                        tilt: engine@.last_tilt_cc,
                    },
                ),
                None => None,
            },
    {
        match engine.active_note() {
            Some(_) => Some(
                SentExpression {
                    bend: match engine.last_bend() {
                        Some(bend) => bend,
                        None => PITCH_BEND_CENTER,
                    },
                    timbre: engine.last_cc74(),
                    pressure: engine.last_pressure(),
                    tilt: engine.last_tilt_cc(),
                },
            ),
            None => None,
        }
    }
}

} // verus!
