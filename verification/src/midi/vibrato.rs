//! Vibrato from quick strokes of the pen: settings, state and decisions.
use vstd::prelude::*;

use crate::double::Double;

verus! {

/// Encodings of the limits of the settings.
pub const HALF_BITS: u64 = 0x3fe0_0000_0000_0000;

pub const TWENTIETH_BITS: u64 = 0x3fa9_9999_9999_999a;

pub const FOUR_BITS: u64 = 0x4010_0000_0000_0000;

pub const TWELVE_BITS: u64 = 0x4028_0000_0000_0000;

pub const TWENTY_BITS: u64 = 0x4034_0000_0000_0000;

pub const FIVE_HUNDRED_BITS: u64 = 0x407f_4000_0000_0000;

pub const TWO_THOUSAND_BITS: u64 = 0x409f_4000_0000_0000;

/// Encodings of the preset depth of 0.35 semitones, rate of 6 Hz, fade of
/// 200 ms, smoothings of 50, 80 and 8 ms, dead zone of 0.002 and largest
/// depth of 1.5 semitones.
pub const PRESET_DEPTH_BITS: u64 = 0x3fd6_6666_6666_6666;

pub const PRESET_RATE_BITS: u64 = 0x4018_0000_0000_0000;

pub const PRESET_FADE_BITS: u64 = 0x4069_0000_0000_0000;

pub const PRESET_DEPTH_SMOOTHING_BITS: u64 = 0x4049_0000_0000_0000;

pub const PRESET_RATE_SMOOTHING_BITS: u64 = 0x4054_0000_0000_0000;

pub const PRESET_BEND_SMOOTHING_BITS: u64 = 0x4020_0000_0000_0000;

pub const PRESET_DEADZONE_BITS: u64 = 0x3f60_624d_d2f1_a9fc;

pub const PRESET_MAX_DEPTH_BITS: u64 = 0x3ff8_0000_0000_0000;

/// Milliseconds in which the stroke envelope rises.
pub const ATTACK_MS: u32 = 30;

/// Milliseconds in which the stroke envelope falls.
pub const RELEASE_MS: u32 = 120;

/// Settings of the vibrato.
#[derive(Clone, Copy, Debug, PartialEq, Eq, Structural)]
pub struct VibratoConfig {
    /// Without it the bend of the pen stays as it is.
    pub enabled_by_default: bool,
    /// Depth in semitones of the slightest vibrato.
    pub default_depth_semitones: Double,
    pub default_rate_hz: Double,
    /// Time in which the vibrato fades in.
    pub fade_in_ms: Double,
    pub depth_smoothing_ms: Double,
    pub rate_smoothing_ms: Double,
    /// Share of the depth that pressure decides.
    pub pressure_to_amount: Double,
    /// Sensitivity to strokes.
    pub y_axis_to_amount: Double,
    /// Strokes no larger than this are jitter.
    pub gesture_deadzone: Double,
    pub max_depth_semitones: Double,
    /// Time that parts slow bends from quick strokes.
    pub manual_bend_smoothing_ms: Double,
}

/// The number that `bits` encode.
pub open spec fn encoded(bits: u64) -> Double {
    Double { bits }
}

impl Default for VibratoConfig {
    fn default() -> (r: VibratoConfig)
        ensures
            r == VibratoConfig::preset(),
    {
        VibratoConfig {
            enabled_by_default: true,
            default_depth_semitones: Double::from_bits(PRESET_DEPTH_BITS),
            default_rate_hz: Double::from_bits(PRESET_RATE_BITS),
            fade_in_ms: Double::from_bits(PRESET_FADE_BITS),
            depth_smoothing_ms: Double::from_bits(PRESET_DEPTH_SMOOTHING_BITS),
            rate_smoothing_ms: Double::from_bits(PRESET_RATE_SMOOTHING_BITS),
            pressure_to_amount: Double::from_bits(HALF_BITS),
            y_axis_to_amount: Double::one(),
            gesture_deadzone: Double::from_bits(PRESET_DEADZONE_BITS),
            max_depth_semitones: Double::from_bits(PRESET_MAX_DEPTH_BITS),
            manual_bend_smoothing_ms: Double::from_bits(PRESET_BEND_SMOOTHING_BITS),
        }
    }
}

impl VibratoConfig {
    /// The settings that nobody has changed yet.
    pub open spec fn preset() -> VibratoConfig {
        VibratoConfig {
            enabled_by_default: true,
            default_depth_semitones: encoded(PRESET_DEPTH_BITS),
            default_rate_hz: encoded(PRESET_RATE_BITS),
            fade_in_ms: encoded(PRESET_FADE_BITS),
            depth_smoothing_ms: encoded(PRESET_DEPTH_SMOOTHING_BITS),
            rate_smoothing_ms: encoded(PRESET_RATE_SMOOTHING_BITS),
            pressure_to_amount: encoded(HALF_BITS),
            y_axis_to_amount: Double::one_spec(),
            gesture_deadzone: encoded(PRESET_DEADZONE_BITS),
            max_depth_semitones: encoded(PRESET_MAX_DEPTH_BITS),
            manual_bend_smoothing_ms: encoded(PRESET_BEND_SMOOTHING_BITS),
        }
    }

    /// The settings with each in its own range.
    pub open spec fn in_ranges(self) -> VibratoConfig {
        let zero = Double::zero_spec();
        let twelve = encoded(TWELVE_BITS);
        let long = encoded(TWO_THOUSAND_BITS);
        VibratoConfig {
            enabled_by_default: self.enabled_by_default,
            default_depth_semitones: self.default_depth_semitones.clamp_spec(zero, twelve),
            default_rate_hz: self.default_rate_hz.clamp_spec(
                encoded(HALF_BITS),
                encoded(TWENTY_BITS),
            ),
            fade_in_ms: self.fade_in_ms.clamp_spec(zero, long),
            depth_smoothing_ms: self.depth_smoothing_ms.clamp_spec(zero, long),
            rate_smoothing_ms: self.rate_smoothing_ms.clamp_spec(zero, long),
            pressure_to_amount: self.pressure_to_amount.clamp_spec(zero, Double::one_spec()),
            y_axis_to_amount: self.y_axis_to_amount.clamp_spec(zero, encoded(FOUR_BITS)),
            gesture_deadzone: self.gesture_deadzone.clamp_spec(zero, encoded(TWENTIETH_BITS)),
            max_depth_semitones: self.max_depth_semitones.clamp_spec(zero, twelve),
            manual_bend_smoothing_ms: self.manual_bend_smoothing_ms.clamp_spec(
                zero,
                encoded(FIVE_HUNDRED_BITS),
            ),
        }
    }

    /// The settings with each in its range, and the slightest depth no
    /// larger than the largest.
    pub open spec fn clamped(self) -> VibratoConfig {
        let ranged = self.in_ranges();
        if ranged.max_depth_semitones.less(ranged.default_depth_semitones) {
            VibratoConfig { default_depth_semitones: ranged.max_depth_semitones, ..ranged }
        } else {
            ranged
        }
    }

    /// Brings every setting into its range.
    pub fn clamp(&mut self)
        ensures
            *final(self) == old(self).clamped(),
    {
        let zero: Double = Double::zero();
        let twelve: Double = Double::from_bits(TWELVE_BITS);
        let long: Double = Double::from_bits(TWO_THOUSAND_BITS);
        self.default_depth_semitones = self.default_depth_semitones.clamp(zero, twelve);
        self.default_rate_hz =
        self.default_rate_hz.clamp(Double::from_bits(HALF_BITS), Double::from_bits(TWENTY_BITS));
        self.fade_in_ms = self.fade_in_ms.clamp(zero, long);
        self.depth_smoothing_ms = self.depth_smoothing_ms.clamp(zero, long);
        self.rate_smoothing_ms = self.rate_smoothing_ms.clamp(zero, long);
        self.pressure_to_amount = self.pressure_to_amount.clamp(zero, Double::one());
        self.y_axis_to_amount = self.y_axis_to_amount.clamp(zero, Double::from_bits(FOUR_BITS));
        self.gesture_deadzone =
        self.gesture_deadzone.clamp(zero, Double::from_bits(TWENTIETH_BITS));
        self.max_depth_semitones = self.max_depth_semitones.clamp(zero, twelve);
        self.manual_bend_smoothing_ms =
        self.manual_bend_smoothing_ms.clamp(zero, Double::from_bits(FIVE_HUNDRED_BITS));
        if self.max_depth_semitones.lt(self.default_depth_semitones) {
            self.default_depth_semitones = self.max_depth_semitones;
        }
    }

    /// Do strokes of this size make the pitch waver?
    pub open spec fn wavers(self, envelope: Double) -> bool {
        !envelope.at_most(self.gesture_deadzone) && !self.max_depth_semitones.at_most(
            Double::zero_spec(),
        )
    }

    /// Do strokes of this size make the pitch waver? Jitter does not, nor
    /// anything if the largest depth is zero.
    pub fn engages(&self, envelope: Double) -> (r: bool)
        ensures
            r == self.wavers(envelope),
    {
        !(envelope.le(self.gesture_deadzone) || self.max_depth_semitones.le(Double::zero()))
    }
}

/// The time in which the stroke envelope follows a stroke of this size.
pub fn envelope_ms(envelope: Double, size: Double) -> (r: u32)
    ensures
        r == if envelope.less(size) {
            ATTACK_MS
        } else {
            RELEASE_MS
        },
{
    if envelope.lt(size) {
        ATTACK_MS
    } else {
        RELEASE_MS
    }
}

/// Vibrato of a sounding note.
#[derive(Clone, Copy, Debug, PartialEq, Eq, Structural)]
pub struct VibratoState {
    pub phase: Double,
    pub depth_current: Double,
    pub depth_target: Double,
    pub rate_current: Double,
    /// The slow part of the vertical position.
    pub slow_y: Double,
    pub slow_y_initialized: bool,
    /// Size of the recent strokes.
    pub osc_env: Double,
    /// How far the vibrato has faded in, within 0 and 1.
    pub fade: Double,
}

impl VibratoState {
    /// No vibrato.
    pub open spec fn still() -> VibratoState {
        VibratoState {
            phase: Double::zero_spec(),
            depth_current: Double::zero_spec(),
            depth_target: Double::zero_spec(),
            rate_current: Double::zero_spec(),
            slow_y: Double::zero_spec(),
            slow_y_initialized: false,
            osc_env: Double::zero_spec(),
            fade: Double::zero_spec(),
        }
    }

    /// Ends the vibrato.
    pub fn reset(&mut self)
        ensures
            *final(self) == VibratoState::still(),
    {
        *self = VibratoState::default();
    }

    /// The vertical position that the manual bend follows, once there is one.
    pub fn manual_y(&self) -> (r: Option<Double>)
        ensures
            r == if self.slow_y_initialized {
                Some(self.slow_y)
            } else {
                None
            },
    {
        if self.slow_y_initialized {
            Some(self.slow_y)
        } else {
            None
        }
    }
}

impl Default for VibratoState {
    fn default() -> (r: VibratoState)
        ensures
            r == VibratoState::still(),
    {
        VibratoState {
            phase: Double::zero(),
            depth_current: Double::zero(),
            depth_target: Double::zero(),
            rate_current: Double::zero(),
            slow_y: Double::zero(),
            slow_y_initialized: false,
            osc_env: Double::zero(),
            fade: Double::zero(),
        }
    }
}

/// Settings that are in range stay as they are, so that a second pass over
/// them changes nothing.
pub proof fn clamping_is_idempotent(config: VibratoConfig)
    ensures
        config.clamped().clamped() == config.clamped(),
{
    lemma_limits();
    lemma_ranges_are_stable(config);
    let ranged = config.in_ranges();
    let once = config.clamped();
    if ranged.max_depth_semitones.less(ranged.default_depth_semitones) {
        lemma_ranges_are_stable(ranged);
        assert(once.in_ranges() == once);
    }
}

/// What clamping leaves is in its range, unless it was no number.
pub proof fn clamped_depths_are_ordered(config: VibratoConfig)
    requires
        !config.default_depth_semitones.nan(),
        !config.max_depth_semitones.nan(),
    ensures
        config.clamped().default_depth_semitones.at_most(config.clamped().max_depth_semitones),
        Double::zero_spec().at_most(config.clamped().default_depth_semitones),
        config.clamped().max_depth_semitones.at_most(encoded(TWELVE_BITS)),
{
    lemma_limits();
}

proof fn lemma_ranges_are_stable(config: VibratoConfig)
    ensures
        config.in_ranges().in_ranges() == config.in_ranges(),
{
    lemma_limits();
}

/// The limits are numbers, and each lower one is below its upper one.
proof fn lemma_limits()
    ensures
        Double::zero_spec().less(encoded(TWENTIETH_BITS)),
        Double::zero_spec().less(Double::one_spec()),
        Double::zero_spec().less(encoded(FOUR_BITS)),
        Double::zero_spec().less(encoded(TWELVE_BITS)),
        Double::zero_spec().less(encoded(FIVE_HUNDRED_BITS)),
        Double::zero_spec().less(encoded(TWO_THOUSAND_BITS)),
        encoded(HALF_BITS).less(encoded(TWENTY_BITS)),
{
    crate::double::lemma_units_order(0, TWENTIETH_BITS as nat);
    crate::double::lemma_units_order(0, 0x3ff0_0000_0000_0000);
    crate::double::lemma_units_order(0, FOUR_BITS as nat);
    crate::double::lemma_units_order(0, TWELVE_BITS as nat);
    crate::double::lemma_units_order(0, FIVE_HUNDRED_BITS as nat);
    crate::double::lemma_units_order(0, TWO_THOUSAND_BITS as nat);
    crate::double::lemma_units_order(HALF_BITS as nat, TWENTY_BITS as nat);
}

/// A vibrato that was reset has no depth, has not faded in, and follows no
/// position.
pub proof fn reset_vibratos_are_still(state: &mut VibratoState)
    requires
        call_ensures(VibratoState::reset, (state,), ()),
    ensures
        final(state).depth_current == (Double { bits: 0 }),
        final(state).depth_target == (Double { bits: 0 }),
        final(state).osc_env == (Double { bits: 0 }),
        final(state).fade == (Double { bits: 0 }),
        final(state).phase == (Double { bits: 0 }),
        !final(state).slow_y_initialized,
{
}

} // verus!
