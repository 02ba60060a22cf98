//! Calibration profiles: plain data, one part for each stage of the pipeline.
use vstd::prelude::*;

use crate::double::Double;

verus! {

/// The space that positions are mapped into.
#[derive(Clone, Copy, Debug, PartialEq, Eq, Structural)]
pub enum TargetSpace {
    /// Within 0 and 1 over the extent of the device.
    Normalized,
    /// Pixels of a canvas.
    ScreenPixels { w: u32, h: u32 },
    /// Millimetres on the device.
    Millimeters,
}

/// Stage 1: a matrix applied to raw positions.
#[derive(Clone, Debug, PartialEq)]
pub struct CoordinateMap {
    /// Without it, the normalized position is used.
    pub enabled: bool,
    /// Two rows of three, row by row.
    pub affine: [Double; 6],
    /// Three rows of three, applied after the affine part.
    pub projective: Option<[Double; 9]>,
}

/// The affine matrix that changes nothing.
pub open spec fn identity_affine() -> Seq<Double> {
    seq![
        Double::one_spec(),
        Double::zero_spec(),
        Double::zero_spec(),
        Double::zero_spec(),
        Double::one_spec(),
        Double::zero_spec(),
    ]
}

impl CoordinateMap {
    /// Is this the stage that changes nothing?
    pub open spec fn is_identity(self) -> bool {
        !self.enabled && self.affine@ == identity_affine() && self.projective is None
    }

    /// The stage that changes nothing.
    pub fn identity() -> (r: CoordinateMap)
        ensures
            r.is_identity(),
    {
        let zero = Double::zero();
        let one = Double::one();
        let r = CoordinateMap { enabled: false, affine: [one, zero, zero, zero, one, zero], projective: None };
        proof {
            assert(r.affine@ =~= identity_affine());
        }
        r
    }
}

impl Default for CoordinateMap {
    fn default() -> (r: CoordinateMap)
        ensures
            r.is_identity(),
    {
        CoordinateMap::identity()
    }
}

/// Shape of the pressure response.
#[derive(Clone, Debug, PartialEq)]
pub enum CurveKind {
    /// The pressure as it is.
    Linear,
    /// A power of the pressure; an exponent that is not positive counts as 1.
    Gamma(Double),
    /// Straight lines between points of pressure and response.
    Custom(Vec<(Double, Double)>),
}

impl Default for CurveKind {
    fn default() -> (r: CurveKind)
        ensures
            r is Linear,
    {
        CurveKind::Linear
    }
}

/// Stage 2: the pressure response.
#[derive(Clone, Debug, PartialEq)]
pub struct PressureCurve {
    /// Without it, the normalized pressure is used.
    pub enabled: bool,
    /// Raw pressure that counts as none.
    pub pressure_min: u32,
    /// Raw pressure that counts as full.
    pub pressure_max: u32,
    pub curve: CurveKind,
}

impl PressureCurve {
    /// Is this the stage that changes nothing?
    pub open spec fn is_identity(self) -> bool {
        !self.enabled && self.pressure_min == 0 && self.pressure_max == u32::MAX && self.curve is Linear
    }

    /// The stage that changes nothing.
    pub fn identity() -> (r: PressureCurve)
        ensures
            r.is_identity(),
    {
        PressureCurve { enabled: false, pressure_min: 0, pressure_max: u32::MAX, curve: CurveKind::Linear }
    }
}

impl Default for PressureCurve {
    fn default() -> (r: PressureCurve)
        ensures
            r.is_identity(),
    {
        PressureCurve::identity()
    }
}

/// Which tilt is given out.
#[derive(Clone, Copy, Debug, PartialEq, Eq, Structural)]
pub enum TiltConvention {
    /// The tilt of the sample.
    TiltXY,
    /// Azimuth and altitude, in degrees.
    AzimuthAltitude,
    /// Tilt derived from azimuth and altitude.
    DerivedFromOrientation,
}

/// Stage 3: the tilt.
#[derive(Clone, Copy, Debug, PartialEq, Eq, Structural)]
pub struct TiltConfig {
    /// Without it, the tilt of the sample is used.
    pub enabled: bool,
    pub convention: TiltConvention,
}

impl TiltConfig {
    /// The stage that changes nothing.
    pub fn identity() -> (r: TiltConfig)
        ensures
            r == (TiltConfig { enabled: false, convention: TiltConvention::TiltXY }),
    {
        TiltConfig { enabled: false, convention: TiltConvention::TiltXY }
    }
}

impl Default for TiltConfig {
    fn default() -> (r: TiltConfig)
        ensures
            r == (TiltConfig { enabled: false, convention: TiltConvention::TiltXY }),
    {
        TiltConfig::identity()
    }
}

/// Parameters of the One-Euro filter.
#[derive(Clone, Copy, Debug, PartialEq, Eq, Structural)]
pub struct OneEuroParams {
    /// Smallest cutoff frequency in Hz.
    pub min_cutoff: Double,
    /// How much speed raises the cutoff.
    pub beta: Double,
    /// Cutoff frequency of the speed in Hz.
    pub d_cutoff: Double,
}

impl Default for OneEuroParams {
    fn default() -> (r: OneEuroParams)
        ensures
            r == (OneEuroParams {
                min_cutoff: Double::one_spec(),
                beta: Double { bits: 0x3f7c_ac08_3126_e979 },
                d_cutoff: Double::one_spec(),
            }),
    {
        OneEuroParams {
            min_cutoff: Double::one(),
            beta: Double { bits: 0x3f7c_ac08_3126_e979 },
            d_cutoff: Double::one(),
        }
    }
}

/// How positions are smoothed.
#[derive(Clone, Copy, Debug, PartialEq, Eq, Structural)]
pub enum SmoothingMode {
    /// Not at all.
    Off,
    /// By an exponential moving average.
    Ema { alpha: Double },
    /// By a One-Euro filter.
    OneEuro(OneEuroParams),
}

/// Stage 4: smoothing.
#[derive(Clone, Copy, Debug, PartialEq, Eq, Structural)]
pub struct SmoothingConfig {
    pub mode: SmoothingMode,
}

impl SmoothingConfig {
    /// The stage that changes nothing.
    pub fn identity() -> (r: SmoothingConfig)
        ensures
            r == (SmoothingConfig { mode: SmoothingMode::Off }),
    {
        SmoothingConfig { mode: SmoothingMode::Off }
    }
}

impl Default for SmoothingConfig {
    fn default() -> (r: SmoothingConfig)
        ensures
            r == (SmoothingConfig { mode: SmoothingMode::Off }),
    {
        SmoothingConfig::identity()
    }
}

/// Stage 5: when the pen counts as pressed.
#[derive(Clone, Copy, Debug, PartialEq, Eq, Structural)]
pub struct ActivationConfig {
    /// Without it, a pen in range counts as pressed.
    pub enabled: bool,
    /// Pressure from which the pen counts as pressed.
    pub on_threshold: Double,
    /// Pressure down to which it stays so.
    pub off_threshold: Double,
    /// Must the pen be in range as well?
    pub require_proximity: bool,
}

impl ActivationConfig {
    /// The settings of the stage that changes nothing.
    pub open spec fn identity_spec() -> ActivationConfig {
        ActivationConfig {
            enabled: false,
            on_threshold: Double::zero_spec(),
            off_threshold: Double::zero_spec(),
            require_proximity: true,
        }
    }

    /// The stage that changes nothing.
    pub fn identity() -> (r: ActivationConfig)
        ensures
            r == ActivationConfig::identity_spec(),
    {
        ActivationConfig {
            enabled: false,
            on_threshold: Double::zero(),
            off_threshold: Double::zero(),
            require_proximity: true,
        }
    }
}

impl Default for ActivationConfig {
    fn default() -> (r: ActivationConfig)
        ensures
            r == ActivationConfig::identity_spec(),
    {
        ActivationConfig::identity()
    }
}

/// A complete pipeline for pen input.
#[derive(Clone, Debug, PartialEq)]
pub struct CalibrationProfile {
    /// Name to show.
    pub name: String,
    /// The space that positions are mapped into.
    pub target_space: TargetSpace,
    pub coordinate_map: CoordinateMap,
    pub pressure: PressureCurve,
    pub tilt: TiltConfig,
    pub smoothing: SmoothingConfig,
    pub activation: ActivationConfig,
}

impl CalibrationProfile {
    /// Is this the profile that changes nothing?
    pub open spec fn is_identity(self) -> bool {
        &&& self.name@ == "identity"@
        &&& self.target_space == TargetSpace::Normalized
        &&& self.coordinate_map.is_identity()
        &&& self.pressure.is_identity()
        &&& self.tilt == TiltConfig { enabled: false, convention: TiltConvention::TiltXY }
        &&& self.smoothing == SmoothingConfig { mode: SmoothingMode::Off }
        &&& self.activation == ActivationConfig::identity_spec()
    }

    /// The profile that changes nothing.
    pub fn identity() -> (r: CalibrationProfile)
        ensures
            r.is_identity(),
    {
        CalibrationProfile {
            name: "identity".to_owned(),
            target_space: TargetSpace::Normalized,
            coordinate_map: CoordinateMap::identity(),
            pressure: PressureCurve::identity(),
            tilt: TiltConfig::identity(),
            smoothing: SmoothingConfig::identity(),
            activation: ActivationConfig::identity(),
        }
    }
}

impl Default for CalibrationProfile {
    fn default() -> (r: CalibrationProfile)
        ensures
            r.is_identity(),
    {
        CalibrationProfile::identity()
    }
}

} // verus!
