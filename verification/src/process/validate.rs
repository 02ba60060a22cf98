//! Checking a calibration profile before it is used.
use vstd::prelude::*;
use vstd::string::StringExecFns;

use crate::double::Double;
use crate::midi::mapping::{plain, Fault};
use crate::process::profile::{
    ActivationConfig, CalibrationProfile, CurveKind, PressureCurve, SmoothingConfig, SmoothingMode,
};
use crate::text::{decimal, decimal_text, Reason, ReasonPartView};

verus! {

/// Why a profile could not be loaded, saved or used.
#[derive(Clone, Debug)]
pub enum ProfileError {
    /// The file could not be read or written.
    Io { path: String, message: String },
    /// The file is no TOML profile.
    TomlParse { path: String, message: String },
    /// The file is no JSON profile.
    JsonParse { path: String, message: String },
    /// A field holds a value that makes no sense.
    Validation { field: &'static str, reason: Reason },
}

impl ProfileError {
    /// What the error tells the user.
    pub open spec fn report_spec(self) -> Seq<ReasonPartView> {
        match self {
            ProfileError::Io { path, message } => plain("I/O error for '"@ + path@ + "': "@ + message@),
            ProfileError::TomlParse { path, message } => plain(
                "TOML parse error in '"@ + path@ + "': "@ + message@,
            ),
            ProfileError::JsonParse { path, message } => plain(
                "JSON parse error in '"@ + path@ + "': "@ + message@,
            ),
            ProfileError::Validation { field, reason } => plain("Invalid profile field '"@ + field@ + "': "@) + reason@,
        }
    }

    /// The message for the user.
    pub fn report(&self) -> (r: Reason)
        ensures
            r@ == self.report_spec(),
    {
        match self {
            ProfileError::Io { path, message } => {
                Reason::text(("I/O error for '".to_owned().concat(path).concat("': ").concat(message)).as_str())
            },
            ProfileError::TomlParse { path, message } => {
                Reason::text(("TOML parse error in '".to_owned().concat(path).concat("': ").concat(message)).as_str())
            },
            ProfileError::JsonParse { path, message } => {
                Reason::text(("JSON parse error in '".to_owned().concat(path).concat("': ").concat(message)).as_str())
            },
            ProfileError::Validation { field, reason } => {
                Reason::text(("Invalid profile field '".to_owned().concat(field).concat("': ")).as_str()).and(reason)
            },
        }
    }
}

/// Is neither coordinate of point `i` larger than that of the next?
pub open spec fn rises_at(points: Seq<(Double, Double)>, i: int) -> bool {
    points[i].0.at_most(points[i + 1].0) && points[i].1.at_most(points[i + 1].1)
}

/// Is neither coordinate larger than the next one anywhere?
pub open spec fn rising(points: Seq<(Double, Double)>) -> bool {
    forall|i: int| 0 <= i < points.len() - 1 ==> #[trigger] rises_at(points, i)
}

/// What is wrong between point `i` and the next.
pub open spec fn point_fault(points: Seq<(Double, Double)>, i: int) -> Fault {
    if !points[i].0.at_most(points[i + 1].0) {
        (
            "pressure.curve (Custom points — t values)"@,
            seq![
                ReasonPartView::Text(
                    "control-point t values must be non-decreasing; point["@ + decimal_text(i as nat) + "].t="@,
                ),
                ReasonPartView::Number(points[i].0),
                ReasonPartView::Text(" > point["@ + decimal_text((i + 1) as nat) + "].t="@),
                ReasonPartView::Number(points[i + 1].0),
            ],
        )
    } else {
        (
            "pressure.curve (Custom points — v values)"@,
            seq![
                ReasonPartView::Text(
                    "control-point v values must be non-decreasing (monotone); point["@ + decimal_text(i as nat)
                        + "].v="@,
                ),
                ReasonPartView::Number(points[i].1),
                ReasonPartView::Text(" > point["@ + decimal_text((i + 1) as nat) + "].v="@),
                ReasonPartView::Number(points[i + 1].1),
            ],
        )
    }
}

/// What is wrong with the points, looked at from point `i` on.
pub open spec fn points_fault(points: Seq<(Double, Double)>, i: int) -> Option<Fault>
    decreases points.len() - i,
{
    if i < 0 || i + 1 >= points.len() {
        None
    } else if !rises_at(points, i) {
        Some(point_fault(points, i))
    } else {
        points_fault(points, i + 1)
    }
}

/// A fault whose message ends in a quoted number.
pub open spec fn quoted(field: Seq<char>, text: Seq<char>, number: Double) -> Option<Fault> {
    Some((field, seq![ReasonPartView::Text(text), ReasonPartView::Number(number)]))
}

impl PressureCurve {
    /// Can this stage be used?
    pub open spec fn valid(self) -> bool {
        self.pressure_min <= self.pressure_max && match self.curve {
            CurveKind::Linear => true,
            CurveKind::Gamma(g) => Double::zero_spec().less(g),
            CurveKind::Custom(points) => rising(points@),
        }
    }

    /// What is wrong with this stage.
    pub open spec fn fault(self) -> Option<Fault> {
        if self.pressure_min > self.pressure_max {
            Some(
                (
                    "pressure.pressure_min / pressure_max"@,
                    plain(
                        "pressure_min ("@ + decimal_text(self.pressure_min as nat) + ") must be <= pressure_max ("@
                            + decimal_text(self.pressure_max as nat) + ")"@,
                    ),
                ),
            )
        } else {
            match self.curve {
                CurveKind::Linear => None,
                CurveKind::Gamma(g) => if Double::zero_spec().less(g) {
                    None
                } else {
                    quoted("pressure.curve (Gamma)"@, "gamma exponent must be > 0.0, got "@, g)
                },
                CurveKind::Custom(points) => points_fault(points@, 0),
            }
        }
    }
}

impl SmoothingConfig {
    /// Can this stage be used?
    pub open spec fn valid(self) -> bool {
        match self.mode {
            SmoothingMode::Off => true,
            SmoothingMode::Ema { alpha } => Double::zero_spec().less(alpha) && alpha.at_most(Double::one_spec()),
            SmoothingMode::OneEuro(params) => {
                &&& Double::zero_spec().less(params.min_cutoff)
                &&& Double::zero_spec().less(params.d_cutoff)
                &&& Double::zero_spec().at_most(params.beta)
            },
        }
    }

    /// What is wrong with this stage.
    pub open spec fn fault(self) -> Option<Fault> {
        match self.mode {
            SmoothingMode::Off => None,
            SmoothingMode::Ema { alpha } => if !(Double::zero_spec().less(alpha) && alpha.at_most(
                Double::one_spec(),
            )) {
                quoted("smoothing.mode (Ema.alpha)"@, "EMA alpha must be in (0.0, 1.0], got "@, alpha)
            } else {
                None
            },
            SmoothingMode::OneEuro(params) => if !Double::zero_spec().less(params.min_cutoff) {
                quoted(
                    "smoothing.mode (OneEuro.min_cutoff)"@,
                    "min_cutoff must be > 0.0, got "@,
                    params.min_cutoff,
                )
            } else if !Double::zero_spec().less(params.d_cutoff) {
                quoted("smoothing.mode (OneEuro.d_cutoff)"@, "d_cutoff must be > 0.0, got "@, params.d_cutoff)
            } else if !Double::zero_spec().at_most(params.beta) {
                quoted("smoothing.mode (OneEuro.beta)"@, "beta must be >= 0.0, got "@, params.beta)
            } else {
                None
            },
        }
    }
}

/// Does `x` lie within 0 and 1?
pub open spec fn in_unit(x: Double) -> bool {
    Double::zero_spec().at_most(x) && x.at_most(Double::one_spec())
}

impl ActivationConfig {
    /// Can this stage be used?
    pub open spec fn valid(self) -> bool {
        &&& in_unit(self.on_threshold)
        &&& in_unit(self.off_threshold)
        &&& self.off_threshold.at_most(self.on_threshold)
    }

    /// What is wrong with this stage.
    pub open spec fn fault(self) -> Option<Fault> {
        if !in_unit(self.on_threshold) {
            quoted("activation.on_threshold"@, "on_threshold must be in [0.0, 1.0], got "@, self.on_threshold)
        } else if !in_unit(self.off_threshold) {
            quoted("activation.off_threshold"@, "off_threshold must be in [0.0, 1.0], got "@, self.off_threshold)
        } else if self.on_threshold.less(self.off_threshold) {
            Some(
                (
                    "activation.off_threshold / on_threshold"@,
                    seq![
                        ReasonPartView::Text("off_threshold ("@),
                        ReasonPartView::Number(self.off_threshold),
                        ReasonPartView::Text(") must be <= on_threshold ("@),
                        ReasonPartView::Number(self.on_threshold),
                        ReasonPartView::Text(")"@),
                    ],
                ),
            )
        } else {
            None
        }
    }
}

/// Does a check's result tell of the fault, if there is one?
pub open spec fn tells(result: Result<(), ProfileError>, fault: Option<Fault>) -> bool {
    match result {
        Ok(_) => fault is None,
        Err(ProfileError::Validation { field, reason }) => fault == Some((field@, reason@)),
        Err(_) => false,
    }
}

/// Check that the points are in order in both coordinates.
pub fn validate_custom_points(points: &Vec<(Double, Double)>) -> (r: Result<(), ProfileError>)
    ensures
        r is Ok <==> rising(points@),
        tells(r, points_fault(points@, 0)),
{
    let total: usize = points.len();
    if total < 2 {
        return Ok(());
    }
    let mut i: usize = 0;
    while i < total - 1
        invariant
            total == points@.len(),
            total >= 2,
            i <= total - 1,
            points_fault(points@, 0) == points_fault(points@, i as int),
            forall|j: int| 0 <= j < i ==> #[trigger] rises_at(points@, j),
        decreases total - i,
    {
        let (t0, v0) = points[i];
        let (t1, v1) = points[i + 1];
        if !t0.le(t1) {
            proof {
                assert(!rises_at(points@, i as int));
            }
            return Err(
                ProfileError::Validation {
                    field: "pressure.curve (Custom points — t values)",
                    reason: falling_point(
                        "control-point t values must be non-decreasing; point[",
                        "].t=",
                        i,
                        t0,
                        t1,
                    ),
                },
            );
        }
        if !v0.le(v1) {
            proof {
                assert(!rises_at(points@, i as int));
            }
            return Err(
                ProfileError::Validation {
                    field: "pressure.curve (Custom points — v values)",
                    reason: falling_point(
                        "control-point v values must be non-decreasing (monotone); point[",
                        "].v=",
                        i,
                        v0,
                        v1,
                    ),
                },
            );
        }
        assert(rises_at(points@, i as int));
        i = i + 1;
    }
    Ok(())
}

fn falling_point(rule: &str, name: &str, i: usize, before: Double, after: Double) -> (r: Reason)
    requires
        i < usize::MAX,
    ensures
        r@ == seq![
            ReasonPartView::Text(rule@ + decimal_text(i as nat) + name@),
            ReasonPartView::Number(before),
            ReasonPartView::Text(" > point["@ + decimal_text((i + 1) as nat) + name@),
            ReasonPartView::Number(after),
        ],
{
    let first = rule.to_owned().concat(decimal(i as u64).as_str()).concat(name);
    let second = " > point[".to_owned().concat(decimal((i + 1) as u64).as_str()).concat(name);
    Reason::quoting(first.as_str(), before).then_text(second.as_str()).then_number(after)
}

fn refused(field: &'static str, text: &str, number: Double) -> (r: Result<(), ProfileError>)
    ensures
        r is Err,
        tells(r, quoted(field@, text@, number)),
{
    Err(ProfileError::Validation { field, reason: Reason::quoting(text, number) })
}

fn validate_pressure(p: &PressureCurve) -> (r: Result<(), ProfileError>)
    ensures
        r is Ok <==> p.valid(),
        tells(r, p.fault()),
{
    if p.pressure_min > p.pressure_max {
        return Err(
            ProfileError::Validation {
                field: "pressure.pressure_min / pressure_max",
                reason: Reason::text(
                    "pressure_min (".to_owned().concat(decimal(p.pressure_min as u64).as_str()).concat(
                        ") must be <= pressure_max (",
                    ).concat(decimal(p.pressure_max as u64).as_str()).concat(")").as_str(),
                ),
            },
        );
    }
    match &p.curve {
        CurveKind::Gamma(g) => {
            if !Double::zero().lt(*g) {
                return refused("pressure.curve (Gamma)", "gamma exponent must be > 0.0, got ", *g);
            }
            Ok(())
        },
        CurveKind::Custom(points) => validate_custom_points(points),
        CurveKind::Linear => Ok(()),
    }
}

fn validate_smoothing(s: &SmoothingConfig) -> (r: Result<(), ProfileError>)
    ensures
        r is Ok <==> s.valid(),
        tells(r, s.fault()),
{
    match &s.mode {
        SmoothingMode::Ema { alpha } => {
            if !(Double::zero().lt(*alpha) && alpha.le(Double::one())) {
                return refused("smoothing.mode (Ema.alpha)", "EMA alpha must be in (0.0, 1.0], got ", *alpha);
            }
            Ok(())
        },
        SmoothingMode::OneEuro(params) => {
            if !Double::zero().lt(params.min_cutoff) {
                return refused(
                    "smoothing.mode (OneEuro.min_cutoff)",
                    "min_cutoff must be > 0.0, got ",
                    params.min_cutoff,
                );
            }
            if !Double::zero().lt(params.d_cutoff) {
                return refused(
                    "smoothing.mode (OneEuro.d_cutoff)",
                    "d_cutoff must be > 0.0, got ",
                    params.d_cutoff,
                );
            }
            if !Double::zero().le(params.beta) {
                return refused("smoothing.mode (OneEuro.beta)", "beta must be >= 0.0, got ", params.beta);
            }
            Ok(())
        },
        SmoothingMode::Off => Ok(()),
    }
}

fn validate_activation(a: &ActivationConfig) -> (r: Result<(), ProfileError>)
    ensures
        r is Ok <==> a.valid(),
        tells(r, a.fault()),
{
    if !a.on_threshold.within(Double::zero(), Double::one()) {
        return refused("activation.on_threshold", "on_threshold must be in [0.0, 1.0], got ", a.on_threshold);
    }
    if !a.off_threshold.within(Double::zero(), Double::one()) {
        return refused("activation.off_threshold", "off_threshold must be in [0.0, 1.0], got ", a.off_threshold);
    }
    if a.on_threshold.lt(a.off_threshold) {
        let reason = Reason::quoting("off_threshold (", a.off_threshold).then_text(
            ") must be <= on_threshold (",
        ).then_number(a.on_threshold).then_text(")");
        proof {
            assert(reason@ =~= (a.fault()->0).1);
        }
        return Err(ProfileError::Validation { field: "activation.off_threshold / on_threshold", reason });
    }
    Ok(())
}

impl CalibrationProfile {
    /// Can every stage be used?
    pub open spec fn valid(self) -> bool {
        self.pressure.valid() && self.smoothing.valid() && self.activation.valid()
    }

    /// The first thing that is wrong, in the order of the stages.
    pub open spec fn first_fault(self) -> Option<Fault> {
        match self.pressure.fault() {
            Some(fault) => Some(fault),
            None => match self.smoothing.fault() {
                Some(fault) => Some(fault),
                None => self.activation.fault(),
            },
        }
    }

    /// Check the parameters of every stage.
    pub fn validate(&self) -> (r: Result<(), ProfileError>)
        ensures
            r is Ok <==> self.valid(),
            tells(r, self.first_fault()),
    {
        match validate_pressure(&self.pressure) {
            Err(error) => {
                return Err(error);
            },
            Ok(_) => {},
        }
        match validate_smoothing(&self.smoothing) {
            Err(error) => {
                return Err(error);
            },
            Ok(_) => {},
        }
        validate_activation(&self.activation)
    }
}

/// The profile that changes nothing can be used.
pub proof fn identity_is_valid(profile: CalibrationProfile)
    requires
        profile.is_identity(),
    ensures
        profile.valid(),
{
    crate::double::lemma_units_order(0, Double::one_spec().magnitude_spec());
}

/// A report quotes the file and what went wrong, or the field and the reason.
pub proof fn reports_quote_the_fault(error: ProfileError, r: Reason)
    requires
        call_ensures(ProfileError::report, (&error,), r),
    ensures
        error matches ProfileError::Io { path, message } ==> r@ == seq![
            ReasonPartView::Text("I/O error for '"@ + path@ + "': "@ + message@),
        ],
        error matches ProfileError::TomlParse { path, message } ==> r@ == seq![
            ReasonPartView::Text("TOML parse error in '"@ + path@ + "': "@ + message@),
        ],
        error matches ProfileError::JsonParse { path, message } ==> r@ == seq![
            ReasonPartView::Text("JSON parse error in '"@ + path@ + "': "@ + message@),
        ],
        error matches ProfileError::Validation { field, reason } ==> r@ == seq![
            ReasonPartView::Text("Invalid profile field '"@ + field@ + "': "@),
        ] + reason@,
{
}

} // verus!
