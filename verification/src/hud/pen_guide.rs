//! Telling pens apart, and introducing a new one.
use vstd::prelude::*;
use vstd::string::StringExecFns;

use crate::device::sample::PenSample;
use crate::double::Double;
use crate::hud::actions::label_text;
use crate::hud::bindings::{bound_id, named, text_if, BindingView, ChordView, InputChord, Keymap, PenButton};
use crate::midi::mapping::{MidiMapping, TiltAxis, VelocitySource};
use crate::text::{decimal, decimal_text, same_text};

verus! {

/// Samples in a row that make a pen known.
pub const STABLE_SAMPLES: u8 = 8;

/// What a pen is told apart by: the tablet, the cursor, and what it reports.
/// The kind of tool is left out, since turning a pen over changes it.
#[derive(Clone, Debug, PartialEq)]
pub struct PenSignature {
    pub device_name: String,
    pub tool_serial: u64,
    pub has_tilt: bool,
    pub has_twist: bool,
    pub has_tangent_pressure: bool,
    pub has_rotation: bool,
}

/// A signature by its characters.
pub struct SignatureView {
    pub device_name: Seq<char>,
    pub tool_serial: u64,
    pub has_tilt: bool,
    pub has_twist: bool,
    pub has_tangent_pressure: bool,
    pub has_rotation: bool,
}

impl View for PenSignature {
    type V = SignatureView;

    open spec fn view(&self) -> SignatureView {
        SignatureView {
            device_name: self.device_name@,
            tool_serial: self.tool_serial,
            has_tilt: self.has_tilt,
            has_twist: self.has_twist,
            has_tangent_pressure: self.has_tangent_pressure,
            has_rotation: self.has_rotation,
        }
    }
}

impl Default for PenSignature {
    fn default() -> (r: PenSignature)
        ensures
            r@ == (SignatureView {
                device_name: Seq::empty(),
                tool_serial: 0,
                has_tilt: false,
                has_twist: false,
                has_tangent_pressure: false,
                has_rotation: false,
            }),
    {
        PenSignature {
            device_name: String::new(),
            tool_serial: 0,
            has_tilt: false,
            has_twist: false,
            has_tangent_pressure: false,
            has_rotation: false,
        }
    }
}

/// The features that a signature names, in order.
pub open spec fn features_text(sig: SignatureView) -> Seq<char> {
    "pressure"@ + text_if(sig.has_tilt, " · tilt"@) + text_if(sig.has_twist, " · twist"@) + text_if(
        sig.has_tangent_pressure,
        " · airbrush wheel"@,
    ) + text_if(sig.has_rotation, " · rotation"@)
}

impl PenSignature {
    /// The signature of the pen behind a sample.
    pub fn of(sample: &PenSample, device_name: &str) -> (r: PenSignature)
        ensures
            r@ == (SignatureView {
                device_name: device_name@,
                tool_serial: sample.tool_serial,
                has_tilt: sample.tilt_x_deg is Some || sample.tilt_y_deg is Some,
                has_twist: sample.twist_deci_deg is Some,
                has_tangent_pressure: sample.tangent_pressure_raw is Some,
                has_rotation: sample.rotation_deci_deg is Some,
            }),
    {
        PenSignature {
            device_name: device_name.to_owned(),
            tool_serial: sample.tool_serial,
            has_tilt: sample.tilt_x_deg.is_some() || sample.tilt_y_deg.is_some(),
            has_twist: sample.twist_deci_deg.is_some(),
            has_tangent_pressure: sample.tangent_pressure_raw.is_some(),
            has_rotation: sample.rotation_deci_deg.is_some(),
        }
    }

    /// The features of the pen, for a subtitle.
    pub fn features_label(&self) -> (r: String)
        ensures
            r@ == features_text(self@),
    {
        let mut text = "pressure".to_owned();
        if self.has_tilt {
            text.append(" · tilt");
        }
        if self.has_twist {
            text.append(" · twist");
        }
        if self.has_tangent_pressure {
            text.append(" · airbrush wheel");
        }
        if self.has_rotation {
            text.append(" · rotation");
        }
        proof {
            assert(text@ =~= features_text(self@));
        }
        text
    }

    /// Is this the same pen?
    pub fn same(&self, other: &PenSignature) -> (r: bool)
        ensures
            r == (self@ == other@),
    {
        same_text(self.device_name.as_str(), other.device_name.as_str()) && self.tool_serial == other.tool_serial
            && self.has_tilt == other.has_tilt && self.has_twist == other.has_twist && self.has_tangent_pressure
            == other.has_tangent_pressure && self.has_rotation == other.has_rotation
    }

    fn duplicate(&self) -> (r: PenSignature)
        ensures
            r@ == self@,
    {
        PenSignature {
            device_name: self.device_name.clone(),
            tool_serial: self.tool_serial,
            has_tilt: self.has_tilt,
            has_twist: self.has_twist,
            has_tangent_pressure: self.has_tangent_pressure,
            has_rotation: self.has_rotation,
        }
    }
}

/// Is a pen among others?
pub open spec fn is_among(seen: Seq<PenSignature>, sig: SignatureView) -> bool {
    exists|i: int| 0 <= i < seen.len() && (#[trigger] seen[i])@ == sig
}

/// Has a pen been introduced before?
pub fn is_seen(seen: &Vec<PenSignature>, sig: &PenSignature) -> (r: bool)
    ensures
        r == (exists|i: int| 0 <= i < seen@.len() && (#[trigger] seen@[i])@ == sig@),
        r == is_among(seen@, sig@),
{
    let mut i: usize = 0;
    while i < seen.len()
        invariant
            i <= seen@.len(),
            forall|j: int| 0 <= j < i ==> (#[trigger] seen@[j])@ != sig@,
        decreases seen@.len() - i,
    {
        if seen[i].same(sig) {
            assert(seen@[i as int]@ == sig@);
            return true;
        }
        i = i + 1;
    }
    false
}

/// What a tracker remembers.
pub struct TrackerView {
    /// The pen in use.
    pub current: Option<SignatureView>,
    /// Another pen that was seen last, and for how many samples in a row.
    pub candidate: Option<(SignatureView, int)>,
}

/// What a tracker remembers after a sample, and the pen that it reports.
pub open spec fn observed(t: TrackerView, sig: SignatureView) -> (TrackerView, Option<SignatureView>) {
    if t.current == Some(sig) {
        (TrackerView { candidate: None, ..t }, None)
    } else {
        let run = match t.candidate {
            Some((pen, count)) if pen == sig => count + 1,
            _ => 1,
        };
        if run >= STABLE_SAMPLES {
            (TrackerView { current: Some(sig), candidate: None }, Some(sig))
        } else {
            (TrackerView { candidate: Some((sig, run)), ..t }, None)
        }
    }
}

/// Notices when another pen is in use. A pen is reported once it was seen for
/// [`STABLE_SAMPLES`] samples in a row and is not the one reported last.
pub struct PenTracker {
    current: Option<PenSignature>,
    candidate: Option<(PenSignature, u8)>,
}

impl View for PenTracker {
    type V = TrackerView;

    closed spec fn view(&self) -> TrackerView {
        TrackerView {
            current: match self.current {
                Some(sig) => Some(sig@),
                None => None,
            },
            candidate: match self.candidate {
                Some((sig, count)) => Some((sig@, count as int)),
                None => None,
            },
        }
    }
}

impl Default for PenTracker {
    fn default() -> (r: PenTracker)
        ensures
            r@ == (TrackerView { current: None, candidate: None }),
    {
        PenTracker { current: None, candidate: None }
    }
}

impl PenTracker {
    /// The pen in use.
    pub fn current(&self) -> (r: Option<&PenSignature>)
        ensures
            match r {
                Some(sig) => self@.current == Some(sig@),
                None => self@.current is None,
            },
    {
        self.current.as_ref()
    }

    /// Take in the signature of a sample. Returns it where the pen has changed
    /// to it.
    pub fn observe(&mut self, sig: PenSignature) -> (r: Option<PenSignature>)
        ensures
            final(self)@ == observed(old(self)@, sig@).0,
            match r {
                Some(reported) => observed(old(self)@, sig@).1 == Some(reported@),
                None => observed(old(self)@, sig@).1 is None,
            },
    {
        let known = match &self.current {
            Some(current) => current.same(&sig),
            None => false,
        };
        if known {
            self.candidate = None;
            return None;
        }
        let seen: u8 = match &self.candidate {
            Some((candidate, count)) => if candidate.same(&sig) {
                *count
            } else {
                0
            },
            None => 0,
        };
        if seen >= STABLE_SAMPLES - 1 {
            self.candidate = None;
            self.current = Some(sig.duplicate());
            Some(sig)
        } else {
            self.candidate = Some((sig, seen + 1));
            None
        }
    }
}

/// What a tracker remembers after the same pen was seen `n` times.
pub open spec fn observed_run(t: TrackerView, sig: SignatureView, n: nat) -> TrackerView
    decreases n,
{
    if n == 0 {
        t
    } else {
        observed(observed_run(t, sig, (n - 1) as nat), sig).0
    }
}

/// Is this pen neither in use nor on its way?
pub open spec fn is_new(t: TrackerView, sig: SignatureView) -> bool {
    t.current != Some(sig) && (t.candidate matches Some((pen, _)) ==> pen != sig)
}

/// A new pen is reported at the last of [`STABLE_SAMPLES`] samples in a row,
/// and at none before.
pub proof fn stable_runs_are_reported(t: TrackerView, sig: SignatureView, n: nat)
    requires
        is_new(t, sig),
        n < STABLE_SAMPLES,
    ensures
        ({
            let before = observed_run(t, sig, n);
            let (after, reported) = observed(before, sig);
            &&& before.current == t.current
            &&& n > 0 ==> before.candidate == Some((sig, n as int))
            &&& n + 1 < STABLE_SAMPLES ==> reported is None
            &&& n + 1 == STABLE_SAMPLES ==> reported == Some(sig) && after.current == Some(sig) && after.candidate is None
        }),
    decreases n,
{
    if n > 0 {
        stable_runs_are_reported(t, sig, (n - 1) as nat);
    }
}

/// The pen in use is never reported again, and a sample from it makes the
/// tracker forget any other.
pub proof fn current_pen_is_never_reported(t: TrackerView, sig: SignatureView)
    ensures
        observed(t, sig).1 is Some ==> t.current != Some(sig) && observed(t, sig).1 == Some(sig),
        t.current == Some(sig) ==> observed(t, sig).0 == (TrackerView { current: t.current, candidate: None }),
{
}

/// A line of the guide.
#[derive(Clone, Debug, PartialEq)]
pub struct GuideLine {
    pub text: String,
    /// Is this a hint, and no mapping in use?
    pub weak: bool,
}

/// A line by its characters.
pub struct GuideLineView {
    pub text: Seq<char>,
    pub weak: bool,
}

impl View for GuideLine {
    type V = GuideLineView;

    open spec fn view(&self) -> GuideLineView {
        GuideLineView { text: self.text@, weak: self.weak }
    }
}

/// A line, where it is wanted.
pub open spec fn line_if(wanted: bool, text: Seq<char>, weak: bool) -> Seq<GuideLineView> {
    if wanted {
        seq![GuideLineView { text, weak }]
    } else {
        Seq::empty()
    }
}

/// How the velocity comes about.
pub open spec fn velocity_text(velocity: VelocitySource) -> Seq<char> {
    match velocity {
        VelocitySource::Fixed(v) => "velocity fixed at "@ + decimal_text(v as nat),
        VelocitySource::Pressure { min, max } => "velocity from strike pressure ("@ + decimal_text(min as nat) + "–"@
            + decimal_text(max as nat) + ")"@,
    }
}

/// What tilting the pen does.
pub open spec fn tilt_line(sig: SignatureView, m: MidiMapping) -> GuideLineView {
    if !sig.has_tilt {
        GuideLineView { text: "This pen does not report tilt — tilt mappings have no effect"@, weak: true }
    } else {
        match m.tilt_cc {
            Some(tilt) => GuideLineView {
                text: "Tilt → CC"@ + decimal_text(tilt.controller as nat) + " (tilt "@ + (match tilt.axis {
                    TiltAxis::X => "X"@,
                    TiltAxis::Y => "Y"@,
                }) + ")"@,
                weak: false,
            },
            None => GuideLineView {
                text: "Tilt available — enable \"tilt → CC\" in the Expression panel"@,
                weak: true,
            },
        }
    }
}

/// What a button of the pen does.
pub open spec fn button_line(name: Seq<char>, button: PenButton, keymap: Seq<BindingView>) -> GuideLineView {
    match named(bound_id(keymap, ChordView::Pen(button))) {
        Some(action) => GuideLineView { text: name + " → "@ + label_text(action), weak: false },
        None => GuideLineView { text: name + " → unbound — bind in Settings"@, weak: true },
    }
}

/// The lines that introduce a pen under a mapping and a keymap. `bend_text` is
/// the drag bend of the mapping, written out.
pub open spec fn guide_lines(
    sig: SignatureView,
    m: MidiMapping,
    keymap: Seq<BindingView>,
    bend_text: Seq<char>,
) -> Seq<GuideLineView> {
    line_if(true, "Tip — strike a pad to play; "@ + velocity_text(m.velocity), false) + line_if(
        m.pressure_to_channel_pressure,
        "Pressure while held → channel pressure"@,
        false,
    ) + line_if(
        Double::zero_spec().less(m.y_bend_semitones),
        "Drag up/down → pitch bend (±"@ + bend_text + " st)"@,
        false,
    ) + line_if(m.x_to_cc74, "Drag left/right → CC74 (timbre)"@, false) + seq![tilt_line(sig, m)] + line_if(
        sig.has_tangent_pressure,
        "Airbrush wheel detected (tangent pressure) — captured, not yet mapped"@,
        true,
    ) + seq![
        button_line("Barrel button"@, PenButton::Barrel, keymap),
        button_line("Eraser"@, PenButton::Eraser, keymap),
    ]
}

/// Lines by their characters.
pub open spec fn lines_view(lines: Seq<GuideLine>) -> Seq<GuideLineView> {
    lines.map_values(|line: GuideLine| line@)
}

fn add_line(lines: &mut Vec<GuideLine>, text: String, weak: bool)
    ensures
        lines_view(final(lines)@) == lines_view(old(lines)@).push(GuideLineView { text: text@, weak }),
{
    lines.push(GuideLine { text, weak });
    proof {
        assert(lines_view(lines@) =~= lines_view(old(lines)@).push(GuideLineView { text: text@, weak }));
    }
}

fn velocity_label(velocity: VelocitySource) -> (r: String)
    ensures
        r@ == velocity_text(velocity),
{
    match velocity {
        VelocitySource::Fixed(v) => "velocity fixed at ".to_owned().concat(decimal(v as u64).as_str()),
        VelocitySource::Pressure { min, max } => {
            "velocity from strike pressure (".to_owned().concat(decimal(min as u64).as_str()).concat("–").concat(
                decimal(max as u64).as_str(),
            ).concat(")")
        },
    }
}

fn button_label(name: &str, button: PenButton, keymap: &Keymap) -> (r: GuideLine)
    ensures
        r@ == button_line(name@, button, keymap@),
{
    match keymap.resolve(&InputChord::Pen(button)) {
        Some(action) => GuideLine {
            text: name.to_owned().concat(" → ").concat(action.label()),
            weak: false,
        },
        None => GuideLine { text: name.to_owned().concat(" → unbound — bind in Settings"), weak: true },
    }
}

fn tilt_label(sig: &PenSignature, m: &MidiMapping) -> (r: GuideLine)
    ensures
        r@ == tilt_line(sig@, *m),
{
    if !sig.has_tilt {
        return GuideLine {
            text: "This pen does not report tilt — tilt mappings have no effect".to_owned(),
            weak: true,
        };
    }
    match m.tilt_cc {
        Some(tilt) => {
            let axis = match tilt.axis {
                TiltAxis::X => "X",
                TiltAxis::Y => "Y",
            };
            GuideLine {
                text: "Tilt → CC".to_owned().concat(decimal(tilt.controller as u64).as_str()).concat(
                    " (tilt ",
                ).concat(axis).concat(")"),
                weak: false,
            }
        },
        None => GuideLine {
            text: "Tilt available — enable \"tilt → CC\" in the Expression panel".to_owned(),
            weak: true,
        },
    }
}

/// The lines that introduce a pen. `bend_text` is the drag bend of the mapping,
/// written out.
pub fn pen_guide_bullets(sig: &PenSignature, m: &MidiMapping, keymap: &Keymap, bend_text: &str) -> (r: Vec<GuideLine>)
    ensures
        lines_view(r@) == guide_lines(sig@, *m, keymap@, bend_text@),
{
    let mut lines: Vec<GuideLine> = Vec::new();
    add_line(
        &mut lines,
        "Tip — strike a pad to play; ".to_owned().concat(velocity_label(m.velocity).as_str()),
        false,
    );
    if m.pressure_to_channel_pressure {
        add_line(&mut lines, "Pressure while held → channel pressure".to_owned(), false);
    }
    if Double::zero().lt(m.y_bend_semitones) {
        add_line(
            &mut lines,
            "Drag up/down → pitch bend (±".to_owned().concat(bend_text).concat(" st)"),
            false,
        );
    }
    if m.x_to_cc74 {
        add_line(&mut lines, "Drag left/right → CC74 (timbre)".to_owned(), false);
    }
    let tilt = tilt_label(sig, m);
    add_line(&mut lines, tilt.text, tilt.weak);
    if sig.has_tangent_pressure {
        add_line(
            &mut lines,
            "Airbrush wheel detected (tangent pressure) — captured, not yet mapped".to_owned(),
            true,
        );
    }
    let barrel = button_label("Barrel button", PenButton::Barrel, keymap);
    add_line(&mut lines, barrel.text, barrel.weak);
    let eraser = button_label("Eraser", PenButton::Eraser, keymap);
    add_line(&mut lines, eraser.text, eraser.weak);
    proof {
        assert(lines_view(lines@) =~= guide_lines(sig@, *m, keymap@, bend_text@));
    }
    lines
}

/// The guide begins with how a note is struck, and how loud it is.
pub proof fn guides_begin_with_the_strike(
    sig: PenSignature,
    m: MidiMapping,
    keymap: Keymap,
    bend: &str,
    r: Vec<GuideLine>,
    low: u8,
    high: u8,
    low_number: String,
    high_number: String,
)
    requires
        call_ensures(pen_guide_bullets, (&sig, &m, &keymap, bend), r),
        call_ensures(decimal, (low as u64,), low_number),
        call_ensures(decimal, (high as u64,), high_number),
    ensures
        r@.len() > 0,
        m.velocity == VelocitySource::Fixed(low) ==> r@[0].text@ == "Tip — strike a pad to play; "@ + (
        "velocity fixed at "@ + low_number@),
        m.velocity == (VelocitySource::Pressure { min: low, max: high }) ==> r@[0].text@ == "Tip — strike a pad to play; "@
            + ("velocity from strike pressure ("@ + low_number@ + "–"@ + high_number@ + ")"@),
{
    assert(lines_view(r@).len() == r@.len());
    assert(lines_view(r@)[0] == r@[0]@);
}

/// A pen was seen where one of those before is the same.
pub proof fn seen_pens_are_the_same_as_one(
    seen: Vec<PenSignature>,
    sig: PenSignature,
    r: bool,
    i: int,
    same: bool,
)
    requires
        call_ensures(is_seen, (&seen, &sig), r),
        0 <= i < seen@.len(),
        call_ensures(PenSignature::same, (&seen@[i], &sig), same),
    ensures
        same ==> r,
        r ==> exists|k: int| 0 <= k < seen@.len() && (#[trigger] seen@[k])@ == sig@,
{
    if same {
        assert(is_among(seen@, sig@));
    }
}

} // verus!
