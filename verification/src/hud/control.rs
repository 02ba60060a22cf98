//! What holds of everything that controls the display: its arguments, the
//! editor of its bindings, and the pens that it notices.
//!
//! The laws speak of calls: of what went in and what came out.
use vstd::prelude::*;

use crate::consumer::source::SourceView;
use crate::device::sample::PenSample;
use crate::double::Double;
use crate::hud::actions::Action;
use crate::hud::bindings::{
    bound_actions_show_their_chord, bound_chords_resolve, cleared_actions_are_unbound, ChordView, InputChord, Keymap,
    PenButton,
};
use crate::hud::cli::{
    arguments_after, default_args, first_argument, format_label, raw_view, Args, ArgsView, ParseError, ParseErrorView,
    ParsingView, RawArg,
};
use crate::hud::pen_guide::{
    lines_view, pen_guide_bullets, GuideLine, PenSignature, PenTracker, TrackerView,
};
use crate::hud::settings::{binding_text, pen_presses, BindingEditor, ChordOutcome, EditorView};
use crate::midi::mapping::MidiMapping;
use crate::stream::Format;
use crate::text::decimal;

verus! {

/// A closed window does not listen, and an opened one goes on as it was.
pub proof fn closing_ends_the_listening(editor: &mut BindingEditor, open: bool)
    requires
        call_ensures(BindingEditor::show, (editor, open), ()),
    ensures
        final(editor)@.open == open,
        !open ==> final(editor)@.listening is None,
        open ==> final(editor)@.listening == old(editor)@.listening,
        final(editor)@.status == old(editor)@.status,
{
}

/// The chord after an action was chosen is bound to it: it triggers the action
/// from then on, and is shown as its binding. Escape alone ends the listening and
/// changes no binding.
pub proof fn chosen_actions_get_the_next_chord(
    editor: &mut BindingEditor,
    action: Action,
    listening: &mut BindingEditor,
    keymap: &mut Keymap,
    chord: InputChord,
    r: ChordOutcome,
    triggered: Option<Action>,
    row: String,
    label: String,
    bound: &mut Keymap,
    displaced: Option<Action>,
)
    requires
        call_ensures(BindingEditor::listen, (editor, action), ()),
        old(listening)@ == final(editor)@,
        call_ensures(BindingEditor::on_chord, (listening, keymap, chord), r),
        call_ensures(Keymap::resolve, (final(keymap), &chord), triggered),
        call_ensures(binding_text, (final(keymap), action), row),
        call_ensures(InputChord::label, (&chord,), label),
        old(bound)@ == old(keymap)@,
        call_ensures(Keymap::bind, (bound, chord, action), displaced),
    ensures
        final(editor)@.open == old(editor)@.open,
        final(editor)@.listening == Some(action),
        final(editor)@.status is None,
        final(listening)@.listening is None,
        final(listening)@.open == old(editor)@.open,
        ({
            let escape = chord@ == ChordView::Key { name: "Escape"@, ctrl: false, shift: false, alt: false };
            &&& escape ==> r is Cancelled && final(keymap)@ == old(keymap)@ && final(listening)@.status is None
            &&& !escape ==> {
                &&& r == ChordOutcome::Bound { action, displaced }
                &&& triggered == Some(action)
                &&& row@ == label@
                &&& final(keymap)@ == final(bound)@
                &&& final(listening)@.status is Some
            }
        }),
{
    bound_chords_resolve(old(keymap)@, chord@, action);
    bound_actions_show_their_chord(old(keymap)@, chord@, action);
}

/// While nothing is chosen a chord triggers what it is bound to, and changes
/// nothing.
pub proof fn chords_trigger_while_nothing_listens(
    editor: &mut BindingEditor,
    keymap: &mut Keymap,
    chord: InputChord,
    r: ChordOutcome,
    bound: Option<Action>,
)
    requires
        old(editor)@.listening is None,
        call_ensures(BindingEditor::on_chord, (editor, keymap, chord), r),
        call_ensures(Keymap::resolve, (old(keymap), &chord), bound),
    ensures
        final(editor)@ == old(editor)@,
        final(keymap)@ == old(keymap)@,
        bound matches Some(action) ==> r == ChordOutcome::Triggers(action),
        bound is None ==> r is Ignored,
{
}

/// Clearing an action in the editor clears it in the keymap, and its row says so.
/// Stopping to listen changes nothing else.
pub proof fn cleared_rows_say_so(
    editor: &mut BindingEditor,
    keymap: &mut Keymap,
    action: Action,
    same: &mut Keymap,
    row: String,
    label: &'static str,
    stopped: &mut BindingEditor,
)
    requires
        call_ensures(BindingEditor::clear, (editor, keymap, action), ()),
        old(same)@ == old(keymap)@,
        call_ensures(Keymap::clear, (same, action), ()),
        call_ensures(binding_text, (final(keymap), action), row),
        call_ensures(Action::label, (action,), label),
        call_ensures(BindingEditor::stop_listening, (stopped,), ()),
    ensures
        final(keymap)@ == final(same)@,
        row@ == "unbound"@,
        final(editor)@ == (EditorView { status: Some(label@ + " unbound"@), ..old(editor)@ }),
        final(stopped)@ == (EditorView { listening: None, ..old(stopped)@ }),
{
    cleared_actions_are_unbound(old(keymap)@, action);
}

/// A reset gives the keymap that nobody has changed, whatever was bound.
pub proof fn resets_give_the_first_keymap(editor: &mut BindingEditor, keymap: &mut Keymap, fresh: Keymap)
    requires
        call_ensures(BindingEditor::reset, (editor, keymap), ()),
        call_ensures(<Keymap as Default>::default, (), fresh),
    ensures
        final(keymap)@ == fresh@,
        final(editor)@.listening is None,
        final(editor)@.open == old(editor)@.open,
        final(editor)@.status == Some("bindings reset to defaults"@),
{
}

/// An editor starts closed and idle.
pub proof fn editors_start_closed(editor: BindingEditor)
    requires
        call_ensures(<BindingEditor as Default>::default, (), editor),
    ensures
        !editor@.open,
        editor@.listening is None,
        editor@.status is None,
{
}

/// A button of the pen is pressed where its bit is set now and was not before:
/// the second bit is the barrel button, the third the eraser.
pub proof fn presses_are_bits_that_were_set(before: u32, now: u32, r: Vec<PenButton>, button: PenButton)
    requires
        call_ensures(pen_presses, (before, now), r),
    ensures
        r@.contains(PenButton::Barrel) <==> (now / 2) % 2 == 1 && (before / 2) % 2 == 0,
        r@.contains(PenButton::Eraser) <==> (now / 4) % 2 == 1 && (before / 4) % 2 == 0,
        r@.no_duplicates(),
{
    if (now / 2) % 2 == 1 && (before / 2) % 2 == 0 {
        assert(r@[0] == PenButton::Barrel);
    }
    if (now / 4) % 2 == 1 && (before / 4) % 2 == 0 {
        assert(r@.last() == PenButton::Eraser);
    }
}

/// Does parsing some arguments leave this?
pub open spec fn gives(raw: Vec<Option<String>>, r: Result<ArgsView, ParseErrorView>) -> bool {
    exists|result: Result<Args, ParseError>| #[trigger]
        call_ensures(Args::parse_from, (&raw,), result) && r == match result {
            Ok(args) => Ok::<ArgsView, ParseErrorView>(args@),
            Err(error) => Err(error@),
        }
}

/// What was asked for, and named, after arguments that go through.
pub open spec fn state_after(raw: Seq<RawArg>, so_far: ParsingView) -> ParsingView
    decreases raw.len(),
{
    if raw.len() == 0 {
        so_far
    } else {
        match first_argument(raw, so_far) {
            Ok((after, taken)) => state_after(
                raw.skip(
                    if taken == 1 {
                        1
                    } else {
                        2
                    },
                ),
                after,
            ),
            Err(_) => so_far,
        }
    }
}

/// Arguments that go through are followed by others as if those came alone.
proof fn lemma_arguments_in_parts(front: Seq<RawArg>, tail: Seq<RawArg>, so_far: ParsingView)
    requires
        arguments_after(front, so_far) is Ok,
    ensures
        arguments_after(front, so_far) == Ok::<ArgsView, ParseErrorView>(state_after(front, so_far).args),
        arguments_after(front + tail, so_far) == arguments_after(tail, state_after(front, so_far)),
    decreases front.len(),
{
    let all = front + tail;
    if front.len() == 0 {
        assert(all =~= tail);
    } else {
        assert(all[0] == front[0]);
        if front.len() > 1 {
            assert(all.skip(1)[0] == front.skip(1)[0]);
        }
        let (after, taken) = first_argument(front, so_far)->Ok_0;
        assert(first_argument(all, so_far) == first_argument(front, so_far));
        let n: int = if taken == 1 {
            1
        } else {
            2
        };
        lemma_taken(front, so_far);
        assert(all.skip(n) =~= front.skip(n) + tail);
        lemma_arguments_in_parts(front.skip(n), tail, after);
    }
}

/// An argument takes no more than there is.
proof fn lemma_taken(raw: Seq<RawArg>, so_far: ParsingView)
    requires
        raw.len() > 0,
        first_argument(raw, so_far) is Ok,
    ensures
        ({
            let taken = (first_argument(raw, so_far)->Ok_0).1;
            (taken == 1 || taken == 2) && taken <= raw.len()
        }),
{
}

/// The source that is read is standard input or the one that was named.
proof fn lemma_named_source(raw: Seq<RawArg>, so_far: ParsingView)
    requires
        so_far.args.source is Stdin || so_far.named == Some(so_far.args.source),
        arguments_after(raw, so_far) is Ok,
    ensures
        ({
            let state = state_after(raw, so_far);
            state.args.source is Stdin || state.named == Some(state.args.source)
        }),
    decreases raw.len(),
{
    if raw.len() > 0 {
        let (after, taken) = first_argument(raw, so_far)->Ok_0;
        lemma_named_source(
            raw.skip(
                if taken == 1 {
                    1
                } else {
                    2
                },
            ),
            after,
        );
    }
}

/// The flags are told apart by their characters.
proof fn lemma_flags()
    ensures
        "--stdin"@ != "--spawn"@,
        "--stdin"@ != "--tcp"@,
        "--stdin"@ != "--pipe"@,
        "--stdin"@ != "--format"@,
        "--stdin"@ != "--profile"@,
        "--stdin"@ != "--mapping"@,
        "--stdin"@ != "--midi-port"@,
        "--spawn"@ != "--tcp"@,
        "--spawn"@ != "--pipe"@,
        "--spawn"@ != "--format"@,
        "--spawn"@ != "--profile"@,
        "--spawn"@ != "--mapping"@,
        "--spawn"@ != "--midi-port"@,
        "--tcp"@ != "--pipe"@,
        "--tcp"@ != "--format"@,
        "--tcp"@ != "--profile"@,
        "--tcp"@ != "--mapping"@,
        "--tcp"@ != "--midi-port"@,
        "--pipe"@ != "--format"@,
        "--pipe"@ != "--profile"@,
        "--pipe"@ != "--mapping"@,
        "--pipe"@ != "--midi-port"@,
        "--format"@ != "--profile"@,
        "--format"@ != "--mapping"@,
        "--format"@ != "--midi-port"@,
        "--profile"@ != "--mapping"@,
        "--profile"@ != "--midi-port"@,
        "--mapping"@ != "--midi-port"@,
{
    reveal_strlit("--stdin");
    reveal_strlit("--spawn");
    reveal_strlit("--tcp");
    reveal_strlit("--pipe");
    reveal_strlit("--format");
    reveal_strlit("--profile");
    reveal_strlit("--mapping");
    reveal_strlit("--midi-port");
    assert("--stdin"@.len() == 7 && "--spawn"@.len() == 7 && "--tcp"@.len() == 5 && "--pipe"@.len() == 6);
    assert("--format"@.len() == 8 && "--profile"@.len() == 9 && "--mapping"@.len() == 9 && "--midi-port"@.len() == 11);
    assert("--stdin"@[3] == 't' && "--spawn"@[3] == 'p');
    assert("--profile"@[2] == 'p' && "--mapping"@[2] == 'm');
}

/// What was asked for with one part of it replaced by that of another.
pub open spec fn agrees_but_for(
    before: ArgsView,
    after: ArgsView,
    source: bool,
    format: bool,
    spawn: bool,
    profile: bool,
    mapping: bool,
    midi_port: bool,
) -> bool {
    &&& !source ==> after.source == before.source
    &&& !format ==> after.format == before.format
    &&& !spawn ==> after.spawn == before.spawn
    &&& !profile ==> after.profile == before.profile
    &&& !mapping ==> after.mapping == before.mapping
    &&& !midi_port ==> after.midi_port == before.midi_port
}

/// A flag without a value, after arguments that go through, asks for its own
/// thing and leaves what was asked for before.
pub proof fn last_flags_ask_for_their_thing(
    front: Vec<Option<String>>,
    before: ArgsView,
    whole: Vec<Option<String>>,
    flag: Seq<char>,
    r: Result<ArgsView, ParseErrorView>,
)
    requires
        gives(front, Ok(before)),
        raw_view(whole@) == raw_view(front@) + seq![Some(flag)],
        gives(whole, r),
    ensures
        flag == "--spawn"@ ==> (r matches Ok(after) && after.spawn && agrees_but_for(
            before,
            after,
            false,
            false,
            true,
            false,
            false,
            false,
        )),
        flag == "--stdin"@ ==> (r matches Ok(after) && after.source is Stdin && agrees_but_for(
            before,
            after,
            true,
            false,
            false,
            false,
            false,
            false,
        )),
        flag == "--tcp"@ || flag == "--pipe"@ || flag == "--format"@ || flag == "--profile"@ || flag == "--mapping"@ || flag
            == "--midi-port"@ ==> r == Err::<ArgsView, _>(ParseErrorView::MissingValue { flag }),
        flag.len() == 0 || flag[0] != '-' ==> r == Err::<ArgsView, _>(ParseErrorView::UnexpectedArgument(flag)),
        flag.len() > 0 && flag[0] == '-' && flag != "--spawn"@ && flag != "--stdin"@ && flag != "--tcp"@ && flag != "--pipe"@
            && flag != "--format"@ && flag != "--profile"@ && flag != "--mapping"@ && flag != "--midi-port"@ ==> r == Err::<
            ArgsView,
            _,
        >(ParseErrorView::UnknownFlag(flag)),
{
    lemma_flags();
    let start = ParsingView { args: default_args(), named: None };
    let tail = seq![Some(flag)];
    lemma_arguments_in_parts(raw_view(front@), tail, start);
    let state = state_after(raw_view(front@), start);
    assert(tail.skip(1).len() == 0);
    reveal_with_fuel(arguments_after, 2);
    reveal_strlit("--stdin");
    reveal_strlit("--spawn");
    reveal_strlit("--tcp");
    reveal_strlit("--pipe");
    reveal_strlit("--format");
    reveal_strlit("--profile");
    reveal_strlit("--mapping");
    reveal_strlit("--midi-port");
}

/// A flag and its value, after arguments that go through, ask for their own thing
/// and leave what was asked for before. A value that looks like a flag is none.
pub proof fn last_values_win(
    front: Vec<Option<String>>,
    before: ArgsView,
    whole: Vec<Option<String>>,
    flag: Seq<char>,
    value: Seq<char>,
    r: Result<ArgsView, ParseErrorView>,
)
    requires
        gives(front, Ok(before)),
        raw_view(whole@) == raw_view(front@) + seq![Some(flag), Some(value)],
        gives(whole, r),
        flag == "--tcp"@ || flag == "--pipe"@ || flag == "--format"@ || flag == "--profile"@ || flag == "--mapping"@ || flag
            == "--midi-port"@,
    ensures
        value.len() > 0 && value[0] == '-' ==> r == Err::<ArgsView, _>(ParseErrorView::MissingValue { flag }),
        value.len() == 0 || value[0] != '-' ==> {
            &&& flag == "--profile"@ ==> (r matches Ok(after) && after.profile == Some(value) && agrees_but_for(
                before,
                after,
                false,
                false,
                false,
                true,
                false,
                false,
            ))
            &&& flag == "--mapping"@ ==> (r matches Ok(after) && after.mapping == Some(value) && agrees_but_for(
                before,
                after,
                false,
                false,
                false,
                false,
                true,
                false,
            ))
            &&& flag == "--midi-port"@ ==> (r matches Ok(after) && after.midi_port == Some(value) && agrees_but_for(
                before,
                after,
                false,
                false,
                false,
                false,
                false,
                true,
            ))
            &&& flag == "--format"@ ==> {
                &&& r is Ok <==> value == "postcard"@ || value == "json"@
                &&& r matches Ok(after) ==> agrees_but_for(before, after, false, true, false, false, false, false) && (
                after.format is Json <==> value == "json"@)
                &&& r matches Err(error) ==> error == ParseErrorView::InvalidFormat(value)
            }
            &&& flag == "--tcp"@ || flag == "--pipe"@ ==> {
                let source = if flag == "--tcp"@ {
                    SourceView::Tcp(value)
                } else {
                    SourceView::Pipe(value)
                };
                &&& before.source == source ==> r is Ok
                &&& !(before.source is Stdin) && before.source != source ==> r is Err
                &&& r matches Ok(after) ==> after.source == source && agrees_but_for(
                    before,
                    after,
                    true,
                    false,
                    false,
                    false,
                    false,
                    false,
                )
                &&& r matches Err(error) ==> error is ConflictingSources
                &&& front@.len() == 0 ==> r is Ok
            }
        },
{
    lemma_flags();
    let start = ParsingView { args: default_args(), named: None };
    let tail = seq![Some(flag), Some(value)];
    lemma_arguments_in_parts(raw_view(front@), tail, start);
    lemma_named_source(raw_view(front@), start);
    assert(tail.skip(2).len() == 0);
    assert(tail.skip(1)[0] == Some(value));
    reveal_with_fuel(arguments_after, 2);
    reveal_strlit("postcard");
    reveal_strlit("json");
    assert("postcard"@.len() != "json"@.len());
}

/// Without arguments the stream is read from standard input as postcard, and
/// nothing else is asked for. What is no UTF-8 is refused.
pub proof fn nothing_asks_for_standard_input(
    empty: Vec<Option<String>>,
    r: Result<ArgsView, ParseErrorView>,
    garbled: Vec<Option<String>>,
    refused: Result<ArgsView, ParseErrorView>,
)
    requires
        empty@.len() == 0,
        gives(empty, r),
        garbled@.len() > 0,
        garbled@[0] is None,
        gives(garbled, refused),
    ensures
        r == Ok::<_, ParseErrorView>(
            ArgsView {
                source: SourceView::Stdin,
                format: Format::Postcard,
                spawn: false,
                profile: None,
                mapping: None,
                midi_port: None,
            },
        ),
        refused == Err::<ArgsView, _>(ParseErrorView::NonUtf8Argument),
{
    assert(raw_view(empty@).len() == 0);
    assert(raw_view(garbled@)[0] is None);
}

/// Messages quote what they are about.
pub proof fn refusals_quote_the_argument(error: ParseError, r: String)
    requires
        call_ensures(ParseError::message, (&error,), r),
    ensures
        error matches ParseError::MissingValue { flag } ==> r@ == "missing value for "@ + flag@,
        error matches ParseError::InvalidFormat(value) ==> r@ == "invalid --format '"@ + value@
            + "', expected postcard or json"@,
        error is ConflictingSources ==> r@ == "only one of --tcp or --pipe may be specified"@,
        error matches ParseError::UnknownFlag(flag) ==> r@ == "unknown flag "@ + flag@,
        error matches ParseError::UnexpectedArgument(arg) ==> r@ == "unexpected argument "@ + arg@,
        error is NonUtf8Argument ==> r@ == "arguments must be valid UTF-8"@,
{
}

/// The label of a format is the value that asks for it.
pub proof fn format_labels_are_their_value(format: Format, r: &'static str)
    requires
        call_ensures(format_label, (format,), r),
    ensures
        format is Postcard ==> r@ == "postcard"@,
        format is Json ==> r@ == "json"@,
{
}

/// A signature has the cursor of its sample, and the features whose axes the
/// sample reports.
pub proof fn signatures_have_the_features_of_the_sample(sample: PenSample, name: &str, r: PenSignature)
    requires
        call_ensures(PenSignature::of, (&sample, name), r),
    ensures
        r@.device_name == name@,
        r@.tool_serial == sample.tool_serial,
        r@.has_tilt <==> sample.tilt_x_deg is Some || sample.tilt_y_deg is Some,
        r@.has_twist <==> sample.twist_deci_deg is Some,
        r@.has_tangent_pressure <==> sample.tangent_pressure_raw is Some,
        r@.has_rotation <==> sample.rotation_deci_deg is Some,
{
}

/// The subtitle names pressure and each feature of the pen, in a fixed order.
pub proof fn subtitles_name_the_features(sig: PenSignature, r: String)
    requires
        call_ensures(PenSignature::features_label, (&sig,), r),
    ensures
        r@ == "pressure"@ + (if sig.has_tilt {
            " · tilt"@
        } else {
            Seq::empty()
        }) + (if sig.has_twist {
            " · twist"@
        } else {
            Seq::empty()
        }) + (if sig.has_tangent_pressure {
            " · airbrush wheel"@
        } else {
            Seq::empty()
        }) + (if sig.has_rotation {
            " · rotation"@
        } else {
            Seq::empty()
        }),
{
}

/// Pens are the same where nothing tells them apart.
pub proof fn pens_are_the_same_by_their_parts(a: PenSignature, b: PenSignature, same: bool)
    requires
        call_ensures(PenSignature::same, (&a, &b), same),
    ensures
        same <==> a.device_name@ == b.device_name@ && a.tool_serial == b.tool_serial && a.has_tilt == b.has_tilt && a.has_twist
            == b.has_twist && a.has_tangent_pressure == b.has_tangent_pressure && a.has_rotation == b.has_rotation,
{
}

/// Another pen is reported at its eighth sample in a row, and is in use from then
/// on. The pen in use is never reported, and any other pen starts the count anew.
pub proof fn pens_are_reported_at_the_eighth_sample(
    tracker: &mut PenTracker,
    sig: PenSignature,
    r: Option<PenSignature>,
    current: Option<&PenSignature>,
    count: int,
)
    requires
        call_ensures(PenTracker::observe, (tracker, sig), r),
        call_ensures(PenTracker::current, (final(tracker),), current),
        count == match old(tracker)@.candidate {
            Some((pen, n)) => if pen == sig@ {
                n
            } else {
                0
            },
            None => 0,
        },
    ensures
        old(tracker)@.current == Some(sig@) ==> r is None && final(tracker)@ == (TrackerView {
            current: Some(sig@),
            candidate: None,
        }),
        old(tracker)@.current != Some(sig@) && count >= 7 ==> r is Some && r->0@ == sig@ && final(tracker)@ == (TrackerView {
            current: Some(sig@),
            candidate: None,
        }),
        old(tracker)@.current != Some(sig@) && count < 7 ==> r is None && final(tracker)@ == (TrackerView {
            current: old(tracker)@.current,
            candidate: Some((sig@, count + 1)),
        }),
        current is Some <==> final(tracker)@.current is Some,
        current matches Some(pen) ==> final(tracker)@.current == Some(pen@),
{
}

/// A tracker starts without a pen.
pub proof fn trackers_start_without_a_pen(tracker: PenTracker)
    requires
        call_ensures(<PenTracker as Default>::default, (), tracker),
    ensures
        tracker@.current is None,
        tracker@.candidate is None,
{
}

/// Does the guide hold this line?
pub open spec fn has_line(lines: Seq<GuideLine>, text: Seq<char>, weak: bool) -> bool {
    exists|i: int| 0 <= i < lines.len() && (#[trigger] lines[i]).text@ == text && lines[i].weak == weak
}

/// The line at a place, by the characters of the lines.
proof fn lemma_line(lines: Seq<GuideLine>, i: int)
    requires
        0 <= i < lines.len(),
    ensures
        has_line(lines, lines_view(lines)[i].text, lines_view(lines)[i].weak),
{
    assert(lines_view(lines)[i] == lines[i]@);
}

/// The guide tells how a note is struck, then what each axis that is mapped does,
/// then what tilting does, and last what the two buttons do. A line that only
/// hints at something is weak.
pub proof fn guides_tell_what_the_pen_does(
    sig: PenSignature,
    m: MidiMapping,
    keymap: Keymap,
    bend: &str,
    r: Vec<GuideLine>,
    barrel: Option<Action>,
    eraser: Option<Action>,
    bends: bool,
)
    requires
        call_ensures(pen_guide_bullets, (&sig, &m, &keymap, bend), r),
        call_ensures(Keymap::resolve, (&keymap, &InputChord::Pen(PenButton::Barrel)), barrel),
        call_ensures(Keymap::resolve, (&keymap, &InputChord::Pen(PenButton::Eraser)), eraser),
        call_ensures(Double::lt, (Double { bits: 0 }, m.y_bend_semitones), bends),
    ensures
        r@.len() == 4 + (if m.pressure_to_channel_pressure {
            1int
        } else {
            0
        }) + (if bends {
            1int
        } else {
            0
        }) + (if m.x_to_cc74 {
            1int
        } else {
            0
        }) + (if sig.has_tangent_pressure {
            1int
        } else {
            0
        }),
        !r@[0].weak,
        m.pressure_to_channel_pressure ==> has_line(r@, "Pressure while held → channel pressure"@, false),
        bends ==> has_line(r@, "Drag up/down → pitch bend (±"@ + bend@ + " st)"@, false),
        m.x_to_cc74 ==> has_line(r@, "Drag left/right → CC74 (timbre)"@, false),
        sig.has_tangent_pressure ==> has_line(
            r@,
            "Airbrush wheel detected (tangent pressure) — captured, not yet mapped"@,
            true,
        ),
        !sig.has_tilt ==> has_line(r@, "This pen does not report tilt — tilt mappings have no effect"@, true),
        sig.has_tilt && m.tilt_cc is None ==> has_line(
            r@,
            "Tilt available — enable \"tilt → CC\" in the Expression panel"@,
            true,
        ),
        r@[r@.len() - 2].weak <==> barrel is None,
        r@[r@.len() - 1].weak <==> eraser is None,
{
    let lines = lines_view(r@);
    let second: int = 1;
    let third: int = second + if m.pressure_to_channel_pressure {
        1int
    } else {
        0
    };
    let fourth: int = third + if bends {
        1int
    } else {
        0
    };
    let tilt: int = fourth + if m.x_to_cc74 {
        1int
    } else {
        0
    };
    assert(lines.len() == r@.len());
    assert(lines[0] == r@[0]@);
    assert(lines[r@.len() - 2] == r@[r@.len() - 2]@);
    assert(lines[r@.len() - 1] == r@[r@.len() - 1]@);
    lemma_line(r@, second);
    lemma_line(r@, third);
    lemma_line(r@, fourth);
    lemma_line(r@, tilt);
    lemma_line(r@, tilt + 1);
}

/// The guide names the action of each button, and the controller that tilting
/// moves with its axis.
pub proof fn guides_name_actions_and_controllers(
    sig: PenSignature,
    m: MidiMapping,
    keymap: Keymap,
    bend: &str,
    r: Vec<GuideLine>,
    barrel: Option<Action>,
    eraser: Option<Action>,
    barrel_label: &'static str,
    eraser_label: &'static str,
    number: String,
)
    requires
        call_ensures(pen_guide_bullets, (&sig, &m, &keymap, bend), r),
        call_ensures(Keymap::resolve, (&keymap, &InputChord::Pen(PenButton::Barrel)), barrel),
        call_ensures(Keymap::resolve, (&keymap, &InputChord::Pen(PenButton::Eraser)), eraser),
        barrel is Some ==> call_ensures(Action::label, (barrel->0,), barrel_label),
        eraser is Some ==> call_ensures(Action::label, (eraser->0,), eraser_label),
        m.tilt_cc is Some ==> call_ensures(decimal, ((m.tilt_cc->0).controller as u64,), number),
    ensures
        barrel is Some ==> has_line(r@, "Barrel button"@ + " → "@ + barrel_label@, false),
        barrel is None ==> has_line(r@, "Barrel button"@ + " → unbound — bind in Settings"@, true),
        eraser is Some ==> has_line(r@, "Eraser"@ + " → "@ + eraser_label@, false),
        eraser is None ==> has_line(r@, "Eraser"@ + " → unbound — bind in Settings"@, true),
        sig.has_tilt && m.tilt_cc is Some ==> has_line(
            r@,
            "Tilt → CC"@ + number@ + " (tilt "@ + (if (m.tilt_cc->0).axis is X {
                "X"@
            } else {
                "Y"@
            }) + ")"@,
            false,
        ),
{
    let lines = lines_view(r@);
    assert(lines.len() == r@.len());
    let bends = Double::zero_spec().less(m.y_bend_semitones);
    let tilt: int = 1 + (if m.pressure_to_channel_pressure {
        1int
    } else {
        0
    }) + (if bends {
        1int
    } else {
        0
    }) + (if m.x_to_cc74 {
        1int
    } else {
        0
    });
    lemma_line(r@, r@.len() - 2);
    lemma_line(r@, r@.len() - 1);
    lemma_line(r@, tilt);
}

} // verus!
