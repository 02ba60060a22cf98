//! Input chords and the keymap that binds them to actions.
//!
//! A chord is written as readable text, such as `Ctrl+Shift+T`, `PageUp`,
//! `pen:barrel` or `tablet:3`, so that settings files can be edited by hand.
use vstd::prelude::*;
use vstd::string::{StrSliceExecFns, StringExecFns};

use crate::hud::actions::{action_named, id_text, ids_are_unique, ids_round_trip, Action};
use crate::text::{
    decimal, decimal_round_trip, decimal_text, has_prefix, parse_u8, same_text, strip_prefix, unsigned_value,
};

verus! {

/// Button bit of the barrel switch in a pen sample.
pub const PEN_BUTTON_BIT_BARREL: u32 = 1;

/// Button bit of the eraser switch in a pen sample.
pub const PEN_BUTTON_BIT_ERASER: u32 = 2;

/// A stylus button that can be bound. The tip plays notes.
#[derive(Clone, Copy, Debug, PartialEq, Eq, Structural)]
pub enum PenButton {
    Barrel,
    Eraser,
}

impl PenButton {
    /// The bit that carries the button in a pen sample.
    pub fn bit(self) -> (r: u32)
        ensures
            r == match self {
                PenButton::Barrel => PEN_BUTTON_BIT_BARREL,
                PenButton::Eraser => PEN_BUTTON_BIT_ERASER,
            },
    {
        match self {
            PenButton::Barrel => PEN_BUTTON_BIT_BARREL,
            PenButton::Eraser => PEN_BUTTON_BIT_ERASER,
        }
    }
}

/// The name of the key that `text` names, if it names one: the composition of
/// `egui::Key::from_name` and `egui::Key::name`.
pub uninterp spec fn key_lookup(text: Seq<char>) -> Option<Seq<char>>;

/// Is `c` an ASCII letter or digit?
pub open spec fn is_alphanumeric(c: char) -> bool {
    ('0' <= c && c <= '9') || ('A' <= c && c <= 'Z') || ('a' <= c && c <= 'z')
}

/// Is `name` made of letters and digits alone?
pub open spec fn is_plain(name: Seq<char>) -> bool {
    name.len() > 0 && forall|i: int| 0 <= i < name.len() ==> is_alphanumeric(#[trigger] name[i])
}

/// Is `name` the name of a key?
pub open spec fn is_key_name(name: Seq<char>) -> bool {
    is_plain(name) && key_lookup(name) == Some(name)
}

/// Is `text` one of the names that the default keymap uses?
pub open spec fn is_default_key(text: Seq<char>) -> bool {
    text == "Escape"@ || text == "T"@ || text == "PageUp"@ || text == "PageDown"@
}

/// Calls `egui::Key::from_name` and, on the key that it finds,
/// `egui::Key::name`. Trusted: both depend on nothing but their argument; a
/// name finds the key that it came from; names are made of ASCII letters and
/// digits; and `Escape`, `T`, `PageUp` and `PageDown` are names.
#[verifier::external_body]
fn lookup_key(text: &str) -> (r: Option<String>)
    ensures
        match r {
            Some(name) => key_lookup(text@) == Some(name@) && is_key_name(name@),
            None => key_lookup(text@) is None,
        },
        is_default_key(text@) ==> r is Some && r->0@ == text@,
{
    match egui::Key::from_name(text) {
        Some(key) => Some(key.name().to_owned()),
        None => None,
    }
}

/// A keyboard key, by its name.
#[derive(Debug, PartialEq, Eq)]
pub struct KeyName {
    name: String,
}

impl View for KeyName {
    type V = Seq<char>;

    closed spec fn view(&self) -> Seq<char> {
        self.name@
    }
}

impl Clone for KeyName {
    fn clone(&self) -> (r: KeyName)
        ensures
            r@ == self@,
    {
        proof {
            use_type_invariant(self);
        }
        KeyName { name: self.name.clone() }
    }
}

impl KeyName {
    #[verifier::type_invariant]
    spec fn named(self) -> bool {
        is_key_name(self.name@)
    }

    /// The key that `text` names. Common other spellings of a key are found
    /// too.
    pub fn from_name(text: &str) -> (r: Option<KeyName>)
        ensures
            match r {
                Some(key) => key_lookup(text@) == Some(key@) && is_key_name(key@),
                None => key_lookup(text@) is None,
            },
            is_default_key(text@) ==> r is Some && r->0@ == text@,
    {
        match lookup_key(text) {
            Some(name) => Some(KeyName { name }),
            None => None,
        }
    }

    /// The name of the key.
    pub fn name(&self) -> (r: &str)
        ensures
            r@ == self@,
            is_key_name(self@),
    {
        proof {
            use_type_invariant(self);
        }
        self.name.as_str()
    }
}

/// An input gesture that a binding can attach to.
#[derive(Clone, Debug, PartialEq, Eq)]
pub enum InputChord {
    /// Key press while the window has the focus.
    Key { key: KeyName, ctrl: bool, shift: bool, alt: bool },
    /// Stylus button press.
    Pen(PenButton),
    /// Tablet button press, by the place of the button.
    Tablet { index: u8 },
}

/// A chord by the name of its key.
pub enum ChordView {
    Key { name: Seq<char>, ctrl: bool, shift: bool, alt: bool },
    Pen(PenButton),
    Tablet { index: u8 },
}

impl View for InputChord {
    type V = ChordView;

    open spec fn view(&self) -> ChordView {
        match self {
            InputChord::Key { key, ctrl, shift, alt } => ChordView::Key {
                name: key@,
                ctrl: *ctrl,
                shift: *shift,
                alt: *alt,
            },
            InputChord::Pen(button) => ChordView::Pen(*button),
            InputChord::Tablet { index } => ChordView::Tablet { index: *index },
        }
    }
}

/// `text`, where it is wanted.
pub open spec fn text_if(wanted: bool, text: Seq<char>) -> Seq<char> {
    if wanted {
        text
    } else {
        Seq::empty()
    }
}

/// The prefix that stands for the control key.
pub open spec fn ctrl_prefix() -> Seq<char> {
    seq!['C', 't', 'r', 'l', '+']
}

/// The prefix that stands for the shift key.
pub open spec fn shift_prefix() -> Seq<char> {
    seq!['S', 'h', 'i', 'f', 't', '+']
}

/// The prefix that stands for the alt key.
pub open spec fn alt_prefix() -> Seq<char> {
    seq!['A', 'l', 't', '+']
}

/// The text of a chord.
pub open spec fn chord_text(chord: ChordView) -> Seq<char> {
    match chord {
        ChordView::Key { name, ctrl, shift, alt } => text_if(ctrl, ctrl_prefix()) + (text_if(shift, shift_prefix()) + (text_if(
            alt,
            alt_prefix(),
        ) + name)),
        ChordView::Pen(PenButton::Barrel) => "pen:barrel"@,
        ChordView::Pen(PenButton::Eraser) => "pen:eraser"@,
        ChordView::Tablet { index } => "tablet:"@ + decimal_text(index as nat),
    }
}

/// The key chord that `text` spells after the modifiers seen so far. Modifiers
/// may stand in any order and more than once.
pub open spec fn key_chord(text: Seq<char>, ctrl: bool, shift: bool, alt: bool) -> Option<ChordView>
    decreases text.len(),
{
    if has_prefix(text, ctrl_prefix()) {
        key_chord(text.skip(5), true, shift, alt)
    } else if has_prefix(text, shift_prefix()) {
        key_chord(text.skip(6), ctrl, true, alt)
    } else if has_prefix(text, alt_prefix()) {
        key_chord(text.skip(4), ctrl, shift, true)
    } else {
        match key_lookup(text) {
            Some(name) => Some(ChordView::Key { name, ctrl, shift, alt }),
            None => None,
        }
    }
}

/// The chord that `text` spells, if it spells one.
pub open spec fn chord_of(text: Seq<char>) -> Option<ChordView> {
    if has_prefix(text, "pen:"@) {
        let rest = text.skip("pen:"@.len() as int);
        if rest == "barrel"@ {
            Some(ChordView::Pen(PenButton::Barrel))
        } else if rest == "eraser"@ {
            Some(ChordView::Pen(PenButton::Eraser))
        } else {
            None
        }
    } else if has_prefix(text, "tablet:"@) {
        match unsigned_value(text.skip("tablet:"@.len() as int)) {
            Some(n) => if n <= 255 {
                Some(ChordView::Tablet { index: n as u8 })
            } else {
                None
            },
            None => None,
        }
    } else {
        key_chord(text, false, false, false)
    }
}

impl InputChord {
    /// A key without modifiers.
    pub fn key(key: KeyName) -> (r: InputChord)
        ensures
            r@ == (ChordView::Key { name: key@, ctrl: false, shift: false, alt: false }),
    {
        InputChord::Key { key, ctrl: false, shift: false, alt: false }
    }

    /// The same chord once more.
    fn clone_chord(&self) -> (r: InputChord)
        ensures
            r@ == self@,
    {
        match self {
            InputChord::Key { key, ctrl, shift, alt } => InputChord::Key {
                key: key.clone(),
                ctrl: *ctrl,
                shift: *shift,
                alt: *alt,
            },
            InputChord::Pen(button) => InputChord::Pen(*button),
            InputChord::Tablet { index } => InputChord::Tablet { index: *index },
        }
    }

    /// Is this the same chord?
    pub fn same(&self, other: &InputChord) -> (r: bool)
        ensures
            r == (self@ == other@),
    {
        match (self, other) {
            (
                InputChord::Key { key, ctrl, shift, alt },
                InputChord::Key { key: key2, ctrl: ctrl2, shift: shift2, alt: alt2 },
            ) => {
                same_text(key.name(), key2.name()) && *ctrl == *ctrl2 && *shift == *shift2 && *alt == *alt2
            },
            (InputChord::Pen(a), InputChord::Pen(b)) => *a == *b,
            (InputChord::Tablet { index: a }, InputChord::Tablet { index: b }) => *a == *b,
            _ => false,
        }
    }

    /// The text of the chord, as saved and shown.
    pub fn label(&self) -> (r: String)
        ensures
            r@ == chord_text(self@),
    {
        match self {
            InputChord::Key { key, ctrl, shift, alt } => {
                let mut s = String::new();
                proof {
                    reveal_strlit("Ctrl+");
                    reveal_strlit("Shift+");
                    reveal_strlit("Alt+");
                    assert("Ctrl+"@ =~= ctrl_prefix());
                    assert("Shift+"@ =~= shift_prefix());
                    assert("Alt+"@ =~= alt_prefix());
                }
                if *ctrl {
                    s.append("Ctrl+");
                }
                if *shift {
                    s.append("Shift+");
                }
                if *alt {
                    s.append("Alt+");
                }
                s.append(key.name());
                proof {
                    assert(s@ =~= chord_text(self@));
                }
                s
            },
            InputChord::Pen(PenButton::Barrel) => "pen:barrel".to_owned(),
            InputChord::Pen(PenButton::Eraser) => "pen:eraser".to_owned(),
            InputChord::Tablet { index } => "tablet:".to_owned().concat(decimal(*index as u64).as_str()),
        }
    }

    /// The chord that `text` spells.
    pub fn parse(text: &str) -> (r: Option<InputChord>)
        ensures
            match r {
                Some(chord) => chord_of(text@) == Some(chord@),
                None => chord_of(text@) is None,
            },
    {
        if let Some(rest) = strip_prefix(text, "pen:") {
            if same_text(rest, "barrel") {
                return Some(InputChord::Pen(PenButton::Barrel));
            }
            if same_text(rest, "eraser") {
                return Some(InputChord::Pen(PenButton::Eraser));
            }
            return None;
        }
        if let Some(rest) = strip_prefix(text, "tablet:") {
            return match parse_u8(rest) {
                Some(index) => Some(InputChord::Tablet { index }),
                None => None,
            };
        }
        InputChord::parse_key(text)
    }

    fn parse_key(text: &str) -> (r: Option<InputChord>)
        ensures
            match r {
                Some(chord) => key_chord(text@, false, false, false) == Some(chord@),
                None => key_chord(text@, false, false, false) is None,
            },
    {
        let mut rest = text;
        let mut ctrl = false;
        let mut shift = false;
        let mut alt = false;
        loop
            invariant
                key_chord(text@, false, false, false) == key_chord(rest@, ctrl, shift, alt),
            ensures
                key_chord(text@, false, false, false) == key_chord(rest@, ctrl, shift, alt),
                !has_prefix(rest@, ctrl_prefix()),
                !has_prefix(rest@, shift_prefix()),
                !has_prefix(rest@, alt_prefix()),
            decreases rest@.len(),
        {
            proof {
                reveal_strlit("Ctrl+");
                reveal_strlit("Shift+");
                reveal_strlit("Alt+");
                assert("Ctrl+"@ =~= ctrl_prefix());
                assert("Shift+"@ =~= shift_prefix());
                assert("Alt+"@ =~= alt_prefix());
            }
            if let Some(r) = strip_prefix(rest, "Ctrl+") {
                ctrl = true;
                rest = r;
            } else if let Some(r) = strip_prefix(rest, "Shift+") {
                shift = true;
                rest = r;
            } else if let Some(r) = strip_prefix(rest, "Alt+") {
                alt = true;
                rest = r;
            } else {
                break;
            }
        }
        match KeyName::from_name(rest) {
            Some(key) => Some(InputChord::Key { key, ctrl, shift, alt }),
            None => None,
        }
    }
}

/// Could an input chord be this one? The key of a key chord has a name.
pub open spec fn is_chord(chord: ChordView) -> bool {
    chord matches ChordView::Key { name, .. } ==> is_key_name(name)
}

proof fn lemma_no_colon(name: Seq<char>, ctrl: bool, shift: bool, alt: bool)
    requires
        is_plain(name),
    ensures
        ({
            let text = chord_text(ChordView::Key { name, ctrl, shift, alt });
            forall|i: int| 0 <= i < text.len() ==> #[trigger] text[i] != ':'
        }),
{
    let tail = text_if(alt, alt_prefix()) + name;
    assert forall|i: int| 0 <= i < tail.len() implies #[trigger] tail[i] != ':' by {
        if i >= text_if(alt, alt_prefix()).len() {
            assert(tail[i] == name[i - text_if(alt, alt_prefix()).len()]);
        }
    }
    let middle = text_if(shift, shift_prefix()) + tail;
    assert forall|i: int| 0 <= i < middle.len() implies #[trigger] middle[i] != ':' by {
        if i >= text_if(shift, shift_prefix()).len() {
            assert(middle[i] == tail[i - text_if(shift, shift_prefix()).len()]);
        }
    }
    let text = text_if(ctrl, ctrl_prefix()) + middle;
    assert forall|i: int| 0 <= i < text.len() implies #[trigger] text[i] != ':' by {
        if i >= text_if(ctrl, ctrl_prefix()).len() {
            assert(text[i] == middle[i - text_if(ctrl, ctrl_prefix()).len()]);
        }
    }
}

/// A plain name starts with no modifier.
proof fn lemma_no_modifier(name: Seq<char>)
    requires
        is_plain(name),
    ensures
        !has_prefix(name, ctrl_prefix()),
        !has_prefix(name, shift_prefix()),
        !has_prefix(name, alt_prefix()),
{
    if has_prefix(name, ctrl_prefix()) {
        assert(name.take(5)[4] == name[4]);
    }
    if has_prefix(name, shift_prefix()) {
        assert(name.take(6)[5] == name[5]);
    }
    if has_prefix(name, alt_prefix()) {
        assert(name.take(4)[3] == name[3]);
    }
}

/// The text of a chord spells that chord.
pub proof fn chord_text_round_trip(chord: ChordView)
    requires
        is_chord(chord),
    ensures
        chord_of(chord_text(chord)) == Some(chord),
{
    let text = chord_text(chord);
    reveal_strlit("pen:");
    reveal_strlit("tablet:");
    match chord {
        ChordView::Key { name, ctrl, shift, alt } => {
            lemma_no_colon(name, ctrl, shift, alt);
            if has_prefix(text, "pen:"@) {
                assert("pen:"@[3] == ':');
                assert(text.take(4)[3] == text[3]);
            }
            if has_prefix(text, "tablet:"@) {
                assert("tablet:"@[6] == ':');
                assert(text.take(7)[6] == text[6]);
            }
            let tail = text_if(alt, alt_prefix()) + name;
            let middle = text_if(shift, shift_prefix()) + tail;
            lemma_no_modifier(name);
            assert(key_chord(name, ctrl, shift, alt) == Some(chord));
            if alt {
                assert(tail.take(4) =~= alt_prefix());
                assert(tail.skip(4) =~= name);
                assert(tail[0] == 'A');
                assert(!has_prefix(tail, ctrl_prefix())) by {
                    if has_prefix(tail, ctrl_prefix()) {
                        assert(tail.take(5)[0] == tail[0]);
                    }
                }
                assert(!has_prefix(tail, shift_prefix())) by {
                    if has_prefix(tail, shift_prefix()) {
                        assert(tail.take(6)[0] == tail[0]);
                    }
                }
            } else {
                assert(tail =~= name);
            }
            assert(key_chord(tail, ctrl, shift, false) == Some(chord));
            if shift {
                assert(middle.take(6) =~= shift_prefix());
                assert(middle.skip(6) =~= tail);
                assert(middle[0] == 'S');
                assert(!has_prefix(middle, ctrl_prefix())) by {
                    if has_prefix(middle, ctrl_prefix()) {
                        assert(middle.take(5)[0] == middle[0]);
                    }
                }
            } else {
                assert(middle =~= tail);
            }
            assert(key_chord(middle, ctrl, false, false) == Some(chord));
            if ctrl {
                assert(text.take(5) =~= ctrl_prefix());
                assert(text.skip(5) =~= middle);
            } else {
                assert(text =~= middle);
            }
        },
        ChordView::Pen(button) => {
            reveal_strlit("pen:barrel");
            reveal_strlit("pen:eraser");
            reveal_strlit("barrel");
            reveal_strlit("eraser");
            assert(text.take(4) =~= "pen:"@);
            assert("pen:barrel"@.skip(4) =~= "barrel"@);
            assert("pen:eraser"@.skip(4) =~= "eraser"@);
            assert("barrel"@[0] == 'b');
            assert("eraser"@[0] == 'e');
        },
        ChordView::Tablet { index } => {
            decimal_round_trip(index as nat);
            assert(text.take(7) =~= "tablet:"@);
            assert(text.skip(7) =~= decimal_text(index as nat));
            if has_prefix(text, "pen:"@) {
                assert("pen:"@[0] == 'p');
                assert("tablet:"@[0] == 't');
                assert(text.take(4)[0] == text[0]);
            }
        },
    }
}

/// A saved binding: a chord and the id of the action that it triggers. The id
/// is kept as text, so that unknown ones survive.
#[derive(Clone, Debug, PartialEq, Eq)]
pub struct Binding {
    pub input: InputChord,
    pub action: String,
}

/// A binding by its chord and its id.
pub struct BindingView {
    pub input: ChordView,
    pub action: Seq<char>,
}

impl View for Binding {
    type V = BindingView;

    open spec fn view(&self) -> BindingView {
        BindingView { input: self.input@, action: self.action@ }
    }
}

/// The bindings from chords to actions.
#[derive(Clone, Debug, PartialEq, Eq)]
pub struct Keymap {
    pub bindings: Vec<Binding>,
}

impl View for Keymap {
    type V = Seq<BindingView>;

    open spec fn view(&self) -> Seq<BindingView> {
        self.bindings@.map_values(|b: Binding| b@)
    }
}

/// A plain key chord by the name of its key.
pub open spec fn plain_key(name: Seq<char>) -> ChordView {
    ChordView::Key { name, ctrl: false, shift: false, alt: false }
}

/// The keymap that nobody has changed yet.
pub open spec fn default_bindings() -> Seq<BindingView> {
    seq![
        BindingView { input: plain_key("Escape"@), action: id_text(Action::Panic) },
        BindingView { input: plain_key("T"@), action: id_text(Action::TestNote) },
        BindingView { input: plain_key("PageUp"@), action: id_text(Action::OctaveUp) },
        BindingView { input: plain_key("PageDown"@), action: id_text(Action::OctaveDown) },
    ]
}

fn default_binding(name: &str, action: Action) -> (r: Binding)
    requires
        is_default_key(name@),
    ensures
        r@ == (BindingView { input: plain_key(name@), action: id_text(action) }),
{
    let key = KeyName::from_name(name).unwrap();
    Binding { input: InputChord::key(key), action: action.id().to_owned() }
}

impl Default for Keymap {
    /// Four keys are bound. Pen and tablet buttons start unbound.
    fn default() -> (r: Keymap)
        ensures
            r@ == default_bindings(),
    {
        let r = Keymap {
            bindings: vec![
                default_binding("Escape", Action::Panic),
                default_binding("T", Action::TestNote),
                default_binding("PageUp", Action::OctaveUp),
                default_binding("PageDown", Action::OctaveDown),
            ],
        };
        proof {
            assert(r@ =~= default_bindings());
        }
        r
    }
}

/// The id that the first binding of `chord` holds.
pub open spec fn bound_id(bindings: Seq<BindingView>, chord: ChordView) -> Option<Seq<char>>
    decreases bindings.len(),
{
    if bindings.len() == 0 {
        None
    } else if bindings[0].input == chord {
        Some(bindings[0].action)
    } else {
        bound_id(bindings.skip(1), chord)
    }
}

/// The chord of the first binding that holds `id`.
pub open spec fn bound_chord(bindings: Seq<BindingView>, id: Seq<char>) -> Option<ChordView>
    decreases bindings.len(),
{
    if bindings.len() == 0 {
        None
    } else if bindings[0].action == id {
        Some(bindings[0].input)
    } else {
        bound_chord(bindings.skip(1), id)
    }
}

/// The id that an optional id names an action by.
pub open spec fn named(id: Option<Seq<char>>) -> Option<Action> {
    match id {
        Some(id) => action_named(id),
        None => None,
    }
}

/// The bindings that neither hold `id` nor attach to `chord`.
pub open spec fn without(bindings: Seq<BindingView>, chord: ChordView, id: Seq<char>) -> Seq<BindingView> {
    bindings.filter(|b: BindingView| b.input != chord && b.action != id)
}

/// The bindings after `chord` is bound to `action`.
pub open spec fn with_bound(bindings: Seq<BindingView>, chord: ChordView, action: Action) -> Seq<BindingView> {
    without(bindings, chord, id_text(action)).push(BindingView { input: chord, action: id_text(action) })
}

/// The bindings after `action` is unbound.
pub open spec fn with_cleared(bindings: Seq<BindingView>, action: Action) -> Seq<BindingView> {
    bindings.filter(|b: BindingView| b.action != id_text(action))
}

/// The action that `chord` moves away from when it is bound to `action`.
pub open spec fn displaced_by(bindings: Seq<BindingView>, chord: ChordView, action: Action) -> Option<Action> {
    named(bound_id(bindings.filter(|b: BindingView| b.action != id_text(action)), chord))
}

/// What the last binding adds to a filtered sequence.
proof fn lemma_filter_last(bindings: Seq<BindingView>, keep: spec_fn(BindingView) -> bool)
    requires
        bindings.len() > 0,
    ensures
        bindings.filter(keep) == if keep(bindings.last()) {
            bindings.drop_last().filter(keep).push(bindings.last())
        } else {
            bindings.drop_last().filter(keep)
        },
{
    reveal(Seq::filter);
}

/// What the first binding adds to a filtered sequence.
proof fn lemma_filter_first(bindings: Seq<BindingView>, keep: spec_fn(BindingView) -> bool)
    requires
        bindings.len() > 0,
    ensures
        bindings.filter(keep) =~= if keep(bindings[0]) {
            seq![bindings[0]] + bindings.skip(1).filter(keep)
        } else {
            bindings.skip(1).filter(keep)
        },
    decreases bindings.len(),
{
    lemma_filter_last(bindings, keep);
    if bindings.len() == 1 {
        assert(bindings.drop_last() =~= Seq::<BindingView>::empty());
        assert(bindings.skip(1) =~= Seq::<BindingView>::empty());
        reveal(Seq::filter);
    } else {
        lemma_filter_first(bindings.drop_last(), keep);
        lemma_filter_last(bindings.skip(1), keep);
        assert(bindings.drop_last().skip(1) =~= bindings.skip(1).drop_last());
    }
}

impl Keymap {
    /// The action bound to `chord`. An unknown id triggers nothing.
    pub fn resolve(&self, chord: &InputChord) -> (r: Option<Action>)
        ensures
            r == named(bound_id(self@, chord@)),
    {
        let mut i: usize = 0;
        proof {
            assert(self@.skip(0) =~= self@);
        }
        while i < self.bindings.len()
            invariant
                i <= self.bindings@.len(),
                bound_id(self@, chord@) == bound_id(self@.skip(i as int), chord@),
            decreases self.bindings@.len() - i,
        {
            let b = &self.bindings[i];
            proof {
                assert(self@.skip(i as int)[0] == b@);
                assert(self@.skip(i as int).skip(1) =~= self@.skip(i + 1));
            }
            if b.input.same(chord) {
                return Action::from_id(b.action.as_str());
            }
            i = i + 1;
        }
        None
    }

    /// The chord that `action` is bound to.
    pub fn binding_for(&self, action: Action) -> (r: Option<&InputChord>)
        ensures
            match r {
                Some(chord) => bound_chord(self@, id_text(action)) == Some(chord@),
                None => bound_chord(self@, id_text(action)) is None,
            },
    {
        let mut i: usize = 0;
        proof {
            assert(self@.skip(0) =~= self@);
        }
        while i < self.bindings.len()
            invariant
                i <= self.bindings@.len(),
                bound_chord(self@, id_text(action)) == bound_chord(self@.skip(i as int), id_text(action)),
            decreases self.bindings@.len() - i,
        {
            let b = &self.bindings[i];
            proof {
                assert(self@.skip(i as int)[0] == b@);
                assert(self@.skip(i as int).skip(1) =~= self@.skip(i + 1));
            }
            if same_text(b.action.as_str(), action.id()) {
                return Some(&b.input);
            }
            i = i + 1;
        }
        None
    }

    /// Bind `chord` to `action` in place of what either was bound to. Returns
    /// the action that the chord was moved away from.
    pub fn bind(&mut self, chord: InputChord, action: Action) -> (r: Option<Action>)
        ensures
            r == displaced_by(old(self)@, chord@, action),
            final(self)@ == with_bound(old(self)@, chord@, action),
    {
        let ghost id = id_text(action);
        let ghost keep = |b: BindingView| b.input != chord@ && b.action != id;
        let ghost other = |b: BindingView| b.action != id;
        let ghost all = self@;
        let mut kept: Vec<Binding> = Vec::new();
        let mut displaced: Option<Action> = None;
        let mut seen = false;
        let mut i: usize = 0;
        proof {
            assert(all.take(0) =~= Seq::<BindingView>::empty());
            reveal(Seq::filter);
            assert(kept@.map_values(|b: Binding| b@) =~= Seq::<BindingView>::empty());
        }
        while i < self.bindings.len()
            invariant
                i <= self.bindings@.len(),
                all == self@,
                id == id_text(action),
                keep == (|b: BindingView| b.input != chord@ && b.action != id),
                other == (|b: BindingView| b.action != id),
                kept@.map_values(|b: Binding| b@) == all.take(i as int).filter(keep),
                seen == (bound_id(all.take(i as int).filter(other), chord@) is Some),
                displaced == named(bound_id(all.take(i as int).filter(other), chord@)),
            decreases self.bindings@.len() - i,
        {
            let b = &self.bindings[i];
            let at_chord = b.input.same(&chord);
            let at_action = same_text(b.action.as_str(), action.id());
            proof {
                let now = all.take(i + 1);
                assert(now.last() == b@);
                assert(now.drop_last() =~= all.take(i as int));
                lemma_filter_last(now, keep);
                lemma_filter_last(now, other);
                lemma_bound_push(all.take(i as int).filter(other), b@, chord@);
            }
            if at_chord && !at_action && !seen {
                displaced = Action::from_id(b.action.as_str());
                seen = true;
            }
            if !at_chord && !at_action {
                let copy = Binding { input: b.input.clone_chord(), action: b.action.clone() };
                let ghost before = kept@;
                kept.push(copy);
                proof {
                    assert(kept@.map_values(|b: Binding| b@) =~= before.map_values(|b: Binding| b@).push(b@));
                }
            }
            i = i + 1;
        }
        let ghost before = kept@;
        kept.push(Binding { input: chord, action: action.id().to_owned() });
        self.bindings = kept;
        proof {
            assert(all.take(all.len() as int) =~= all);
            assert(self@ =~= before.map_values(|b: Binding| b@).push(
                BindingView { input: chord@, action: id },
            ));
        }
        displaced
    }

    /// Unbind `action`.
    pub fn clear(&mut self, action: Action)
        ensures
            final(self)@ == with_cleared(old(self)@, action),
    {
        let ghost id = id_text(action);
        let ghost other = |b: BindingView| b.action != id;
        let ghost all = self@;
        let mut kept: Vec<Binding> = Vec::new();
        let mut i: usize = 0;
        proof {
            assert(all.take(0) =~= Seq::<BindingView>::empty());
            reveal(Seq::filter);
            assert(kept@.map_values(|b: Binding| b@) =~= Seq::<BindingView>::empty());
        }
        while i < self.bindings.len()
            invariant
                i <= self.bindings@.len(),
                all == self@,
                id == id_text(action),
                other == (|b: BindingView| b.action != id),
                kept@.map_values(|b: Binding| b@) == all.take(i as int).filter(other),
            decreases self.bindings@.len() - i,
        {
            let b = &self.bindings[i];
            proof {
                let now = all.take(i + 1);
                assert(now.last() == b@);
                assert(now.drop_last() =~= all.take(i as int));
                lemma_filter_last(now, other);
            }
            if !same_text(b.action.as_str(), action.id()) {
                let copy = Binding { input: b.input.clone_chord(), action: b.action.clone() };
                let ghost before = kept@;
                kept.push(copy);
                proof {
                    assert(kept@.map_values(|b: Binding| b@) =~= before.map_values(|b: Binding| b@).push(b@));
                }
            }
            i = i + 1;
        }
        self.bindings = kept;
        proof {
            assert(all.take(all.len() as int) =~= all);
        }
    }
}

/// What a binding added at the end changes for a lookup.
proof fn lemma_bound_push(bindings: Seq<BindingView>, b: BindingView, chord: ChordView)
    ensures
        bound_id(bindings.push(b), chord) == match bound_id(bindings, chord) {
            Some(id) => Some(id),
            None => if b.input == chord {
                Some(b.action)
            } else {
                None
            },
        },
    decreases bindings.len(),
{
    let pushed = bindings.push(b);
    if bindings.len() == 0 {
        assert(pushed.skip(1).len() == 0);
        assert(bound_id(pushed.skip(1), chord) is None);
        assert(pushed[0] == b);
    } else {
        assert(pushed[0] == bindings[0]);
        lemma_bound_push(bindings.skip(1), b, chord);
        assert(pushed.skip(1) =~= bindings.skip(1).push(b));
    }
}

/// What a binding added at the end changes for a lookup by action.
proof fn lemma_chord_push(bindings: Seq<BindingView>, b: BindingView, id: Seq<char>)
    ensures
        bound_chord(bindings.push(b), id) == match bound_chord(bindings, id) {
            Some(chord) => Some(chord),
            None => if b.action == id {
                Some(b.input)
            } else {
                None
            },
        },
    decreases bindings.len(),
{
    let pushed = bindings.push(b);
    if bindings.len() == 0 {
        assert(pushed.skip(1).len() == 0);
        assert(bound_chord(pushed.skip(1), id) is None);
        assert(pushed[0] == b);
    } else {
        assert(pushed[0] == bindings[0]);
        lemma_chord_push(bindings.skip(1), b, id);
        assert(pushed.skip(1) =~= bindings.skip(1).push(b));
    }
}

/// No chord is left for an action whose bindings are filtered out.
proof fn lemma_chord_after_filter(bindings: Seq<BindingView>, keep: spec_fn(BindingView) -> bool, id: Seq<char>)
    requires
        forall|b: BindingView| #[trigger] keep(b) ==> b.action != id,
    ensures
        bound_chord(bindings.filter(keep), id) is None,
    decreases bindings.len(),
{
    if bindings.len() == 0 {
        reveal(Seq::filter);
    } else {
        let front = bindings.drop_last();
        lemma_chord_after_filter(front, keep, id);
        lemma_filter_last(bindings, keep);
        lemma_chord_push(front.filter(keep), bindings.last(), id);
    }
}

/// After a chord is bound to an action, it is the chord of that action.
pub proof fn bound_actions_show_their_chord(bindings: Seq<BindingView>, chord: ChordView, action: Action)
    ensures
        bound_chord(with_bound(bindings, chord, action), id_text(action)) == Some(chord),
{
    let id = id_text(action);
    lemma_chord_after_filter(bindings, |b: BindingView| b.input != chord && b.action != id, id);
    lemma_chord_push(without(bindings, chord, id), BindingView { input: chord, action: id }, id);
}

/// Has every chord at most one binding, and every action too?
pub open spec fn one_to_one(bindings: Seq<BindingView>) -> bool {
    forall|i: int, j: int|
        0 <= i < j < bindings.len() ==> (#[trigger] bindings[i]).input != (#[trigger] bindings[j]).input
            && bindings[i].action != bindings[j].action
}

/// Where the kept bindings of a sequence come from: their order is kept.
proof fn lemma_filter_one_to_one(bindings: Seq<BindingView>, keep: spec_fn(BindingView) -> bool)
    requires
        one_to_one(bindings),
    ensures
        one_to_one(bindings.filter(keep)),
        forall|b: BindingView| #[trigger] bindings.filter(keep).contains(b) ==> bindings.contains(b) && keep(b),
    decreases bindings.len(),
{
    if bindings.len() == 0 {
        reveal(Seq::filter);
    } else {
        let front = bindings.drop_last();
        assert(one_to_one(front)) by {
            assert forall|i: int, j: int| 0 <= i < j < front.len() implies (#[trigger] front[i]).input != (
            #[trigger] front[j]).input && front[i].action != front[j].action by {
                assert(front[i] == bindings[i] && front[j] == bindings[j]);
            }
        }
        lemma_filter_one_to_one(front, keep);
        lemma_filter_last(bindings, keep);
        let kept = bindings.filter(keep);
        assert forall|i: int, j: int| 0 <= i < j < kept.len() implies (#[trigger] kept[i]).input != (#[trigger] kept[j]).input
            && kept[i].action != kept[j].action by {
            if keep(bindings.last()) && j == kept.len() - 1 {
                let b = front.filter(keep)[i];
                assert(front.filter(keep).contains(b));
                let k = choose|k: int| 0 <= k < front.len() && front[k] == b;
                assert(bindings[k] == b);
                assert(bindings[bindings.len() - 1] == bindings.last());
            } else {
                assert(kept[i] == front.filter(keep)[i] && kept[j] == front.filter(keep)[j]);
            }
        }
        assert forall|b: BindingView| #[trigger] kept.contains(b) implies bindings.contains(b) && keep(b) by {
            let k = choose|k: int| 0 <= k < kept.len() && kept[k] == b;
            if keep(bindings.last()) && k == kept.len() - 1 {
                assert(bindings[bindings.len() - 1] == b);
            } else {
                assert(front.filter(keep)[k] == b);
                assert(front.filter(keep).contains(b));
                let n = choose|n: int| 0 <= n < front.len() && front[n] == b;
                assert(bindings[n] == b);
            }
        }
    }
}

/// Binding keeps every chord and every action bound at most once.
pub proof fn binding_keeps_one_to_one(bindings: Seq<BindingView>, chord: ChordView, action: Action)
    requires
        one_to_one(bindings),
    ensures
        one_to_one(with_bound(bindings, chord, action)),
        one_to_one(with_cleared(bindings, action)),
{
    let id = id_text(action);
    let keep = |b: BindingView| b.input != chord && b.action != id;
    lemma_filter_one_to_one(bindings, keep);
    lemma_filter_one_to_one(bindings, |b: BindingView| b.action != id);
    let kept = without(bindings, chord, id);
    let bound = with_bound(bindings, chord, action);
    assert forall|i: int, j: int| 0 <= i < j < bound.len() implies (#[trigger] bound[i]).input != (#[trigger] bound[j]).input
        && bound[i].action != bound[j].action by {
        if j == kept.len() {
            assert(kept.contains(kept[i]));
        } else {
            assert(bound[i] == kept[i] && bound[j] == kept[j]);
        }
    }
}

/// The keymap that nobody has changed yet binds every chord and every action
/// at most once.
pub proof fn defaults_are_one_to_one()
    ensures
        one_to_one(default_bindings()),
{
    let s = default_bindings();
    reveal_strlit("Escape");
    reveal_strlit("T");
    reveal_strlit("PageUp");
    reveal_strlit("PageDown");
    assert("Escape"@.len() == 6 && "T"@.len() == 1 && "PageUp"@.len() == 6 && "PageDown"@.len() == 8);
    assert("Escape"@[0] == 'E' && "PageUp"@[0] == 'P');
    assert forall|i: int, j: int| 0 <= i < j < s.len() implies (#[trigger] s[i]).input != (#[trigger] s[j]).input && s[i].action
        != s[j].action by {
        if s[i].action == s[j].action {
            let a = if i == 0 {
                Action::Panic
            } else if i == 1 {
                Action::TestNote
            } else {
                Action::OctaveUp
            };
            let b = if j == 1 {
                Action::TestNote
            } else if j == 2 {
                Action::OctaveUp
            } else {
                Action::OctaveDown
            };
            ids_are_unique(a, b);
        }
        if s[i].input == s[j].input {
            assert(s[i].input->name.len() == s[j].input->name.len());
            assert(s[i].input->name[0] == s[j].input->name[0]);
        }
    }
}

/// No binding for `chord` is left where it is filtered out.
proof fn lemma_bound_after_filter(bindings: Seq<BindingView>, keep: spec_fn(BindingView) -> bool, chord: ChordView)
    ensures
        (forall|b: BindingView| #[trigger] keep(b) ==> b.input != chord) ==> bound_id(bindings.filter(keep), chord) is None,
        (forall|b: BindingView| b.input == chord && bindings.contains(b) ==> #[trigger] keep(b)) ==> bound_id(
            bindings.filter(keep),
            chord,
        ) == bound_id(bindings, chord),
    decreases bindings.len(),
{
    if bindings.len() == 0 {
        reveal(Seq::filter);
    } else {
        let front = bindings.drop_last();
        lemma_bound_after_filter(front, keep, chord);
        lemma_filter_last(bindings, keep);
        lemma_bound_push(front.filter(keep), bindings.last(), chord);
        lemma_bound_push(front, bindings.last(), chord);
        assert(front.push(bindings.last()) =~= bindings);
        if forall|b: BindingView| b.input == chord && bindings.contains(b) ==> #[trigger] keep(b) {
            assert forall|b: BindingView| b.input == chord && front.contains(b) implies #[trigger] keep(b) by {
                let k = choose|k: int| 0 <= k < front.len() && front[k] == b;
                assert(bindings[k] == b);
            }
            assert(bindings.contains(bindings.last()));
            assert(bindings.last().input == chord ==> keep(bindings.last()));
        }
        if forall|b: BindingView| #[trigger] keep(b) ==> b.input != chord {
            assert(keep(bindings.last()) ==> bindings.last().input != chord);
        }
    }
}

/// A chord resolves to what it was bound to last.
pub proof fn bound_chords_resolve(bindings: Seq<BindingView>, chord: ChordView, action: Action)
    ensures
        named(bound_id(with_bound(bindings, chord, action), chord)) == Some(action),
{
    let id = id_text(action);
    let keep = |b: BindingView| b.input != chord && b.action != id;
    lemma_bound_after_filter(bindings, keep, chord);
    lemma_bound_push(
        without(bindings, chord, id),
        BindingView { input: chord, action: id },
        chord,
    );
    ids_round_trip(action);
}

/// Binding a chord leaves every other chord as it was, unless the action was
/// taken away from it.
pub proof fn other_chords_stay_bound(
    bindings: Seq<BindingView>,
    chord: ChordView,
    action: Action,
    other: ChordView,
)
    requires
        other != chord,
        forall|i: int|
            0 <= i < bindings.len() && (#[trigger] bindings[i]).input == other ==> bindings[i].action != id_text(action),
    ensures
        bound_id(with_bound(bindings, chord, action), other) == bound_id(bindings, other),
{
    let id = id_text(action);
    let keep = |b: BindingView| b.input != chord && b.action != id;
    assert forall|b: BindingView| b.input == other && bindings.contains(b) implies #[trigger] keep(b) by {
        let k = choose|k: int| 0 <= k < bindings.len() && bindings[k] == b;
        assert(bindings[k].input == other);
    }
    lemma_bound_after_filter(bindings, keep, other);
    lemma_bound_push(
        without(bindings, chord, id),
        BindingView { input: chord, action: id },
        other,
    );
}

/// A cleared action is bound to nothing.
pub proof fn cleared_actions_are_unbound(bindings: Seq<BindingView>, action: Action)
    ensures
        bound_chord(with_cleared(bindings, action), id_text(action)) is None,
    decreases bindings.len(),
{
    let id = id_text(action);
    let other = |b: BindingView| b.action != id;
    if bindings.len() == 0 {
        reveal(Seq::filter);
    } else {
        cleared_actions_are_unbound(bindings.skip(1), action);
        lemma_filter_first(bindings, other);
        let kept = bindings.filter(other);
        if other(bindings[0]) {
            assert(kept.skip(1) =~= bindings.skip(1).filter(other));
        }
    }
}

/// The first binding of a chord decides a lookup.
proof fn lemma_first_bound(bindings: Seq<BindingView>, chord: ChordView, i: int)
    requires
        0 <= i < bindings.len(),
        bindings[i].input == chord,
        forall|j: int| 0 <= j < i ==> (#[trigger] bindings[j]).input != chord,
    ensures
        bound_id(bindings, chord) == Some(bindings[i].action),
    decreases i,
{
    if i > 0 {
        assert(bindings[0].input != chord);
        let rest = bindings.skip(1);
        assert forall|j: int| 0 <= j < i - 1 implies (#[trigger] rest[j]).input != chord by {
            assert(rest[j] == bindings[j + 1]);
        }
        lemma_first_bound(rest, chord, i - 1);
    }
}

/// A chord without a binding is not found.
proof fn lemma_never_bound(bindings: Seq<BindingView>, chord: ChordView)
    requires
        forall|j: int| 0 <= j < bindings.len() ==> (#[trigger] bindings[j]).input != chord,
    ensures
        bound_id(bindings, chord) is None,
    decreases bindings.len(),
{
    if bindings.len() > 0 {
        let rest = bindings.skip(1);
        assert forall|j: int| 0 <= j < rest.len() implies (#[trigger] rest[j]).input != chord by {
            assert(rest[j] == bindings[j + 1]);
        }
        lemma_never_bound(rest, chord);
    }
}

/// The first binding of an action decides a lookup by action.
proof fn lemma_first_chord(bindings: Seq<BindingView>, id: Seq<char>, i: int)
    requires
        0 <= i < bindings.len(),
        bindings[i].action == id,
        forall|j: int| 0 <= j < i ==> (#[trigger] bindings[j]).action != id,
    ensures
        bound_chord(bindings, id) == Some(bindings[i].input),
    decreases i,
{
    if i > 0 {
        assert(bindings[0].action != id);
        let rest = bindings.skip(1);
        assert forall|j: int| 0 <= j < i - 1 implies (#[trigger] rest[j]).action != id by {
            assert(rest[j] == bindings[j + 1]);
        }
        lemma_first_chord(rest, id, i - 1);
    }
}

/// An action without a binding has no chord.
proof fn lemma_never_chord(bindings: Seq<BindingView>, id: Seq<char>)
    requires
        forall|j: int| 0 <= j < bindings.len() ==> (#[trigger] bindings[j]).action != id,
    ensures
        bound_chord(bindings, id) is None,
    decreases bindings.len(),
{
    if bindings.len() > 0 {
        let rest = bindings.skip(1);
        assert forall|j: int| 0 <= j < rest.len() implies (#[trigger] rest[j]).action != id by {
            assert(rest[j] == bindings[j + 1]);
        }
        lemma_never_chord(rest, id);
    }
}

/// A chord triggers what its first binding names, and nothing without a binding.
pub proof fn chords_trigger_their_first_binding(
    keymap: Keymap,
    chord: InputChord,
    r: Option<Action>,
    i: int,
    id: &str,
    named_by_id: Option<Action>,
)
    requires
        call_ensures(Keymap::resolve, (&keymap, &chord), r),
        0 <= i < keymap@.len() ==> id@ == keymap@[i].action,
        call_ensures(Action::from_id, (id,), named_by_id),
    ensures
        0 <= i < keymap@.len() && keymap@[i].input == chord@ && (forall|j: int|
            0 <= j < i ==> (#[trigger] keymap@[j]).input != chord@) ==> r == named_by_id,
        (forall|j: int| 0 <= j < keymap@.len() ==> (#[trigger] keymap@[j]).input != chord@) ==> r is None,
{
    if 0 <= i < keymap@.len() && keymap@[i].input == chord@ && (forall|j: int|
        0 <= j < i ==> (#[trigger] keymap@[j]).input != chord@) {
        lemma_first_bound(keymap@, chord@, i);
    }
    if forall|j: int| 0 <= j < keymap@.len() ==> (#[trigger] keymap@[j]).input != chord@ {
        lemma_never_bound(keymap@, chord@);
    }
}

/// The chord of an action is that of its first binding; without one it has none.
pub proof fn actions_have_their_first_chord(
    keymap: Keymap,
    action: Action,
    id: &'static str,
    r: Option<&InputChord>,
    i: int,
)
    requires
        call_ensures(Action::id, (action,), id),
        call_ensures(Keymap::binding_for, (&keymap, action), r),
    ensures
        0 <= i < keymap@.len() && keymap@[i].action == id@ && (forall|j: int|
            0 <= j < i ==> (#[trigger] keymap@[j]).action != id@) ==> r is Some && r->0@ == keymap@[i].input,
        (forall|j: int| 0 <= j < keymap@.len() ==> (#[trigger] keymap@[j]).action != id@) ==> r is None,
{
    if 0 <= i < keymap@.len() && keymap@[i].action == id@ && (forall|j: int|
        0 <= j < i ==> (#[trigger] keymap@[j]).action != id@) {
        lemma_first_chord(keymap@, id@, i);
    }
    if forall|j: int| 0 <= j < keymap@.len() ==> (#[trigger] keymap@[j]).action != id@ {
        lemma_never_chord(keymap@, id@);
    }
}

/// What a filter keeps was there before.
proof fn lemma_kept_from(bindings: Seq<BindingView>, keep: spec_fn(BindingView) -> bool, b: BindingView)
    ensures
        bindings.filter(keep).contains(b) <==> bindings.contains(b) && keep(b),
    decreases bindings.len(),
{
    if bindings.len() == 0 {
        reveal(Seq::filter);
    } else {
        let front = bindings.drop_last();
        lemma_kept_from(front, keep, b);
        lemma_filter_last(bindings, keep);
        let kept = bindings.filter(keep);
        if bindings.contains(b) {
            let k = choose|k: int| 0 <= k < bindings.len() && bindings[k] == b;
            if k < front.len() {
                assert(front[k] == b);
            }
        }
        if front.contains(b) {
            let k = choose|k: int| 0 <= k < front.len() && front[k] == b;
            assert(bindings[k] == b);
        }
        if front.filter(keep).contains(b) {
            let k = choose|k: int| 0 <= k < front.filter(keep).len() && front.filter(keep)[k] == b;
            assert(kept[k] == b);
        }
        if kept.contains(b) {
            let k = choose|k: int| 0 <= k < kept.len() && kept[k] == b;
            if !(keep(bindings.last()) && k == kept.len() - 1) {
                assert(front.filter(keep)[k] == b);
            } else {
                assert(bindings[bindings.len() - 1] == b);
            }
        }
        if keep(bindings.last()) && b == bindings.last() {
            assert(kept[kept.len() - 1] == b);
            assert(bindings[bindings.len() - 1] == b);
        }
    }
}

/// Binding puts the chord and the action together as the last binding. The other
/// bindings stay, but for those of the chord and those of the action. Afterwards
/// the chord triggers the action, and the action shows the chord.
pub proof fn binding_joins_chord_and_action(
    keymap: &mut Keymap,
    chord: InputChord,
    action: Action,
    displaced: Option<Action>,
    id: &'static str,
    triggered: Option<Action>,
    shown: Option<&InputChord>,
    other: BindingView,
)
    requires
        call_ensures(Keymap::bind, (keymap, chord, action), displaced),
        call_ensures(Action::id, (action,), id),
        call_ensures(Keymap::resolve, (final(keymap), &chord), triggered),
        call_ensures(Keymap::binding_for, (final(keymap), action), shown),
    ensures
        final(keymap)@.len() > 0,
        final(keymap)@.last() == (BindingView { input: chord@, action: id@ }),
        triggered == Some(action),
        shown is Some && shown->0@ == chord@,
        other != final(keymap)@.last() ==> (final(keymap)@.contains(other) <==> old(keymap)@.contains(other) && other.input
            != chord@ && other.action != id@),
{
    bound_chords_resolve(old(keymap)@, chord@, action);
    bound_actions_show_their_chord(old(keymap)@, chord@, action);
    let keep = |b: BindingView| b.input != chord@ && b.action != id@;
    lemma_kept_from(old(keymap)@, keep, other);
    let kept = old(keymap)@.filter(keep);
    let all = final(keymap)@;
    assert(all == kept.push(all.last()));
    if kept.contains(other) {
        let k = choose|k: int| 0 <= k < kept.len() && kept[k] == other;
        assert(all[k] == other);
    }
    if all.contains(other) && other != all.last() {
        let k = choose|k: int| 0 <= k < all.len() && all[k] == other;
        assert(kept[k] == other);
    }
}

/// The first of the bindings of a chord to another action decides what is
/// displaced.
proof fn lemma_displaced(bindings: Seq<BindingView>, chord: ChordView, id: Seq<char>, i: int)
    requires
        0 <= i < bindings.len(),
        bindings[i].input == chord,
        bindings[i].action != id,
        forall|j: int| 0 <= j < i && (#[trigger] bindings[j]).input == chord ==> bindings[j].action == id,
    ensures
        bound_id(bindings.filter(|b: BindingView| b.action != id), chord) == Some(bindings[i].action),
    decreases bindings.len(),
{
    let other = |b: BindingView| b.action != id;
    lemma_filter_first(bindings, other);
    let kept = bindings.filter(other);
    if i == 0 {
        assert(kept[0] == bindings[0]);
    } else {
        let rest = bindings.skip(1);
        assert forall|j: int| 0 <= j < i - 1 && (#[trigger] rest[j]).input == chord implies rest[j].action == id by {
            assert(rest[j] == bindings[j + 1]);
        }
        lemma_displaced(rest, chord, id, i - 1);
        if other(bindings[0]) {
            assert(bindings[0].input != chord);
            assert(kept[0] == bindings[0]);
            assert(kept.skip(1) =~= rest.filter(other));
        }
    }
}

/// Binding tells which other action loses the chord: that of its first binding to
/// another one. A chord that no other action has is taken from none.
pub proof fn binding_tells_who_loses_the_chord(
    keymap: &mut Keymap,
    chord: InputChord,
    action: Action,
    displaced: Option<Action>,
    id: &'static str,
    i: int,
    loser_id: &str,
    loser: Option<Action>,
)
    requires
        call_ensures(Keymap::bind, (keymap, chord, action), displaced),
        call_ensures(Action::id, (action,), id),
        0 <= i < old(keymap)@.len() ==> loser_id@ == old(keymap)@[i].action,
        call_ensures(Action::from_id, (loser_id,), loser),
    ensures
        0 <= i < old(keymap)@.len() && old(keymap)@[i].input == chord@ && old(keymap)@[i].action != id@ && (forall|j: int|
            0 <= j < i && (#[trigger] old(keymap)@[j]).input == chord@ ==> old(keymap)@[j].action == id@) ==> displaced
            == loser,
        (forall|j: int|
            0 <= j < old(keymap)@.len() && (#[trigger] old(keymap)@[j]).input == chord@ ==> old(keymap)@[j].action == id@)
            ==> displaced is None,
{
    let all = old(keymap)@;
    let other = |b: BindingView| b.action != id@;
    if 0 <= i < all.len() && all[i].input == chord@ && all[i].action != id@ && (forall|j: int|
        0 <= j < i && (#[trigger] all[j]).input == chord@ ==> all[j].action == id@) {
        lemma_displaced(all, chord@, id@, i);
    }
    if forall|j: int| 0 <= j < all.len() && (#[trigger] all[j]).input == chord@ ==> all[j].action == id@ {
        let kept = all.filter(other);
        assert forall|j: int| 0 <= j < kept.len() implies (#[trigger] kept[j]).input != chord@ by {
            assert(kept.contains(kept[j]));
            lemma_kept_from(all, other, kept[j]);
            let k = choose|k: int| 0 <= k < all.len() && all[k] == kept[j];
            assert(all[k] == kept[j]);
        }
        lemma_never_bound(kept, chord@);
    }
}

/// Clearing takes away the bindings of the action and no others.
pub proof fn clearing_unbinds_the_action_alone(
    keymap: &mut Keymap,
    action: Action,
    id: &'static str,
    shown: Option<&InputChord>,
    other: BindingView,
)
    requires
        call_ensures(Keymap::clear, (keymap, action), ()),
        call_ensures(Action::id, (action,), id),
        call_ensures(Keymap::binding_for, (final(keymap), action), shown),
    ensures
        shown is None,
        final(keymap)@.contains(other) <==> old(keymap)@.contains(other) && other.action != id@,
{
    cleared_actions_are_unbound(old(keymap)@, action);
    lemma_kept_from(old(keymap)@, |b: BindingView| b.action != id@, other);
}

/// Escape silences, T plays the test note, and the page keys shift the octave,
/// until someone changes that.
pub proof fn four_keys_start_bound(keymap: Keymap)
    requires
        call_ensures(<Keymap as Default>::default, (), keymap),
    ensures
        keymap@.len() == 4,
        keymap@[0] == (BindingView {
            input: ChordView::Key { name: "Escape"@, ctrl: false, shift: false, alt: false },
            action: "panic"@,
        }),
        keymap@[1] == (BindingView {
            input: ChordView::Key { name: "T"@, ctrl: false, shift: false, alt: false },
            action: "test_note"@,
        }),
        keymap@[2] == (BindingView {
            input: ChordView::Key { name: "PageUp"@, ctrl: false, shift: false, alt: false },
            action: "octave_up"@,
        }),
        keymap@[3] == (BindingView {
            input: ChordView::Key { name: "PageDown"@, ctrl: false, shift: false, alt: false },
            action: "octave_down"@,
        }),
{
}

/// Reading the label of a chord gives the chord.
pub proof fn labels_are_read_back(chord: InputChord, label: String, text: &str, r: Option<InputChord>)
    requires
        is_chord(chord@),
        call_ensures(InputChord::label, (&chord,), label),
        text@ == label@,
        call_ensures(InputChord::parse, (text,), r),
    ensures
        r is Some && r->0@ == chord@,
{
    chord_text_round_trip(chord@);
}

/// A modifier in front of a key chord adds itself, wherever the other modifiers
/// stand.
pub proof fn modifiers_add_themselves(
    text: &str,
    plain: Option<InputChord>,
    with_ctrl: &str,
    ctrl: Option<InputChord>,
    with_shift: &str,
    shift: Option<InputChord>,
    with_alt: &str,
    alt: Option<InputChord>,
)
    requires
        call_ensures(InputChord::parse, (text,), plain),
        with_ctrl@ == seq!['C', 't', 'r', 'l', '+'] + text@,
        call_ensures(InputChord::parse, (with_ctrl,), ctrl),
        with_shift@ == seq!['S', 'h', 'i', 'f', 't', '+'] + text@,
        call_ensures(InputChord::parse, (with_shift,), shift),
        with_alt@ == seq!['A', 'l', 't', '+'] + text@,
        call_ensures(InputChord::parse, (with_alt,), alt),
        plain is Some,
    ensures
        plain->0@ matches ChordView::Key { name, ctrl: c, shift: s, alt: a } ==> {
            &&& ctrl is Some && ctrl->0@ == (ChordView::Key { name, ctrl: true, shift: s, alt: a })
            &&& shift is Some && shift->0@ == (ChordView::Key { name, ctrl: c, shift: true, alt: a })
            &&& alt is Some && alt->0@ == (ChordView::Key { name, ctrl: c, shift: s, alt: true })
        },
{
    reveal_strlit("pen:");
    reveal_strlit("tablet:");
    if plain->0@ is Key {
        lemma_key_chord_modifiers(text@, false, false, false, true, false, false);
        lemma_key_chord_modifiers(text@, false, false, false, false, true, false);
        lemma_key_chord_modifiers(text@, false, false, false, false, false, true);
        assert("pen:"@[0] == 'p' && "tablet:"@[0] == 't');
        assert(with_ctrl@.take(5) =~= ctrl_prefix());
        assert(with_ctrl@.skip(5) =~= text@);
        assert(with_shift@.take(6) =~= shift_prefix());
        assert(with_shift@.skip(6) =~= text@);
        assert(with_alt@.take(4) =~= alt_prefix());
        assert(with_alt@.skip(4) =~= text@);
        assert(with_ctrl@[0] == 'C' && with_shift@[0] == 'S' && with_alt@[0] == 'A');
        lemma_other_start(with_ctrl@, "pen:"@);
        lemma_other_start(with_ctrl@, "tablet:"@);
        lemma_other_start(with_shift@, "pen:"@);
        lemma_other_start(with_shift@, "tablet:"@);
        lemma_other_start(with_shift@, ctrl_prefix());
        lemma_other_start(with_alt@, "pen:"@);
        lemma_other_start(with_alt@, "tablet:"@);
        lemma_other_start(with_alt@, ctrl_prefix());
        lemma_other_start(with_alt@, shift_prefix());
    }
}

/// A text that starts otherwise does not have the prefix.
proof fn lemma_other_start(text: Seq<char>, prefix: Seq<char>)
    requires
        prefix.len() > 0,
        text.len() > 0,
        text[0] != prefix[0],
    ensures
        !has_prefix(text, prefix),
{
    if has_prefix(text, prefix) {
        assert(text.take(prefix.len() as int)[0] == text[0]);
    }
}

/// Modifiers seen before a key chord are added to those that follow.
proof fn lemma_key_chord_modifiers(
    text: Seq<char>,
    ctrl: bool,
    shift: bool,
    alt: bool,
    more_ctrl: bool,
    more_shift: bool,
    more_alt: bool,
)
    ensures
        match (key_chord(text, ctrl, shift, alt), key_chord(text, ctrl || more_ctrl, shift || more_shift, alt || more_alt)) {
            (Some(ChordView::Key { name, ctrl: c, shift: s, alt: a }), Some(after)) => after == (ChordView::Key {
                name,
                ctrl: c || more_ctrl,
                shift: s || more_shift,
                alt: a || more_alt,
            }),
            (None, None) => true,
            _ => false,
        },
    decreases text.len(),
{
    if has_prefix(text, ctrl_prefix()) {
        lemma_key_chord_modifiers(text.skip(5), true, shift, alt, more_ctrl, more_shift, more_alt);
    } else if has_prefix(text, shift_prefix()) {
        lemma_key_chord_modifiers(text.skip(6), ctrl, true, alt, more_ctrl, more_shift, more_alt);
    } else if has_prefix(text, alt_prefix()) {
        lemma_key_chord_modifiers(text.skip(4), ctrl, shift, true, more_ctrl, more_shift, more_alt);
    }
}

/// A key chord without modifiers has its key and nothing else; two chords are the
/// same where nothing tells them apart.
pub proof fn chords_are_the_same_by_their_parts(key: KeyName, plain: InputChord, a: InputChord, b: InputChord, same: bool)
    requires
        call_ensures(InputChord::key, (key,), plain),
        call_ensures(InputChord::same, (&a, &b), same),
    ensures
        plain@ == (ChordView::Key { name: key@, ctrl: false, shift: false, alt: false }),
        same <==> a@ == b@,
{
}

/// The barrel button has the second bit of a sample, the eraser the third.
pub proof fn buttons_have_their_bit(button: PenButton, r: u32)
    requires
        call_ensures(PenButton::bit, (button,), r),
    ensures
        button is Barrel ==> r == 1,
        button is Eraser ==> r == 2,
{
}

} // verus!
