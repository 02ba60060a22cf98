//! The editor of key bindings, and chords in use.
use vstd::prelude::*;
use vstd::string::StringExecFns;

use crate::hud::actions::{id_text, label_text, Action};
use crate::hud::bindings::{
    bound_chord, bound_id, chord_text, default_bindings, displaced_by, named, plain_key,
    with_bound, with_cleared, ChordView, InputChord, Keymap, PenButton,
};
use crate::text::same_text;

verus! {

/// The state of the settings window.
#[derive(Debug)]
pub struct BindingEditor {
    pub open: bool,
    /// The action that the next chord is bound to.
    pub listening: Option<Action>,
    /// What was done last.
    pub status: Option<String>,
}

/// The state of the settings window by its characters.
pub struct EditorView {
    pub open: bool,
    pub listening: Option<Action>,
    pub status: Option<Seq<char>>,
}

impl View for BindingEditor {
    type V = EditorView;

    open spec fn view(&self) -> EditorView {
        EditorView {
            open: self.open,
            listening: self.listening,
            status: match self.status {
                Some(status) => Some(status@),
                None => None,
            },
        }
    }
}

/// What a chord did.
#[derive(Clone, Copy, Debug, PartialEq, Eq, Structural)]
pub enum ChordOutcome {
    /// It was bound; another action may have lost it.
    Bound { action: Action, displaced: Option<Action> },
    /// It ended the listening.
    Cancelled,
    /// It triggers an action.
    Triggers(Action),
    /// It is bound to nothing.
    Ignored,
}

/// The chord that ends the listening.
pub open spec fn cancels(chord: ChordView) -> bool {
    chord == plain_key("Escape"@)
}

impl Default for BindingEditor {
    fn default() -> (r: BindingEditor)
        ensures
            r@ == (EditorView { open: false, listening: None, status: None }),
    {
        BindingEditor { open: false, listening: None, status: None }
    }
}

impl BindingEditor {
    /// Opens or closes the window. A closed window does not listen.
    pub fn show(&mut self, open: bool)
        ensures
            final(self)@ == (EditorView {
                open,
                listening: if open {
                    old(self)@.listening
                } else {
                    None
                },
                status: old(self)@.status,
            }),
    {
        self.open = open;
        if !open {
            self.listening = None;
        }
    }

    /// Binds the next chord to `action`.
    pub fn listen(&mut self, action: Action)
        ensures
            final(self)@ == (EditorView {
                open: old(self)@.open,
                listening: Some(action),
                status: None,
            }),
    {
        self.listening = Some(action);
        self.status = None;
    }

    /// Listens no longer.
    pub fn stop_listening(&mut self)
        ensures
            final(self)@ == (EditorView { listening: None, ..old(self)@ }),
    {
        self.listening = None;
    }

    /// Takes in a chord: while listening it is bound, or ends the listening,
    /// and otherwise it triggers what it is bound to.
    pub fn on_chord(&mut self, keymap: &mut Keymap, chord: InputChord) -> (r: ChordOutcome)
        ensures
            match old(self)@.listening {
                Some(action) => if cancels(chord@) {
                    &&& r == ChordOutcome::Cancelled
                    &&& final(self)@ == EditorView { listening: None, ..old(self)@ }
                    &&& final(keymap)@ == old(keymap)@
                } else {
                    &&& r == ChordOutcome::Bound {
                        action,
                        displaced: displaced_by(old(keymap)@, chord@, action),
                    }
                    &&& final(self)@ == EditorView {
                        open: old(self)@.open,
                        listening: None,
                        status: Some(label_text(action) + " bound to "@ + chord_text(chord@)),
                    }
                    &&& final(keymap)@ == with_bound(old(keymap)@, chord@, action)
                },
                None => {
                    &&& r == match named(bound_id(old(keymap)@, chord@)) {
                        Some(action) => ChordOutcome::Triggers(action),
                        None => ChordOutcome::Ignored,
                    }
                    &&& final(self)@ == old(self)@
                    &&& final(keymap)@ == old(keymap)@
                },
            },
    {
        match self.listening {
            Some(action) => {
                self.listening = None;
                if is_cancel(&chord) {
                    return ChordOutcome::Cancelled;
                }
                let mut status = action.label().to_owned();
                status.append(" bound to ");
                status.append(chord.label().as_str());
                self.status = Some(status);
                let displaced: Option<Action> = keymap.bind(chord, action);
                ChordOutcome::Bound { action, displaced }
            },
            None => match keymap.resolve(&chord) {
                Some(action) => ChordOutcome::Triggers(action),
                None => ChordOutcome::Ignored,
            },
        }
    }

    /// Removes the binding of an action.
    pub fn clear(&mut self, keymap: &mut Keymap, action: Action)
        ensures
            final(keymap)@ == with_cleared(old(keymap)@, action),
            final(self)@ == (EditorView {
                status: Some(label_text(action) + " unbound"@),
                ..old(self)@
            }),
    {
        keymap.clear(action);
        let mut status = action.label().to_owned();
        status.append(" unbound");
        self.status = Some(status);
    }

    /// Goes back to the keymap that nobody has changed.
    pub fn reset(&mut self, keymap: &mut Keymap)
        ensures
            final(keymap)@ == default_bindings(),
            final(self)@ == (EditorView {
                open: old(self)@.open,
                listening: None,
                status: Some("bindings reset to defaults"@),
            }),
    {
        *keymap = Keymap::default();
        self.listening = None;
        self.status = Some("bindings reset to defaults".to_owned());
    }
}

fn is_cancel(chord: &InputChord) -> (r: bool)
    ensures
        r == cancels(chord@),
{
    match chord {
        InputChord::Key { key, ctrl, shift, alt } => !*ctrl && !*shift && !*alt && same_text(
            key.name(),
            "Escape",
        ),
        _ => false,
    }
}

/// What the row of an action shows as its binding.
pub fn binding_text(keymap: &Keymap, action: Action) -> (r: String)
    ensures
        r@ == match bound_chord(keymap@, id_text(action)) {
            Some(chord) => chord_text(chord),
            None => "unbound"@,
        },
{
    match keymap.binding_for(action) {
        Some(chord) => chord.label(),
        None => "unbound".to_owned(),
    }
}

/// Is the button of the pen down?
pub open spec fn pen_button_down(buttons: u32, button: PenButton) -> bool {
    match button {
        PenButton::Barrel => (buttons / 2) % 2 == 1,
        PenButton::Eraser => (buttons / 4) % 2 == 1,
    }
}

/// Was the button of the pen pressed between two samples?
pub open spec fn newly_down(before: u32, now: u32, button: PenButton) -> bool {
    !pen_button_down(before, button) && pen_button_down(now, button)
}

/// The buttons of the pen that were pressed between two samples.
pub fn pen_presses(before: u32, now: u32) -> (r: Vec<PenButton>)
    ensures
        r@ == (if newly_down(before, now, PenButton::Barrel) {
            seq![PenButton::Barrel]
        } else {
            Seq::empty()
        }) + (if newly_down(before, now, PenButton::Eraser) {
            seq![PenButton::Eraser]
        } else {
            Seq::empty()
        }),
{
    let mut pressed: Vec<PenButton> = Vec::new();
    if (before / 2) % 2 != 1 && (now / 2) % 2 == 1 {
        pressed.push(PenButton::Barrel);
    }
    if (before / 4) % 2 != 1 && (now / 4) % 2 == 1 {
        pressed.push(PenButton::Eraser);
    }
    proof {
        let barrel = if newly_down(before, now, PenButton::Barrel) {
            seq![PenButton::Barrel]
        } else {
            Seq::empty()
        };
        let eraser = if newly_down(before, now, PenButton::Eraser) {
            seq![PenButton::Eraser]
        } else {
            Seq::empty()
        };
        assert(pressed@ =~= barrel + eraser);
    }
    pressed
}

/// A button that is held triggers nothing again.
pub proof fn held_buttons_are_silent(buttons: u32, button: PenButton)
    ensures
        !newly_down(buttons, buttons, button),
{
}

} // verus!
