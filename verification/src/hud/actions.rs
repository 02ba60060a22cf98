//! The things that the display can do on demand.
//!
//! Saved key bindings name actions by their ids, so ids stay as they are.
use vstd::prelude::*;

use crate::text::same_text;

verus! {

/// An action that an input can be bound to.
#[derive(Clone, Copy, Debug, PartialEq, Eq, Structural)]
pub enum Action {
    /// Release everything: end the note and sweep the channels.
    Panic,
    /// Send a loud middle C on the master channel.
    TestNote,
    /// Shift the pad grid up one octave.
    OctaveUp,
    /// Shift the pad grid down one octave.
    OctaveDown,
    /// Next scale in menu order.
    ScaleNext,
    /// Previous scale in menu order.
    ScalePrev,
    /// Root pitch class up a semitone.
    KeyNext,
    /// Root pitch class down a semitone.
    KeyPrev,
    /// Next slide behaviour.
    CycleNoteMode,
    /// Switch horizontal drag to timbre on or off.
    ToggleXToCc74,
    /// Switch channel pressure on or off.
    TogglePressure,
    /// Switch the tilt controller on or off.
    ToggleTiltCc,
    /// Connect to the selected MIDI port.
    MidiConnect,
    /// Disconnect from the MIDI port.
    MidiDisconnect,
    /// List the MIDI ports anew.
    RefreshPorts,
    /// Load the mapping file.
    LoadMapping,
    /// Save the mapping file.
    SaveMapping,
    /// Show or hide the settings window.
    ToggleSettings,
    /// Switch the colors of the trail on or off.
    ToggleTrailColor,
    /// Show the guide for the current pen again.
    ShowPenGuide,
}

/// The id that saved bindings name an action by.
pub open spec fn id_text(action: Action) -> Seq<char> {
    match action {
        Action::Panic => "panic"@,
        Action::TestNote => "test_note"@,
        Action::OctaveUp => "octave_up"@,
        Action::OctaveDown => "octave_down"@,
        Action::ScaleNext => "scale_next"@,
        Action::ScalePrev => "scale_prev"@,
        Action::KeyNext => "key_next"@,
        Action::KeyPrev => "key_prev"@,
        Action::CycleNoteMode => "cycle_note_mode"@,
        Action::ToggleXToCc74 => "toggle_x_to_cc74"@,
        Action::TogglePressure => "toggle_pressure"@,
        Action::ToggleTiltCc => "toggle_tilt_cc"@,
        Action::MidiConnect => "midi_connect"@,
        Action::MidiDisconnect => "midi_disconnect"@,
        Action::RefreshPorts => "refresh_ports"@,
        Action::LoadMapping => "load_mapping"@,
        Action::SaveMapping => "save_mapping"@,
        Action::ToggleSettings => "toggle_settings"@,
        Action::ToggleTrailColor => "toggle_trail_color"@,
        Action::ShowPenGuide => "show_pen_guide"@,
    }
}

/// The action that an id names, if it names one.
pub open spec fn action_named(id: Seq<char>) -> Option<Action> {
    if exists|action: Action| id_text(action) == id {
        Some(choose|action: Action| id_text(action) == id)
    } else {
        None
    }
}

impl Action {
    /// Every action, in the order of the settings window.
    pub const ALL: [Action; 20] = [
        Action::Panic,
        Action::TestNote,
        Action::OctaveUp,
        Action::OctaveDown,
        Action::ScaleNext,
        Action::ScalePrev,
        Action::KeyNext,
        Action::KeyPrev,
        Action::CycleNoteMode,
        Action::ToggleXToCc74,
        Action::TogglePressure,
        Action::ToggleTiltCc,
        Action::MidiConnect,
        Action::MidiDisconnect,
        Action::RefreshPorts,
        Action::LoadMapping,
        Action::SaveMapping,
        Action::ToggleSettings,
        Action::ToggleTrailColor,
        Action::ShowPenGuide,
    ];

    /// The id of the action.
    pub fn id(self) -> (r: &'static str)
        ensures
            r@ == id_text(self),
    {
        match self {
            Action::Panic => "panic",
            Action::TestNote => "test_note",
            Action::OctaveUp => "octave_up",
            Action::OctaveDown => "octave_down",
            Action::ScaleNext => "scale_next",
            Action::ScalePrev => "scale_prev",
            Action::KeyNext => "key_next",
            Action::KeyPrev => "key_prev",
            Action::CycleNoteMode => "cycle_note_mode",
            Action::ToggleXToCc74 => "toggle_x_to_cc74",
            Action::TogglePressure => "toggle_pressure",
            Action::ToggleTiltCc => "toggle_tilt_cc",
            Action::MidiConnect => "midi_connect",
            Action::MidiDisconnect => "midi_disconnect",
            Action::RefreshPorts => "refresh_ports",
            Action::LoadMapping => "load_mapping",
            Action::SaveMapping => "save_mapping",
            Action::ToggleSettings => "toggle_settings",
            Action::ToggleTrailColor => "toggle_trail_color",
            Action::ShowPenGuide => "show_pen_guide",
        }
    }

    /// The action with this id. Unknown ids name nothing.
    pub fn from_id(id: &str) -> (r: Option<Action>)
        ensures
            r == action_named(id@),
            match r {
                Some(action) => id_text(action) == id@,
                None => forall|action: Action| id_text(action) != id@,
            },
    {
        let all = Action::ALL;
        let mut i: usize = 0;
        while i < 20
            invariant
                i <= 20,
                all == Action::ALL,
                forall|j: int| 0 <= j < i ==> id_text(#[trigger] all@[j]) != id@,
            decreases 20 - i,
        {
            let action = all[i];
            if same_text(action.id(), id) {
                proof {
                    assert(id_text(action) == id@);
                    let chosen = choose|other: Action| id_text(other) == id@;
                    ids_are_unique(action, chosen);
                }
                return Some(action);
            }
            i = i + 1;
        }
        proof {
            assert forall|action: Action| id_text(action) != id@ by {
                lemma_listed(action);
                let j = choose|j: int| 0 <= j < 20 && #[trigger] Action::ALL@[j] == action;
                assert(all@[j] == action);
            }
        }
        None
    }

    /// Label for the settings window.
    pub fn label(self) -> (r: &'static str)
        ensures
            r@ == label_text(self),
    {
        match self {
            Action::Panic => "Panic (all notes off)",
            Action::TestNote => "Test note",
            Action::OctaveUp => "Octave up",
            Action::OctaveDown => "Octave down",
            Action::ScaleNext => "Next scale",
            Action::ScalePrev => "Previous scale",
            Action::KeyNext => "Key up (semitone)",
            Action::KeyPrev => "Key down (semitone)",
            Action::CycleNoteMode => "Cycle slide behavior",
            Action::ToggleXToCc74 => "Toggle drag → CC74",
            Action::TogglePressure => "Toggle pressure → channel pressure",
            Action::ToggleTiltCc => "Toggle tilt → CC",
            Action::MidiConnect => "Connect MIDI port",
            Action::MidiDisconnect => "Disconnect MIDI port",
            Action::RefreshPorts => "Refresh MIDI ports",
            Action::LoadMapping => "Load mapping file",
            Action::SaveMapping => "Save mapping file",
            Action::ToggleSettings => "Show/hide settings",
            Action::ToggleTrailColor => "Toggle trail color",
            Action::ShowPenGuide => "Show pen guide",
        }
    }

    /// Heading of the group that the action is listed under.
    pub fn category(self) -> (r: &'static str)
        ensures
            r@ == match self {
                Action::Panic => "Performance"@,
                Action::TestNote => "Performance"@,
                Action::OctaveUp => "Performance"@,
                Action::OctaveDown => "Performance"@,
                Action::ScaleNext => "Mapping"@,
                Action::ScalePrev => "Mapping"@,
                Action::KeyNext => "Mapping"@,
                Action::KeyPrev => "Mapping"@,
                Action::CycleNoteMode => "Mapping"@,
                Action::ToggleXToCc74 => "Mapping"@,
                Action::TogglePressure => "Mapping"@,
                Action::ToggleTiltCc => "Mapping"@,
                Action::MidiConnect => "MIDI & files"@,
                Action::MidiDisconnect => "MIDI & files"@,
                Action::RefreshPorts => "MIDI & files"@,
                Action::LoadMapping => "MIDI & files"@,
                Action::SaveMapping => "MIDI & files"@,
                Action::ToggleSettings => "App"@,
                Action::ToggleTrailColor => "App"@,
                Action::ShowPenGuide => "App"@,
            },
    {
        match self {
            Action::Panic => "Performance",
            Action::TestNote => "Performance",
            Action::OctaveUp => "Performance",
            Action::OctaveDown => "Performance",
            Action::ScaleNext => "Mapping",
            Action::ScalePrev => "Mapping",
            Action::KeyNext => "Mapping",
            Action::KeyPrev => "Mapping",
            Action::CycleNoteMode => "Mapping",
            Action::ToggleXToCc74 => "Mapping",
            Action::TogglePressure => "Mapping",
            Action::ToggleTiltCc => "Mapping",
            Action::MidiConnect => "MIDI & files",
            Action::MidiDisconnect => "MIDI & files",
            Action::RefreshPorts => "MIDI & files",
            Action::LoadMapping => "MIDI & files",
            Action::SaveMapping => "MIDI & files",
            Action::ToggleSettings => "App",
            Action::ToggleTrailColor => "App",
            Action::ShowPenGuide => "App",
        }
    }
}

/// The label of an action.
pub open spec fn label_text(action: Action) -> Seq<char> {
    match action {
        Action::Panic => "Panic (all notes off)"@,
        Action::TestNote => "Test note"@,
        Action::OctaveUp => "Octave up"@,
        Action::OctaveDown => "Octave down"@,
        Action::ScaleNext => "Next scale"@,
        Action::ScalePrev => "Previous scale"@,
        Action::KeyNext => "Key up (semitone)"@,
        Action::KeyPrev => "Key down (semitone)"@,
        Action::CycleNoteMode => "Cycle slide behavior"@,
        Action::ToggleXToCc74 => "Toggle drag → CC74"@,
        Action::TogglePressure => "Toggle pressure → channel pressure"@,
        Action::ToggleTiltCc => "Toggle tilt → CC"@,
        Action::MidiConnect => "Connect MIDI port"@,
        Action::MidiDisconnect => "Disconnect MIDI port"@,
        Action::RefreshPorts => "Refresh MIDI ports"@,
        Action::LoadMapping => "Load mapping file"@,
        Action::SaveMapping => "Save mapping file"@,
        Action::ToggleSettings => "Show/hide settings"@,
        Action::ToggleTrailColor => "Toggle trail color"@,
        Action::ShowPenGuide => "Show pen guide"@,
    }
}

/// Every action is in the list.
proof fn lemma_listed(action: Action)
    ensures
        exists|j: int| 0 <= j < 20 && #[trigger] Action::ALL@[j] == action,
{
    let j: int = match action {
        Action::Panic => 0,
        Action::TestNote => 1,
        Action::OctaveUp => 2,
        Action::OctaveDown => 3,
        Action::ScaleNext => 4,
        Action::ScalePrev => 5,
        Action::KeyNext => 6,
        Action::KeyPrev => 7,
        Action::CycleNoteMode => 8,
        Action::ToggleXToCc74 => 9,
        Action::TogglePressure => 10,
        Action::ToggleTiltCc => 11,
        Action::MidiConnect => 12,
        Action::MidiDisconnect => 13,
        Action::RefreshPorts => 14,
        Action::LoadMapping => 15,
        Action::SaveMapping => 16,
        Action::ToggleSettings => 17,
        Action::ToggleTrailColor => 18,
        Action::ShowPenGuide => 19,
    };
    assert(Action::ALL@[j] == action);
}

/// Length of an id, its first letter, and the letter that tells ids apart that
/// agree in both.
spec fn mark(action: Action) -> (nat, char, char) {
    match action {
        Action::Panic => (5, 'p', 'p'),
        Action::TestNote => (9, 't', 't'),
        Action::OctaveUp => (9, 'o', 'o'),
        Action::OctaveDown => (11, 'o', 'o'),
        Action::ScaleNext => (10, 's', 'n'),
        Action::ScalePrev => (10, 's', 'p'),
        Action::KeyNext => (8, 'k', 'n'),
        Action::KeyPrev => (8, 'k', 'p'),
        Action::CycleNoteMode => (15, 'c', 'c'),
        Action::ToggleXToCc74 => (16, 't', 't'),
        Action::TogglePressure => (15, 't', 'p'),
        Action::ToggleTiltCc => (14, 't', 't'),
        Action::MidiConnect => (12, 'm', 'm'),
        Action::MidiDisconnect => (15, 'm', 'm'),
        Action::RefreshPorts => (13, 'r', 'r'),
        Action::LoadMapping => (12, 'l', 'l'),
        Action::SaveMapping => (12, 's', 's'),
        Action::ToggleSettings => (15, 't', 's'),
        Action::ToggleTrailColor => (18, 't', 't'),
        Action::ShowPenGuide => (14, 's', 's'),
    }
}

/// Where in an id the telling letter stands.
spec fn telling_place(action: Action) -> int {
    match action {
        Action::Panic => 0,
        Action::TestNote => 0,
        Action::OctaveUp => 0,
        Action::OctaveDown => 0,
        Action::ScaleNext => 6,
        Action::ScalePrev => 6,
        Action::KeyNext => 4,
        Action::KeyPrev => 4,
        Action::CycleNoteMode => 0,
        Action::ToggleXToCc74 => 0,
        Action::TogglePressure => 7,
        Action::ToggleTiltCc => 0,
        Action::MidiConnect => 0,
        Action::MidiDisconnect => 0,
        Action::RefreshPorts => 0,
        Action::LoadMapping => 0,
        Action::SaveMapping => 0,
        Action::ToggleSettings => 7,
        Action::ToggleTrailColor => 0,
        Action::ShowPenGuide => 0,
    }
}

proof fn lemma_mark(action: Action)
    ensures
        id_text(action).len() == mark(action).0,
        id_text(action)[0] == mark(action).1,
        id_text(action)[telling_place(action)] == mark(action).2,
{
    match action {
        Action::Panic => {
            reveal_strlit("panic");
            assert("panic"@[0] == 'p');
            assert("panic"@[0] == 'p');
        },
        Action::TestNote => {
            reveal_strlit("test_note");
            assert("test_note"@[0] == 't');
            assert("test_note"@[0] == 't');
        },
        Action::OctaveUp => {
            reveal_strlit("octave_up");
            assert("octave_up"@[0] == 'o');
            assert("octave_up"@[0] == 'o');
        },
        Action::OctaveDown => {
            reveal_strlit("octave_down");
            assert("octave_down"@[0] == 'o');
            assert("octave_down"@[0] == 'o');
        },
        Action::ScaleNext => {
            reveal_strlit("scale_next");
            assert("scale_next"@[0] == 's');
            assert("scale_next"@[6] == 'n');
        },
        Action::ScalePrev => {
            reveal_strlit("scale_prev");
            assert("scale_prev"@[0] == 's');
            assert("scale_prev"@[6] == 'p');
        },
        Action::KeyNext => {
            reveal_strlit("key_next");
            assert("key_next"@[0] == 'k');
            assert("key_next"@[4] == 'n');
        },
        Action::KeyPrev => {
            reveal_strlit("key_prev");
            assert("key_prev"@[0] == 'k');
            assert("key_prev"@[4] == 'p');
        },
        Action::CycleNoteMode => {
            reveal_strlit("cycle_note_mode");
            assert("cycle_note_mode"@[0] == 'c');
            assert("cycle_note_mode"@[0] == 'c');
        },
        Action::ToggleXToCc74 => {
            reveal_strlit("toggle_x_to_cc74");
            assert("toggle_x_to_cc74"@[0] == 't');
            assert("toggle_x_to_cc74"@[0] == 't');
        },
        Action::TogglePressure => {
            reveal_strlit("toggle_pressure");
            assert("toggle_pressure"@[0] == 't');
            assert("toggle_pressure"@[7] == 'p');
        },
        Action::ToggleTiltCc => {
            reveal_strlit("toggle_tilt_cc");
            assert("toggle_tilt_cc"@[0] == 't');
            assert("toggle_tilt_cc"@[0] == 't');
        },
        Action::MidiConnect => {
            reveal_strlit("midi_connect");
            assert("midi_connect"@[0] == 'm');
            assert("midi_connect"@[0] == 'm');
        },
        Action::MidiDisconnect => {
            reveal_strlit("midi_disconnect");
            assert("midi_disconnect"@[0] == 'm');
            assert("midi_disconnect"@[0] == 'm');
        },
        Action::RefreshPorts => {
            reveal_strlit("refresh_ports");
            assert("refresh_ports"@[0] == 'r');
            assert("refresh_ports"@[0] == 'r');
        },
        Action::LoadMapping => {
            reveal_strlit("load_mapping");
            assert("load_mapping"@[0] == 'l');
            assert("load_mapping"@[0] == 'l');
        },
        Action::SaveMapping => {
            reveal_strlit("save_mapping");
            assert("save_mapping"@[0] == 's');
            assert("save_mapping"@[0] == 's');
        },
        Action::ToggleSettings => {
            reveal_strlit("toggle_settings");
            assert("toggle_settings"@[0] == 't');
            assert("toggle_settings"@[7] == 's');
        },
        Action::ToggleTrailColor => {
            reveal_strlit("toggle_trail_color");
            assert("toggle_trail_color"@[0] == 't');
        },
        Action::ShowPenGuide => {
            reveal_strlit("show_pen_guide");
            assert("show_pen_guide"@[0] == 's');
        },
    }
}

/// No two actions share an id.
pub proof fn ids_are_unique(a: Action, b: Action)
    requires
        id_text(a) == id_text(b),
    ensures
        a == b,
{
    lemma_mark(a);
    lemma_mark(b);
    assert(mark(a).0 == mark(b).0 && mark(a).1 == mark(b).1);
    assert(telling_place(a) == telling_place(b));
    assert(mark(a).2 == mark(b).2);
}

/// The id of an action names that action.
pub proof fn ids_round_trip(action: Action)
    ensures
        action_named(id_text(action)) == Some(action),
{
    let chosen = choose|other: Action| id_text(other) == id_text(action);
    assert(id_text(action) == id_text(action));
    ids_are_unique(action, chosen);
}

/// The id of an action finds the action, and what finds an action is its id.
pub proof fn ids_find_their_action(action: Action, id: &'static str, text: &str, r: Option<Action>)
    requires
        call_ensures(Action::id, (action,), id),
        call_ensures(Action::from_id, (text,), r),
    ensures
        text@ == id@ <==> r == Some(action),
{
    ids_round_trip(action);
}

} // verus!
