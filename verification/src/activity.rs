//! What a device has been doing: held notes, sustain pedal, event count,
//! the last event and the chord being played.

use crate::chord::{chord_of, detect_chord};
use crate::midi::{kind_name, lemma_kind_names_distinct, MidiEvent, MidiEventKind, MidiEventView};
use crate::notes::{ascending, holds_note, notes_without, same_notes, sorted_notes, without};
use crate::text::optional_text;
use vstd::prelude::*;

verus! {

/// The controller number of the sustain (damper) pedal.
pub const SUSTAIN_CONTROLLER: u8 = 64;

/// The controller value from which the sustain pedal counts as down.
pub const SUSTAIN_THRESHOLD: u8 = 64;

/// The running activity of one device.
#[derive(Debug)]
pub struct MidiActivity {
    pub active_notes: Vec<u8>,
    pub sustain: bool,
    pub event_count: u64,
    pub last_event: Option<MidiEvent>,
    pub chord: Option<String>,
    pub last_chord: Option<String>,
}

/// The mathematical value of a [`MidiActivity`].
pub struct MidiActivityView {
    pub active_notes: Seq<u8>,
    pub sustain: bool,
    pub event_count: u64,
    pub last_event: Option<MidiEventView>,
    pub chord: Option<Seq<char>>,
    pub last_chord: Option<Seq<char>>,
}

/// The view of an optional event.
pub open spec fn optional_event(event: Option<MidiEvent>) -> Option<MidiEventView> {
    match event {
        Some(e) => Some(e@),
        None => None,
    }
}

impl View for MidiActivity {
    type V = MidiActivityView;

    open spec fn view(&self) -> MidiActivityView {
        MidiActivityView {
            active_notes: self.active_notes@,
            sustain: self.sustain,
            event_count: self.event_count,
            last_event: optional_event(self.last_event),
            chord: optional_text(self.chord),
            last_chord: optional_text(self.last_chord),
        }
    }
}

/// The activity of a device that has sent nothing yet.
pub open spec fn quiet_activity() -> MidiActivityView {
    MidiActivityView {
        active_notes: Seq::empty(),
        sustain: false,
        event_count: 0,
        last_event: None,
        chord: None,
        last_chord: None,
    }
}

impl Default for MidiActivity {
    fn default() -> (quiet: Self)
        ensures
            quiet@ == quiet_activity(),
    {
        MidiActivity {
            active_notes: Vec::new(),
            sustain: false,
            event_count: 0,
            last_event: None,
            chord: None,
            last_chord: None,
        }
    }
}

fn copy_text(text: &Option<String>) -> (copy: Option<String>)
    ensures
        optional_text(copy) == optional_text(*text),
{
    match text {
        Some(t) => Some(t.clone()),
        None => None,
    }
}

impl Clone for MidiActivity {
    fn clone(&self) -> (copy: Self)
        ensures
            copy@ == self@,
    {
        let active_notes = self.active_notes.clone();
        assert(active_notes@ =~= self.active_notes@);
        let last_event = match &self.last_event {
            Some(e) => Some(e.clone()),
            None => None,
        };
        MidiActivity {
            active_notes,
            sustain: self.sustain,
            event_count: self.event_count,
            last_event,
            chord: copy_text(&self.chord),
            last_chord: copy_text(&self.last_chord),
        }
    }
}

/// How the held notes `held` change into `after` on `event`: a note-on
/// for a note not held adds it and leaves the notes in ascending order, a
/// note-off takes every occurrence of its note out, anything else (and a
/// note-on for a held note) leaves them as they are.
pub open spec fn held_notes_follow(held: Seq<u8>, event: MidiEventView, after: Seq<u8>) -> bool {
    if event.kind == kind_name(MidiEventKind::NoteOn) && event.note is Some && !held.contains(
        event.note->0,
    ) {
        ascending(after) && same_notes(after, held.push(event.note->0))
    } else if event.kind == kind_name(MidiEventKind::NoteOff) && event.note is Some {
        after == without(held, event.note->0)
    } else {
        after == held
    }
}

/// The sustain pedal after `event`: a change of the sustain controller
/// sets it down exactly when the value (0 when absent) reaches the
/// threshold; anything else leaves it.
pub open spec fn sustain_after(sustain: bool, event: MidiEventView) -> bool {
    if event.kind == kind_name(MidiEventKind::ControlChange) && event.controller == Some(
        SUSTAIN_CONTROLLER,
    ) {
        event.value.unwrap_or(0) >= SUSTAIN_THRESHOLD
    } else {
        sustain
    }
}

/// How an activity `before` changes into `after` on `event`.
pub open spec fn activity_follows(
    before: MidiActivityView,
    event: MidiEventView,
    after: MidiActivityView,
) -> bool {
    &&& held_notes_follow(before.active_notes, event, after.active_notes)
    &&& after.sustain == sustain_after(before.sustain, event)
    &&& after.event_count == before.event_count + 1
    &&& after.last_event == Some(event)
    &&& after.chord == chord_of(after.active_notes)
    &&& after.last_chord == if after.chord is Some {
        after.chord
    } else {
        before.last_chord
    }
}

impl MidiActivity {
    /// Takes `event` into account.
    pub fn record_event(&mut self, event: &MidiEvent)
        requires
            old(self).event_count < u64::MAX,
        ensures
            activity_follows(old(self)@, event@, final(self)@),
    {
        let note_on = MidiEventKind::NoteOn.name();
        let note_off = MidiEventKind::NoteOff.name();
        let control_change = MidiEventKind::ControlChange.name();
        proof {
            lemma_kind_names_distinct(MidiEventKind::NoteOn, MidiEventKind::NoteOff);
            lemma_kind_names_distinct(MidiEventKind::NoteOn, MidiEventKind::ControlChange);
            lemma_kind_names_distinct(MidiEventKind::NoteOff, MidiEventKind::ControlChange);
        }
        if event.kind == note_on {
            if let Some(note) = event.note {
                if !holds_note(&self.active_notes, note) {
                    let mut grown = self.active_notes.clone();
                    assert(grown@ =~= self.active_notes@);
                    grown.push(note);
                    self.active_notes = sorted_notes(&grown);
                }
            }
        } else if event.kind == note_off {
            if let Some(note) = event.note {
                self.active_notes = notes_without(&self.active_notes, note);
            }
        } else if event.kind == control_change && event.controller == Some(SUSTAIN_CONTROLLER) {
            let value = match event.value {
                Some(v) => v,
                None => 0,
            };
            self.sustain = value >= SUSTAIN_THRESHOLD;
        }
        self.event_count = self.event_count + 1;
        self.last_event = Some(event.clone());
        self.chord = detect_chord(&self.active_notes);
        if self.chord.is_some() {
            self.last_chord = copy_text(&self.chord);
        }
    }
}

} // verus!
