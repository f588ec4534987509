use studio_control::midi::{parse_midi_event, MidiEvent};
use studio_control::state::{apply_midi_event, initial_snapshot, IncomingMidi};

fn parsed(raw: &[u8]) -> MidiEvent {
    parse_midi_event("test.device".to_string(), raw.to_vec())
}

#[test]
fn parses_note_on_and_velocity_zero_note_off() {
    let note_on = parsed(&[0x92, 64, 101]);
    assert_eq!(note_on.kind, "note_on");
    assert_eq!(note_on.channel, Some(2));
    assert_eq!(note_on.note, Some(64));
    assert_eq!(note_on.velocity, Some(101));

    let note_off = parsed(&[0x92, 64, 0]);
    assert_eq!(note_off.kind, "note_off");
    assert_eq!(note_off.note, Some(64));
}

#[test]
fn parses_sustain_control_change() {
    let event = parsed(&[0xb0, 64, 127]);
    assert_eq!(event.kind, "control_change");
    assert_eq!(event.controller, Some(64));
    assert_eq!(event.value, Some(127));
}

#[test]
fn activity_tracks_active_notes_and_sustain() {
    let mut snapshot = initial_snapshot();

    apply_midi_event(
        &mut snapshot,
        IncomingMidi {
            device_id: "casio.usb-midi".to_string(),
            bytes: vec![0x90, 60, 90],
        },
    );
    apply_midi_event(
        &mut snapshot,
        IncomingMidi {
            device_id: "casio.usb-midi".to_string(),
            bytes: vec![0xb0, 64, 127],
        },
    );

    let activity = &snapshot.device("casio.usb-midi").expect("known device").activity;
    assert_eq!(activity.active_notes, vec![60]);
    assert!(activity.sustain);
    assert_eq!(activity.event_count, 2);
}

#[test]
fn activity_tracks_current_and_last_chord() {
    let mut snapshot = initial_snapshot();
    for note in [60, 64, 67] {
        apply_midi_event(
            &mut snapshot,
            IncomingMidi {
                device_id: "casio.usb-midi".to_string(),
                bytes: vec![0x90, note, 90],
            },
        );
    }

    apply_midi_event(
        &mut snapshot,
        IncomingMidi {
            device_id: "casio.usb-midi".to_string(),
            bytes: vec![0x80, 60, 64],
        },
    );

    let activity = &snapshot.device("casio.usb-midi").expect("known device").activity;
    assert_eq!(activity.chord, None);
    assert_eq!(activity.last_chord.as_deref(), Some("C"));
}
