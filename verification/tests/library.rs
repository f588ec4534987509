use studio_control::activity::MidiActivity;
use studio_control::chord::detect_chord;
use studio_control::clock::{millis_since_epoch, millis_to_u64, now_ms};
use studio_control::midi::{decode_message, parse_midi_event_at, MidiEventKind};
use studio_control::ports::{find_port, reconcile_due, reconcile_step};
use studio_control::text::{text_contains, text_precedes};
use studio_control::protocol::{
    requested_command, socket_layout, ClientCommand, ServerMessage, SocketBase,
};
use studio_control::state::{
    apply_midi_event, initial_snapshot, insert_device_by_id, registered_devices, same_optional_text,
    AccessMode, DeviceSpec, DeviceState, IncomingMidi, Snapshot, PROTOCOL_VERSION,
};

fn send(snapshot: &mut Snapshot, device: &str, bytes: &[u8]) {
    apply_midi_event(
        snapshot,
        IncomingMidi {
            device_id: device.to_string(),
            bytes: bytes.to_vec(),
        },
    );
}

fn activity_of<'a>(snapshot: &'a Snapshot, device: &str) -> &'a MidiActivity {
    &snapshot.device(device).expect("registered device").activity
}

fn strings(names: &[&str]) -> Vec<String> {
    names.iter().map(|n| n.to_string()).collect()
}

#[test]
fn decodes_every_message_kind() {
    let program = decode_message(&vec![0xc3, 5]);
    assert_eq!(program.kind, MidiEventKind::ProgramChange);
    assert_eq!(program.channel, Some(3));
    assert_eq!(program.value, Some(5));
    assert_eq!(program.note, None);

    let bend = decode_message(&vec![0xe1, 0, 64]);
    assert_eq!(bend.kind, MidiEventKind::PitchBend);
    assert_eq!(bend.value, Some(64));

    let clock = decode_message(&vec![0xf8]);
    assert_eq!(clock.kind, MidiEventKind::System);
    assert_eq!(clock.channel, None);

    let aftertouch = decode_message(&vec![0xa0, 60, 10]);
    assert_eq!(aftertouch.kind, MidiEventKind::Other);
    assert_eq!(aftertouch.channel, Some(0));

    let empty = decode_message(&vec![]);
    assert_eq!(empty.kind, MidiEventKind::Other);
    assert_eq!(empty.channel, Some(0));

    let short_note_on = decode_message(&vec![0x9f, 60]);
    assert_eq!(short_note_on.kind, MidiEventKind::NoteOff);
    assert_eq!(short_note_on.channel, Some(15));
    assert_eq!(short_note_on.note, Some(60));
    assert_eq!(short_note_on.velocity, None);

    let off = decode_message(&vec![0x81, 61, 40]);
    assert_eq!(off.kind, MidiEventKind::NoteOff);
    assert_eq!(off.velocity, Some(40));
}

#[test]
fn kind_names_are_the_wire_names() {
    assert_eq!(MidiEventKind::NoteOn.name(), "note_on");
    assert_eq!(MidiEventKind::NoteOff.name(), "note_off");
    assert_eq!(MidiEventKind::ControlChange.name(), "control_change");
    assert_eq!(MidiEventKind::ProgramChange.name(), "program_change");
    assert_eq!(MidiEventKind::PitchBend.name(), "pitch_bend");
    assert_eq!(MidiEventKind::System.name(), "system");
    assert_eq!(MidiEventKind::Other.name(), "other");
}

#[test]
fn parsed_event_keeps_device_bytes_and_timestamp() {
    let event = parse_midi_event_at("casio.usb-midi".to_string(), vec![0xb2, 7, 100], 1234);
    assert_eq!(event.device_id, "casio.usb-midi");
    assert_eq!(event.timestamp_ms, 1234);
    assert_eq!(event.kind, "control_change");
    assert_eq!(event.channel, Some(2));
    assert_eq!(event.controller, Some(7));
    assert_eq!(event.value, Some(100));
    assert_eq!(event.raw, vec![0xb2, 7, 100]);
    let copy = event.clone();
    assert_eq!(copy.raw, event.raw);
    assert_eq!(copy.kind, event.kind);
}

#[test]
fn recognises_chords() {
    assert_eq!(detect_chord(&vec![60, 64, 67]).as_deref(), Some("C"));
    assert_eq!(detect_chord(&vec![57, 60, 64]).as_deref(), Some("Am"));
    assert_eq!(detect_chord(&vec![55, 59, 62, 65]).as_deref(), Some("G7"));
    assert_eq!(detect_chord(&vec![59, 62, 65]).as_deref(), Some("Bdim"));
    assert_eq!(detect_chord(&vec![60, 64, 68]).as_deref(), Some("Caug"));
    assert_eq!(detect_chord(&vec![62, 66, 69, 73]).as_deref(), Some("Dmaj7"));
    assert_eq!(detect_chord(&vec![64, 67, 71, 74]).as_deref(), Some("Em7"));
    assert_eq!(detect_chord(&vec![61, 64, 68]).as_deref(), Some("C#m"));
    assert_eq!(detect_chord(&vec![64, 67]), None);
    assert_eq!(detect_chord(&vec![]), None);
    assert_eq!(detect_chord(&vec![60, 61, 62]), None);
}

#[test]
fn chord_ignores_octave_order_and_doubling() {
    assert_eq!(detect_chord(&vec![79, 48, 64]).as_deref(), Some("C"));
    assert_eq!(detect_chord(&vec![60, 64, 67, 72, 76]).as_deref(), Some("C"));
}

#[test]
fn held_notes_stay_ascending_and_unique() {
    let mut snapshot = initial_snapshot();
    let keys = "casio.usb-midi";
    send(&mut snapshot, keys, &[0x90, 67, 80]);
    send(&mut snapshot, keys, &[0x90, 60, 80]);
    send(&mut snapshot, keys, &[0x90, 64, 80]);
    send(&mut snapshot, keys, &[0x90, 60, 80]);
    assert_eq!(activity_of(&snapshot, keys).active_notes, vec![60, 64, 67]);
    send(&mut snapshot, keys, &[0x90, 64, 0]);
    assert_eq!(activity_of(&snapshot, keys).active_notes, vec![60, 67]);
    assert_eq!(activity_of(&snapshot, keys).event_count, 5);
}

#[test]
fn press_then_release_restores_held_notes() {
    let mut snapshot = initial_snapshot();
    let keys = "casio.usb-midi";
    send(&mut snapshot, keys, &[0x90, 48, 70]);
    send(&mut snapshot, keys, &[0x90, 72, 70]);
    let before = activity_of(&snapshot, keys).active_notes.clone();
    send(&mut snapshot, keys, &[0x90, 55, 70]);
    assert_eq!(activity_of(&snapshot, keys).active_notes, vec![48, 55, 72]);
    send(&mut snapshot, keys, &[0x80, 55, 0]);
    assert_eq!(activity_of(&snapshot, keys).active_notes, before);
}

#[test]
fn sustain_follows_controller_64_threshold() {
    let mut snapshot = initial_snapshot();
    let keys = "casio.usb-midi";
    send(&mut snapshot, keys, &[0xb0, 64, 64]);
    assert!(activity_of(&snapshot, keys).sustain);
    send(&mut snapshot, keys, &[0xb0, 1, 0]);
    assert!(activity_of(&snapshot, keys).sustain);
    send(&mut snapshot, keys, &[0xb0, 64, 63]);
    assert!(!activity_of(&snapshot, keys).sustain);
    send(&mut snapshot, keys, &[0xb0, 64, 127]);
    send(&mut snapshot, keys, &[0xb0, 64]);
    assert!(!activity_of(&snapshot, keys).sustain);
}

#[test]
fn apply_returns_event_and_new_activity() {
    let mut snapshot = initial_snapshot();
    let (event, activity) = apply_midi_event(
        &mut snapshot,
        IncomingMidi {
            device_id: "novation.launchpad-original".to_string(),
            bytes: vec![0x90, 0x33, 0x7f],
        },
    );
    assert_eq!(event.device_id, "novation.launchpad-original");
    assert_eq!(event.kind, "note_on");
    assert_eq!(event.note, Some(0x33));
    assert_eq!(activity.active_notes, vec![0x33]);
    assert_eq!(activity.event_count, 1);
    let stored = activity_of(&snapshot, "novation.launchpad-original");
    assert_eq!(stored.event_count, 1);
    assert_eq!(stored.last_event.as_ref().map(|e| e.raw.clone()), Some(vec![0x90, 0x33, 0x7f]));
    assert_eq!(activity_of(&snapshot, "casio.usb-midi").event_count, 0);
}

#[test]
fn last_chord_survives_until_the_next_chord() {
    let mut snapshot = initial_snapshot();
    let keys = "casio.usb-midi";
    for note in [57, 60, 64] {
        send(&mut snapshot, keys, &[0x90, note, 90]);
    }
    assert_eq!(activity_of(&snapshot, keys).chord.as_deref(), Some("Am"));
    send(&mut snapshot, keys, &[0x80, 57, 0]);
    assert_eq!(activity_of(&snapshot, keys).chord, None);
    assert_eq!(activity_of(&snapshot, keys).last_chord.as_deref(), Some("Am"));
    send(&mut snapshot, keys, &[0x90, 67, 90]);
    assert_eq!(activity_of(&snapshot, keys).chord.as_deref(), Some("C"));
    assert_eq!(activity_of(&snapshot, keys).last_chord.as_deref(), Some("C"));
}

#[test]
fn initial_snapshot_registers_every_device_observed() {
    let snapshot = initial_snapshot();
    assert_eq!(snapshot.protocol_version, PROTOCOL_VERSION);
    assert_eq!(snapshot.protocol_version, 1);
    assert!(snapshot.daemon_started_at_ms > 1_600_000_000_000);
    let ids: Vec<&str> = snapshot.devices.iter().map(|d| d.id.as_str()).collect();
    assert_eq!(ids, vec!["behringer.umc404hd", "casio.usb-midi", "novation.launchpad-original"]);
    for device in &snapshot.devices {
        assert_eq!(device.access_mode, AccessMode::Observe);
        assert!(!device.midi_connected);
        assert_eq!(device.midi_port, None);
        assert_eq!(device.activity.event_count, 0);
        assert!(device.activity.active_notes.is_empty());
    }
    assert_eq!(snapshot.devices[0].name, "Behringer UMC404HD");
    assert_eq!(snapshot.devices[2].name, "Novation Launchpad");
    assert!(snapshot.device("unknown.device").is_none());
}

#[test]
fn registry_names_ports() {
    let specs = registered_devices();
    assert_eq!(specs.len(), 3);
    assert_eq!(specs[0].midi_name_contains, "Launchpad");
    assert_eq!(specs[1].midi_name_contains, "UMC404HD");
    assert_eq!(specs[2].midi_name_contains, "CASIO USB-MIDI");
    assert_eq!(specs[2].name, "Casio USB-MIDI Keyboard");
}

#[test]
fn defaults_are_observe_and_quiet() {
    assert_eq!(AccessMode::default(), AccessMode::Observe);
    let quiet = MidiActivity::default();
    assert!(quiet.active_notes.is_empty());
    assert!(!quiet.sustain);
    assert_eq!(quiet.event_count, 0);
    assert!(quiet.last_event.is_none());
    assert!(quiet.chord.is_none());
    assert!(quiet.last_chord.is_none());
}

#[test]
fn connection_changes_are_reported_once() {
    let mut snapshot = initial_snapshot();
    let id = "casio.usb-midi".to_string();
    let port = Some("CASIO USB-MIDI:CASIO USB-MIDI MIDI 1 20:0".to_string());
    assert!(snapshot.record_connection(&id, true, port.clone()));
    assert!(!snapshot.record_connection(&id, true, port.clone()));
    let device = snapshot.device("casio.usb-midi").unwrap();
    assert!(device.midi_connected);
    assert_eq!(device.midi_port, port);
    assert!(snapshot.record_connection(&id, false, None));
    assert!(!snapshot.device("casio.usb-midi").unwrap().midi_connected);
    assert!(!snapshot.record_connection(&"nobody".to_string(), true, None));
    assert!(same_optional_text(&None, &None));
    assert!(!same_optional_text(&Some("a".to_string()), &None));
}

#[test]
fn ports_are_matched_by_contained_name() {
    let available = strings(&[
        "Midi Through:Midi Through Port-0 14:0",
        "CASIO USB-MIDI:CASIO USB-MIDI MIDI 1 20:0",
        "Launchpad:Launchpad MIDI 1 24:0",
    ]);
    assert_eq!(
        find_port(&available, &"CASIO USB-MIDI".to_string()).as_deref(),
        Some("CASIO USB-MIDI:CASIO USB-MIDI MIDI 1 20:0")
    );
    assert_eq!(find_port(&available, &"UMC404HD".to_string()), None);
    assert_eq!(
        find_port(&available, &"".to_string()).as_deref(),
        Some("Midi Through:Midi Through Port-0 14:0")
    );
    assert!(text_contains(&"Launchpad MIDI".to_string(), &"pad M".to_string()));
    assert!(!text_contains(&"Launch".to_string(), &"Launchpad".to_string()));
    assert!(!text_contains(&"launchpad".to_string(), &"Launchpad".to_string()));
}

#[test]
fn reconcile_decides_connect_and_disconnect() {
    let spec = DeviceSpec {
        id: "novation.launchpad-original".to_string(),
        name: "Novation Launchpad".to_string(),
        midi_name_contains: "Launchpad".to_string(),
    };
    let present = strings(&["Launchpad:Launchpad MIDI 1 24:0"]);
    let absent = strings(&["Midi Through:Midi Through Port-0 14:0"]);

    let step = reconcile_step(&spec, &present, false);
    assert_eq!(step.matched_port.as_deref(), Some("Launchpad:Launchpad MIDI 1 24:0"));
    assert!(step.connect);
    assert!(!step.disconnect);

    let step = reconcile_step(&spec, &present, true);
    assert!(!step.connect);
    assert!(!step.disconnect);

    let step = reconcile_step(&spec, &absent, true);
    assert_eq!(step.matched_port, None);
    assert!(step.disconnect);
    assert!(!step.connect);

    let step = reconcile_step(&spec, &absent, false);
    assert!(!step.disconnect);
    assert!(!step.connect);
}

#[test]
fn client_commands_are_answered() {
    let snapshot = initial_snapshot();
    let status = ClientCommand { command: "status".to_string() };
    match status.answer(&snapshot) {
        (ServerMessage::Snapshot { snapshot: copy }, subscribe) => {
            assert!(!subscribe);
            assert_eq!(copy.devices.len(), 3);
            assert_eq!(copy.daemon_started_at_ms, snapshot.daemon_started_at_ms);
        }
        other => panic!("unexpected answer {:?}", other),
    }
    assert!(status.ends_after_first_reply());

    let watch = ClientCommand { command: "watch".to_string() };
    match watch.answer(&snapshot) {
        (ServerMessage::Snapshot { .. }, subscribe) => assert!(subscribe),
        other => panic!("unexpected answer {:?}", other),
    }
    assert!(!watch.ends_after_first_reply());

    let bogus = ClientCommand { command: "reboot".to_string() };
    match bogus.answer(&snapshot) {
        (ServerMessage::Error { message }, subscribe) => {
            assert!(!subscribe);
            assert_eq!(message, "unknown command: reboot");
        }
        other => panic!("unexpected answer {:?}", other),
    }
}

#[test]
fn command_line_chooses_command() {
    assert_eq!(requested_command(None).map(|c| c.command).as_deref(), Some("status"));
    assert_eq!(
        requested_command(Some("watch".to_string())).map(|c| c.command).as_deref(),
        Some("watch")
    );
    assert_eq!(
        requested_command(Some("status".to_string())).map(|c| c.command).as_deref(),
        Some("status")
    );
    assert!(requested_command(Some("stop".to_string())).is_none());
}

#[test]
fn socket_layout_prefers_runtime_dir() {
    let (base, parts) = socket_layout(true, Some("ada".to_string()));
    assert_eq!(base, SocketBase::RuntimeDir);
    assert_eq!(parts, vec!["studio-control".to_string(), "control.sock".to_string()]);

    let (base, parts) = socket_layout(false, Some("ada".to_string()));
    assert_eq!(base, SocketBase::TempDir);
    assert_eq!(parts, vec!["studio-control-ada.sock".to_string()]);

    let (_, parts) = socket_layout(false, None);
    assert_eq!(parts, vec!["studio-control-unknown.sock".to_string()]);
}

#[test]
fn clock_reads_milliseconds_since_epoch() {
    let first = now_ms();
    let second = now_ms();
    assert!(first > 1_600_000_000_000);
    assert!(second >= first);
    assert_eq!(millis_to_u64(42), 42);
    assert_eq!(millis_to_u64(u64::MAX as u128), u64::MAX);
    assert_eq!(millis_to_u64(u64::MAX as u128 + 1), u64::MAX);
}

#[test]
fn snapshot_clone_keeps_devices() {
    let mut snapshot = initial_snapshot();
    send(&mut snapshot, "casio.usb-midi", &[0x90, 60, 1]);
    let copy = snapshot.clone();
    assert_eq!(copy.devices.len(), snapshot.devices.len());
    assert_eq!(activity_of(&copy, "casio.usb-midi").active_notes, vec![60]);
    assert_eq!(copy.devices[1].activity.last_event.as_ref().unwrap().raw, vec![0x90, 60, 1]);
}

#[test]
fn clock_readings_before_the_epoch_give_zero() {
    assert_eq!(millis_since_epoch(None), 0);
    assert_eq!(millis_since_epoch(Some(1_700_000_000_123)), 1_700_000_000_123);
    assert_eq!(millis_since_epoch(Some(u128::MAX)), u64::MAX);
}

#[test]
fn strings_are_ordered_like_map_keys() {
    let s = |t: &str| t.to_string();
    assert!(text_precedes(&s("behringer.umc404hd"), &s("casio.usb-midi")));
    assert!(!text_precedes(&s("novation.launchpad-original"), &s("casio.usb-midi")));
    assert!(text_precedes(&s("casio"), &s("casio.usb-midi")));
    assert!(!text_precedes(&s("casio"), &s("casio")));
    assert!(!text_precedes(&s("b"), &s("")));
    assert!(text_precedes(&s("Z"), &s("a")));
}

#[test]
fn devices_are_placed_by_id() {
    let fresh = |id: &str| {
        DeviceState::fresh(&DeviceSpec {
            id: id.to_string(),
            name: id.to_string(),
            midi_name_contains: id.to_string(),
        })
    };
    let mut devices = Vec::new();
    insert_device_by_id(&mut devices, fresh("m"));
    insert_device_by_id(&mut devices, fresh("z"));
    insert_device_by_id(&mut devices, fresh("a"));
    insert_device_by_id(&mut devices, fresh("n"));
    let ids: Vec<&str> = devices.iter().map(|d| d.id.as_str()).collect();
    assert_eq!(ids, vec!["a", "m", "n", "z"]);
}

#[test]
fn settling_marks_connected_only_with_a_port() {
    let mut snapshot = initial_snapshot();
    let id = "behringer.umc404hd".to_string();
    let port = Some("UMC404HD 192k:UMC404HD 192k MIDI 1 28:0".to_string());

    assert!(!snapshot.settle_connection(&id, None, false, true));
    assert!(!snapshot.device("behringer.umc404hd").unwrap().midi_connected);

    assert!(snapshot.settle_connection(&id, port.clone(), false, false));
    let device = snapshot.device("behringer.umc404hd").unwrap();
    assert!(!device.midi_connected);
    assert_eq!(device.midi_port, port);
    assert!(!snapshot.settle_connection(&id, port.clone(), false, false));

    assert!(snapshot.settle_connection(&id, port.clone(), false, true));
    assert!(snapshot.device("behringer.umc404hd").unwrap().midi_connected);
    assert!(!snapshot.settle_connection(&id, port.clone(), true, false));

    assert!(snapshot.settle_connection(&id, None, true, false));
    let device = snapshot.device("behringer.umc404hd").unwrap();
    assert!(!device.midi_connected);
    assert_eq!(device.midi_port, None);
}

#[test]
fn reconcile_runs_once_a_second() {
    assert!(!reconcile_due(0));
    assert!(!reconcile_due(999));
    assert!(reconcile_due(1000));
    assert!(reconcile_due(5000));
}
