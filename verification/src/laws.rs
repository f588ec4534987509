//! Properties of the library that span several calls or hold of every
//! state it can reach.

use crate::activity::{activity_follows, held_notes_follow, MidiActivityView};
use crate::chord::{
    chord_of, covers_pitch_class, first_chord_from, forms_chord, pitch_class_name, shape_has,
    shape_suffix,
};
use crate::midi::{decode, kind_name, lemma_kind_names_distinct, MidiEventKind, MidiEventView};
use crate::notes::{
    ascending, lemma_occurrences_push, occurrences, same_notes, strictly_ascending, without,
};
use crate::state::{
    connection_follows, device_position, devices_by_id, fresh_device, fresh_snapshot_view,
    id_slot_from, lemma_position_from, position_from, settled_connection, registered_device_specs, snapshot_follows, AccessMode,
    DeviceSpecView, DeviceStateView, SnapshotView,
};
use crate::text::text_less;
use vstd::prelude::*;

verus! {

/// A note occurs in a sequence exactly when it is counted there.
pub proof fn lemma_occurrences_positive(notes: Seq<u8>, note: u8)
    ensures
        occurrences(notes, note) > 0 <==> notes.contains(note),
    decreases notes.len(),
{
    if notes.len() > 0 {
        let shorter = notes.drop_last();
        lemma_occurrences_positive(shorter, note);
        if shorter.contains(note) {
            let i = choose|i: int| 0 <= i < shorter.len() && shorter[i] == note;
            assert(notes[i] == note);
        }
        if notes.contains(note) && notes.last() != note {
            let i = choose|i: int| 0 <= i < notes.len() && notes[i] == note;
            assert(shorter[i] == note);
        }
    }
}

/// Taking a note out removes all its occurrences and keeps the others.
pub proof fn lemma_without_occurrences(notes: Seq<u8>, removed: u8, note: u8)
    ensures
        occurrences(without(notes, removed), note) == if note == removed {
            0
        } else {
            occurrences(notes, note)
        },
    decreases notes.len(),
{
    if notes.len() > 0 {
        let shorter = notes.drop_last();
        lemma_without_occurrences(shorter, removed, note);
        if notes.last() != removed {
            lemma_occurrences_push(without(shorter, removed), notes.last(), note);
        }
    }
}

/// Every note left after taking one out was there before.
pub proof fn lemma_without_members(notes: Seq<u8>, removed: u8)
    ensures
        forall|i: int| 0 <= i < without(notes, removed).len() ==> notes.contains(#[trigger] without(notes, removed)[i]),
    decreases notes.len(),
{
    if notes.len() > 0 {
        let shorter = notes.drop_last();
        lemma_without_members(shorter, removed);
        let rest = without(shorter, removed);
        assert forall|i: int| 0 <= i < without(notes, removed).len() implies notes.contains(
            #[trigger] without(notes, removed)[i],
        ) by {
            if i < rest.len() {
                let x = rest[i];
                assert(shorter.contains(x));
                let j = choose|j: int| 0 <= j < shorter.len() && shorter[j] == x;
                assert(notes[j] == x);
            } else {
                assert(notes[notes.len() - 1] == notes.last());
            }
        }
    }
}

/// Taking a note out of ascending notes leaves them ascending.
pub proof fn lemma_without_ascending(notes: Seq<u8>, removed: u8)
    requires
        ascending(notes),
    ensures
        ascending(without(notes, removed)),
    decreases notes.len(),
{
    if notes.len() > 0 {
        let shorter = notes.drop_last();
        assert(ascending(shorter));
        lemma_without_ascending(shorter, removed);
        lemma_without_members(shorter, removed);
        let rest = without(shorter, removed);
        if notes.last() != removed {
            assert forall|i: int, j: int| 0 <= i <= j < rest.push(notes.last()).len() implies rest.push(
                notes.last(),
            )[i] <= rest.push(notes.last())[j] by {
                if j == rest.len() && i < j {
                    assert(shorter.contains(rest[i]));
                    let k = choose|k: int| 0 <= k < shorter.len() && shorter[k] == rest[i];
                    assert(notes[k] <= notes[notes.len() - 1]);
                }
            }
        }
    }
}

/// Two ascending sequences holding the same notes equally often are equal.
pub proof fn lemma_ascending_same_notes_equal(a: Seq<u8>, b: Seq<u8>)
    requires
        ascending(a),
        ascending(b),
        same_notes(a, b),
    ensures
        a == b,
    decreases a.len() + b.len(),
{
    if a.len() == 0 && b.len() == 0 {
        assert(a =~= b);
    } else if a.len() == 0 {
        lemma_occurrences_positive(b, b.last());
        lemma_occurrences_positive(a, b.last());
        assert(b.contains(b.last())) by {
            assert(b[b.len() - 1] == b.last());
        }
        assert(occurrences(a, b.last()) == occurrences(b, b.last()));
    } else if b.len() == 0 {
        lemma_occurrences_positive(a, a.last());
        lemma_occurrences_positive(b, a.last());
        assert(a.contains(a.last())) by {
            assert(a[a.len() - 1] == a.last());
        }
        assert(occurrences(a, a.last()) == occurrences(b, a.last()));
    } else {
        let x = a.last();
        let y = b.last();
        lemma_occurrences_positive(a, x);
        lemma_occurrences_positive(b, x);
        lemma_occurrences_positive(a, y);
        lemma_occurrences_positive(b, y);
        assert(a[a.len() - 1] == x);
        assert(b[b.len() - 1] == y);
        assert(occurrences(a, x) == occurrences(b, x));
        assert(occurrences(a, y) == occurrences(b, y));
        let i = choose|i: int| 0 <= i < b.len() && b[i] == x;
        let j = choose|j: int| 0 <= j < a.len() && a[j] == y;
        assert(x <= y);
        assert(y <= x);
        let a2 = a.drop_last();
        let b2 = b.drop_last();
        assert(ascending(a2));
        assert(ascending(b2));
        assert forall|note: u8| #[trigger] occurrences(a2, note) == occurrences(b2, note) by {
            assert(occurrences(a, note) == occurrences(b, note));
        }
        lemma_ascending_same_notes_equal(a2, b2);
        assert(a =~= a2.push(x));
        assert(b =~= b2.push(y));
    }
}

/// A note-on with velocity 0 is a note-off for the same note on the same
/// channel.
pub proof fn law_silent_note_on_is_note_off(raw: Seq<u8>)
    requires
        raw.len() >= 3,
        raw[0] / 16 == 0x9,
        raw[2] == 0,
    ensures
        decode(raw).kind == MidiEventKind::NoteOff,
        decode(raw).note == Some(raw[1]),
        decode(raw).velocity == Some(0u8),
        decode(raw).channel == Some(raw[0] % 16),
{
}

/// Every channel message carries the low nibble of its status byte as
/// its channel; system messages (status 0xF0 and up) carry none.
pub proof fn law_channel_is_low_nibble(raw: Seq<u8>)
    requires
        raw.len() > 0,
    ensures
        decode(raw).channel == if raw[0] < 0xf0 {
            Some(raw[0] % 16)
        } else {
            None
        },
        raw[0] >= 0xf0 ==> decode(raw).kind == MidiEventKind::System,
{
}

/// Held notes that are in ascending order stay so on every event.
pub proof fn law_held_notes_stay_ascending(held: Seq<u8>, event: MidiEventView, after: Seq<u8>)
    requires
        ascending(held),
        held_notes_follow(held, event, after),
    ensures
        ascending(after),
{
    if !(event.kind == kind_name(MidiEventKind::NoteOn) && event.note is Some && !held.contains(
        event.note->0,
    )) && event.kind == kind_name(MidiEventKind::NoteOff) && event.note is Some {
        lemma_without_ascending(held, event.note->0);
    }
}

/// Strictly ascending notes hold each note at most once.
pub proof fn lemma_strict_occurs_at_most_once(notes: Seq<u8>, note: u8)
    requires
        strictly_ascending(notes),
    ensures
        occurrences(notes, note) <= 1,
    decreases notes.len(),
{
    if notes.len() > 0 {
        let shorter = notes.drop_last();
        assert(strictly_ascending(shorter));
        lemma_strict_occurs_at_most_once(shorter, note);
        if notes.last() == note {
            lemma_occurrences_positive(shorter, note);
            if shorter.contains(note) {
                let i = choose|i: int| 0 <= i < shorter.len() && shorter[i] == note;
                assert(notes[i] < notes[notes.len() - 1]);
            }
        }
    }
}

/// A note found at two positions is counted at least twice.
pub proof fn lemma_two_positions(notes: Seq<u8>, i: int, j: int)
    requires
        0 <= i < j < notes.len(),
        notes[i] == notes[j],
    ensures
        occurrences(notes, notes[i]) >= 2,
    decreases notes.len(),
{
    let shorter = notes.drop_last();
    if j == notes.len() - 1 {
        lemma_occurrences_positive(shorter, notes[i]);
        assert(shorter[i] == notes[i]);
    } else {
        lemma_two_positions(shorter, i, j);
    }
}

/// Ascending notes that hold no note twice are strictly ascending.
pub proof fn lemma_ascending_once_is_strict(notes: Seq<u8>)
    requires
        ascending(notes),
        forall|note: u8| #[trigger] occurrences(notes, note) <= 1,
    ensures
        strictly_ascending(notes),
{
    assert forall|i: int, j: int| 0 <= i < j < notes.len() implies notes[i] < notes[j] by {
        if notes[i] == notes[j] {
            lemma_two_positions(notes, i, j);
            assert(occurrences(notes, notes[i]) <= 1);
        }
    }
}

/// Held notes that are strictly ascending (no note held twice) stay so on
/// every event.
pub proof fn law_held_notes_stay_strict(held: Seq<u8>, event: MidiEventView, after: Seq<u8>)
    requires
        strictly_ascending(held),
        held_notes_follow(held, event, after),
    ensures
        strictly_ascending(after),
{
    assert(ascending(held));
    law_held_notes_stay_ascending(held, event, after);
    if event.kind == kind_name(MidiEventKind::NoteOn) && event.note is Some && !held.contains(
        event.note->0,
    ) {
        let n = event.note->0;
        assert forall|x: u8| #[trigger] occurrences(after, x) <= 1 by {
            lemma_strict_occurs_at_most_once(held, x);
            lemma_occurrences_push(held, n, x);
            lemma_occurrences_positive(held, n);
            assert(occurrences(after, x) == occurrences(held.push(n), x));
        }
        lemma_ascending_once_is_strict(after);
    } else if event.kind == kind_name(MidiEventKind::NoteOff) && event.note is Some {
        let n = event.note->0;
        assert forall|x: u8| #[trigger] occurrences(after, x) <= 1 by {
            lemma_strict_occurs_at_most_once(held, x);
            lemma_without_occurrences(held, n, x);
        }
        lemma_ascending_once_is_strict(after);
    }
}

/// Recording MIDI input keeps the held notes of every device strictly
/// ascending, and so the activity that is published with the event.
pub proof fn law_midi_input_keeps_held_notes_strict(
    snapshot: SnapshotView,
    pos: int,
    event: MidiEventView,
    after: SnapshotView,
)
    requires
        forall|k: int|
            0 <= k < snapshot.devices.len() ==> strictly_ascending(
                #[trigger] snapshot.devices[k].activity.active_notes,
            ),
        0 <= pos < snapshot.devices.len(),
        snapshot_follows(snapshot, pos, event, after),
    ensures
        forall|k: int|
            0 <= k < after.devices.len() ==> strictly_ascending(
                #[trigger] after.devices[k].activity.active_notes,
            ),
{
    assert forall|k: int| 0 <= k < after.devices.len() implies strictly_ascending(
        #[trigger] after.devices[k].activity.active_notes,
    ) by {
        if k == pos {
            law_held_notes_stay_strict(
                snapshot.devices[pos].activity.active_notes,
                event,
                after.devices[pos].activity.active_notes,
            );
        } else {
            assert(after.devices[k] == snapshot.devices[k]);
        }
    }
}

/// Pressing a key that is not held and releasing it again leaves the held
/// notes as they were.
pub proof fn law_press_then_release_restores(
    held: Seq<u8>,
    press: MidiEventView,
    release: MidiEventView,
    note: u8,
    pressed: Seq<u8>,
    released: Seq<u8>,
)
    requires
        ascending(held),
        !held.contains(note),
        press.kind == kind_name(MidiEventKind::NoteOn),
        press.note == Some(note),
        release.kind == kind_name(MidiEventKind::NoteOff),
        release.note == Some(note),
        held_notes_follow(held, press, pressed),
        held_notes_follow(pressed, release, released),
    ensures
        released == held,
{
    lemma_kind_names_distinct(MidiEventKind::NoteOn, MidiEventKind::NoteOff);
    assert(ascending(pressed));
    assert(released == without(pressed, note));
    lemma_without_ascending(pressed, note);
    assert forall|x: u8| #[trigger] occurrences(released, x) == occurrences(held, x) by {
        lemma_without_occurrences(pressed, note, x);
        lemma_occurrences_push(held, note, x);
        assert(occurrences(pressed, x) == occurrences(held.push(note), x));
        lemma_occurrences_positive(held, note);
    }
    lemma_ascending_same_notes_equal(released, held);
}

/// The chord search finds the same chord in notes that cover the same
/// pitch classes, from any position on.
proof fn lemma_first_chord_same_cover(a: Seq<u8>, b: Seq<u8>, k: int)
    requires
        forall|pc: int| 0 <= pc < 12 ==> covers_pitch_class(a, pc) == covers_pitch_class(b, pc),
    ensures
        first_chord_from(a, k) == first_chord_from(b, k),
    decreases 84 - k,
{
    if 0 <= k < 84 {
        assert(forms_chord(a, k / 7, k % 7) == forms_chord(b, k / 7, k % 7));
        lemma_first_chord_same_cover(a, b, k + 1);
    }
}

/// The chord depends only on the pitch classes held: neither the order of
/// the notes, nor repeated notes, nor the octave a note is played in
/// changes it.
pub proof fn law_chord_depends_on_pitch_classes(a: Seq<u8>, b: Seq<u8>)
    requires
        forall|pc: int| 0 <= pc < 12 ==> covers_pitch_class(a, pc) == covers_pitch_class(b, pc),
    ensures
        chord_of(a) == chord_of(b),
{
    lemma_first_chord_same_cover(a, b, 0);
}

/// The snapshot the daemon starts with lists the registered devices in
/// order of id (Behringer, Casio, Novation), as a map keyed by id does.
pub proof fn law_fresh_snapshot_order(started_at_ms: u64)
    ensures
        fresh_snapshot_view(started_at_ms).devices == seq![
            fresh_device(registered_device_specs()[1]),
            fresh_device(registered_device_specs()[2]),
            fresh_device(registered_device_specs()[0]),
        ],
{
    reveal_strlit("novation.launchpad-original");
    reveal_strlit("behringer.umc404hd");
    reveal_strlit("casio.usb-midi");
    let registry = registered_device_specs();
    let novation = fresh_device(registry[0]);
    let behringer = fresh_device(registry[1]);
    let casio = fresh_device(registry[2]);
    assert(registry.drop_last().drop_last().drop_last() =~= Seq::<DeviceSpecView>::empty());
    assert(registry.drop_last().drop_last().last() == registry[0]);
    assert(registry.drop_last().last() == registry[1]);
    assert(registry.last() == registry[2]);
    let none = registry.drop_last().drop_last().drop_last();
    assert(devices_by_id(none) =~= Seq::<DeviceStateView>::empty());
    assert(id_slot_from(Seq::<DeviceStateView>::empty(), novation.id, 0) == 0);
    let one = devices_by_id(registry.drop_last().drop_last());
    assert(registry.drop_last().drop_last().drop_last() == none);
    assert(one =~= seq![novation]);
    assert(novation.id[0] == 'n');
    assert(behringer.id[0] == 'b');
    assert(casio.id[0] == 'c');
    assert(!text_less(novation.id, behringer.id));
    let two = devices_by_id(registry.drop_last());
    assert(id_slot_from(one, behringer.id, 0) == 0);
    assert(two =~= seq![behringer, novation]);
    assert(text_less(behringer.id, casio.id));
    assert(!text_less(novation.id, casio.id));
    assert(id_slot_from(two, casio.id, 1) == 1);
    assert(id_slot_from(two, casio.id, 0) == 1);
    assert(devices_by_id(registry) =~= seq![behringer, casio, novation]);
}

/// The snapshot the daemon starts with is well formed: the registered
/// devices are in order of id, each id once. Every device starts
/// observed only, disconnected, with no port.
pub proof fn law_fresh_snapshot_well_formed(started_at_ms: u64)
    ensures
        fresh_snapshot_view(started_at_ms).well_formed(),
        forall|i: int|
            0 <= i < fresh_snapshot_view(started_at_ms).devices.len() ==> {
                let d = #[trigger] fresh_snapshot_view(started_at_ms).devices[i];
                d.access_mode == AccessMode::Observe && !d.midi_connected && d.midi_port is None
            },
{
    law_fresh_snapshot_order(started_at_ms);
    reveal_strlit("novation.launchpad-original");
    reveal_strlit("behringer.umc404hd");
    reveal_strlit("casio.usb-midi");
    let devices = fresh_snapshot_view(started_at_ms).devices;
    assert(devices[0].id[0] == 'b');
    assert(devices[1].id[0] == 'c');
    assert(devices[2].id[0] == 'n');
    assert(text_less(devices[0].id, devices[1].id));
    assert(text_less(devices[0].id, devices[2].id));
    assert(text_less(devices[1].id, devices[2].id));
}

/// Recording MIDI input keeps a well-formed snapshot well formed.
pub proof fn law_midi_input_keeps_well_formed(
    snapshot: SnapshotView,
    pos: int,
    event: MidiEventView,
    after: SnapshotView,
)
    requires
        snapshot.well_formed(),
        0 <= pos < snapshot.devices.len(),
        snapshot_follows(snapshot, pos, event, after),
    ensures
        after.well_formed(),
{
    assert forall|i: int| 0 <= i < after.devices.len() implies #[trigger] after.devices[i].id
        == snapshot.devices[i].id by {
        if i != pos {
            assert(after.devices[i] == snapshot.devices[i]);
        }
    }
}

/// Recording a device's connection keeps a well-formed snapshot well
/// formed.
pub proof fn law_connection_keeps_well_formed(
    snapshot: SnapshotView,
    id: Seq<char>,
    connected: bool,
    port: Option<Seq<char>>,
    after: SnapshotView,
    changed: bool,
)
    requires
        snapshot.well_formed(),
        connection_follows(snapshot, id, connected, port, after, changed),
    ensures
        after.well_formed(),
{
    lemma_position_from(snapshot.devices, id, 0);
    let pos = device_position(snapshot.devices, id);
    if changed {
        assert forall|i: int| 0 <= i < after.devices.len() implies #[trigger] after.devices[i].id
            == snapshot.devices[i].id by {}
    }
}

/// No string comes before itself.
pub proof fn lemma_text_less_irreflexive(a: Seq<char>)
    ensures
        !text_less(a, a),
    decreases a.len(),
{
    if a.len() > 0 {
        lemma_text_less_irreflexive(a.drop_first());
    }
}

/// In a well-formed snapshot no two devices share an id.
pub proof fn law_well_formed_ids_distinct(snapshot: SnapshotView)
    requires
        snapshot.well_formed(),
    ensures
        forall|i: int, j: int|
            0 <= i < j < snapshot.devices.len() ==> #[trigger] snapshot.devices[i].id
                != #[trigger] snapshot.devices[j].id,
{
    assert forall|i: int, j: int| 0 <= i < j < snapshot.devices.len() implies #[trigger] snapshot.devices[i].id
        != #[trigger] snapshot.devices[j].id by {
        lemma_text_less_irreflexive(snapshot.devices[i].id);
    }
}

/// Devices with the same ids, position by position, have the device `id`
/// at the same position.
proof fn lemma_position_same_ids(a: Seq<DeviceStateView>, b: Seq<DeviceStateView>, id: Seq<char>, from: int)
    requires
        a.len() == b.len(),
        forall|k: int| 0 <= k < a.len() ==> #[trigger] a[k].id == b[k].id,
    ensures
        position_from(a, id, from) == position_from(b, id, from),
    decreases a.len() - from,
{
    if 0 <= from < a.len() {
        lemma_position_same_ids(a, b, id, from + 1);
    }
}

/// After a reconcile the device is marked connected only when it was
/// found on a port, so a connected device always names its port.
pub proof fn law_connected_device_names_port(
    snapshot: SnapshotView,
    id: Seq<char>,
    port: Option<Seq<char>>,
    was_connected: bool,
    connect_succeeded: bool,
    after: SnapshotView,
    changed: bool,
)
    requires
        forall|k: int|
            0 <= k < snapshot.devices.len() && #[trigger] snapshot.devices[k].midi_connected
                ==> snapshot.devices[k].midi_port is Some,
        connection_follows(
            snapshot,
            id,
            settled_connection(port is Some, was_connected, connect_succeeded),
            port,
            after,
            changed,
        ),
    ensures
        forall|k: int|
            0 <= k < after.devices.len() && #[trigger] after.devices[k].midi_connected
                ==> after.devices[k].midi_port is Some,
{
    lemma_position_from(snapshot.devices, id, 0);
}

/// Reconciling a device again with the same port, when the connection
/// that was open stays open and a connection that failed fails again,
/// changes nothing.
pub proof fn law_settling_again_changes_nothing(
    snapshot: SnapshotView,
    id: Seq<char>,
    port: Option<Seq<char>>,
    was_connected: bool,
    connect_succeeded: bool,
    after: SnapshotView,
    changed: bool,
    again: SnapshotView,
    changed_again: bool,
)
    requires
        connection_follows(
            snapshot,
            id,
            settled_connection(port is Some, was_connected, connect_succeeded),
            port,
            after,
            changed,
        ),
        connection_follows(
            after,
            id,
            settled_connection(
                port is Some,
                settled_connection(port is Some, was_connected, connect_succeeded),
                false,
            ),
            port,
            again,
            changed_again,
        ),
    ensures
        !changed_again,
        again == after,
{
    lemma_position_from(snapshot.devices, id, 0);
    assert forall|k: int| 0 <= k < snapshot.devices.len() implies #[trigger] snapshot.devices[k].id
        == after.devices[k].id by {}
    lemma_position_same_ids(snapshot.devices, after.devices, id, 0);
}

/// The sustain pedal is down exactly when the last value sent on
/// controller 64 is 64 or more (0 when the message carries no value),
/// whatever it was before: a pedal pressed further down stays down.
pub proof fn law_sustain_is_set_by_pedal_value(
    before: MidiActivityView,
    event: MidiEventView,
    after: MidiActivityView,
)
    requires
        activity_follows(before, event, after),
        event.kind == "control_change"@,
        event.controller == Some(64u8),
    ensures
        after.sustain == (event.value.unwrap_or(0) >= 64),
{
}

/// Only other controllers, and other messages, leave the sustain pedal as
/// it was.
pub proof fn law_sustain_kept_by_other_messages(
    before: MidiActivityView,
    event: MidiEventView,
    after: MidiActivityView,
)
    requires
        activity_follows(before, event, after),
        event.kind != "control_change"@ || event.controller != Some(64u8),
    ensures
        after.sustain == before.sustain,
{
}

/// Every event, of whatever kind, is counted once and becomes the last
/// event of the activity.
pub proof fn law_every_event_is_the_last_event(
    before: MidiActivityView,
    event: MidiEventView,
    after: MidiActivityView,
)
    requires
        activity_follows(before, event, after),
    ensures
        after.last_event == Some(event),
        after.event_count == before.event_count + 1,
{
}

/// Recording MIDI input makes the event the device's last event and counts
/// it, whatever its kind; the other devices keep theirs.
pub proof fn law_midi_input_records_last_event(
    snapshot: SnapshotView,
    pos: int,
    event: MidiEventView,
    after: SnapshotView,
)
    requires
        0 <= pos < snapshot.devices.len(),
        snapshot_follows(snapshot, pos, event, after),
    ensures
        after.devices[pos].activity.last_event == Some(event),
        after.devices[pos].activity.event_count == snapshot.devices[pos].activity.event_count + 1,
        forall|k: int|
            0 <= k < snapshot.devices.len() && k != pos ==> #[trigger] after.devices[k].activity.last_event
                == snapshot.devices[k].activity.last_event,
{
    assert forall|k: int| 0 <= k < snapshot.devices.len() && k != pos implies #[trigger] after.devices[k].activity.last_event
        == snapshot.devices[k].activity.last_event by {
        assert(after.devices[k] == snapshot.devices[k]);
    }
}

/// How a message is classified, by the range its status byte falls in:
/// 0x80-0x8F note-off; 0x90-0x9F note-on, or note-off when the velocity is
/// 0 or missing; 0xB0-0xBF control change; 0xC0-0xCF program change;
/// 0xE0-0xEF pitch bend; 0xF0 and up system; everything else (status
/// below 0x80, polyphonic and channel pressure 0xA0-0xAF and 0xD0-0xDF,
/// an empty message) other.
pub proof fn law_kind_by_status_range(raw: Seq<u8>)
    ensures
        raw.len() == 0 ==> decode(raw).kind == MidiEventKind::Other,
        raw.len() > 0 && raw[0] < 0x80 ==> decode(raw).kind == MidiEventKind::Other,
        raw.len() > 0 && 0x80 <= raw[0] <= 0x8f ==> decode(raw).kind == MidiEventKind::NoteOff,
        raw.len() > 0 && 0x90 <= raw[0] <= 0x9f ==> decode(raw).kind == if raw.len() > 2 && raw[2] != 0 {
            MidiEventKind::NoteOn
        } else {
            MidiEventKind::NoteOff
        },
        raw.len() > 0 && 0xa0 <= raw[0] <= 0xaf ==> decode(raw).kind == MidiEventKind::Other,
        raw.len() > 0 && 0xb0 <= raw[0] <= 0xbf ==> decode(raw).kind == MidiEventKind::ControlChange,
        raw.len() > 0 && 0xc0 <= raw[0] <= 0xcf ==> decode(raw).kind == MidiEventKind::ProgramChange,
        raw.len() > 0 && 0xd0 <= raw[0] <= 0xdf ==> decode(raw).kind == MidiEventKind::Other,
        raw.len() > 0 && 0xe0 <= raw[0] <= 0xef ==> decode(raw).kind == MidiEventKind::PitchBend,
        raw.len() > 0 && raw[0] >= 0xf0 ==> decode(raw).kind == MidiEventKind::System,
{
}

/// Only a status byte 0xC0-0xCF gives a program change, and its value is
/// the program number, the byte after the status; channel pressure
/// (0xD0-0xDF) carries no value.
pub proof fn law_program_change_only_from_its_status(raw: Seq<u8>)
    ensures
        decode(raw).kind == MidiEventKind::ProgramChange <==> (raw.len() > 0 && 0xc0 <= raw[0] <= 0xcf),
        decode(raw).kind == MidiEventKind::ProgramChange ==> decode(raw).value == (if raw.len() > 1 {
            Some(raw[1])
        } else {
            None
        }),
        raw.len() > 0 && 0xd0 <= raw[0] <= 0xdf ==> decode(raw).value is None,
{
}

/// The names of the twelve pitch classes, from C upwards, with sharps.
pub open spec fn note_names() -> Seq<Seq<char>> {
    seq!["C"@, "C#"@, "D"@, "D#"@, "E"@, "F"@, "F#"@, "G"@, "G#"@, "A"@, "A#"@, "B"@]
}

/// Pitch class `pc` is named by its place in the list of note names, and
/// no two pitch classes share a name.
pub proof fn law_pitch_class_names(pc: int, other: int)
    requires
        0 <= pc < 12,
        0 <= other < 12,
    ensures
        pitch_class_name(pc) == note_names()[pc],
        pc != other ==> pitch_class_name(pc) != pitch_class_name(other),
{
    reveal_strlit("C");
    reveal_strlit("C#");
    reveal_strlit("D");
    reveal_strlit("D#");
    reveal_strlit("E");
    reveal_strlit("F");
    reveal_strlit("F#");
    reveal_strlit("G");
    reveal_strlit("G#");
    reveal_strlit("A");
    reveal_strlit("A#");
    reveal_strlit("B");
    let a = pitch_class_name(pc);
    let b = pitch_class_name(other);
    if pc != other && a == b {
        assert(a.len() == b.len());
        assert(a[0] == b[0]);
        if a.len() == 2 {
            assert(a[1] == b[1]);
        }
    }
}

/// Whether the pitch classes covered by `notes` are exactly those of a
/// major triad on `root`: the root, its major third and its fifth.
pub open spec fn covers_major_triad(notes: Seq<u8>, root: int) -> bool {
    forall|pc: int|
        0 <= pc < 12 ==> (#[trigger] covers_pitch_class(notes, pc) <==> (pc == root || pc == (root + 4)
            % 12 || pc == (root + 7) % 12))
}

/// A major triad on `root` forms no chord on another root.
proof fn lemma_major_triad_on_no_other_root(notes: Seq<u8>, root: int, other: int, shape: int)
    requires
        0 <= root < 12,
        0 <= other < 12,
        other != root,
        0 <= shape < 7,
        covers_major_triad(notes, root),
    ensures
        !forms_chord(notes, other, shape),
{
    let third = (root + 4) % 12;
    let fifth = (root + 7) % 12;
    assert(covers_pitch_class(notes, other) == (other == third || other == fifth));
    if !covers_pitch_class(notes, other) {
        assert((other - other) % 12 == 0);
        assert(shape_has(shape, 0));
    } else if other == third {
        assert(covers_pitch_class(notes, root));
        assert((root - other) % 12 == 8);
        if shape != 3 {
            assert(!shape_has(shape, 8));
        } else {
            assert(covers_pitch_class(notes, fifth));
            assert((fifth - other) % 12 == 3);
            assert(!shape_has(3, 3));
        }
    } else {
        assert(covers_pitch_class(notes, root));
        assert((root - other) % 12 == 5);
        assert(!shape_has(shape, 5));
    }
}

/// The chord search, from any position up to the major triad on `root`,
/// finds that triad.
proof fn lemma_major_triad_found_from(notes: Seq<u8>, root: int, k: int)
    requires
        0 <= root < 12,
        0 <= k <= 7 * root,
        covers_major_triad(notes, root),
        forms_chord(notes, root, 0),
    ensures
        first_chord_from(notes, k) == Some((root, 0int)),
    decreases 7 * root - k,
{
    if k < 7 * root {
        assert(k / 7 < root);
        lemma_major_triad_on_no_other_root(notes, root, k / 7, k % 7);
        lemma_major_triad_found_from(notes, root, k + 1);
    } else {
        assert(k / 7 == root && k % 7 == 0);
    }
}

/// Notes that cover exactly a major triad (root, major third, fifth, in
/// any octave) are named by the root alone: F, A and C give "F", and
/// moving the triad up by `k` semitones moves its name `k` places along
/// the list of note names.
pub proof fn law_major_triad_named_by_root(notes: Seq<u8>, root: int)
    requires
        0 <= root < 12,
        covers_major_triad(notes, root),
    ensures
        chord_of(notes) == Some(note_names()[root]),
{
    assert forall|pc: int| 0 <= pc < 12 implies (#[trigger] covers_pitch_class(notes, pc) <==> shape_has(
        0,
        (pc - root) % 12,
    )) by {
        assert(covers_pitch_class(notes, pc) <==> (pc == root || pc == (root + 4) % 12 || pc == (root
            + 7) % 12));
    }
    assert(forms_chord(notes, root, 0));
    lemma_major_triad_found_from(notes, root, 0);
    reveal_strlit("");
    assert(shape_suffix(0) == Seq::<char>::empty());
    assert(pitch_class_name(root) + shape_suffix(0) =~= pitch_class_name(root));
    law_pitch_class_names(root, root);
}

} // verus!
