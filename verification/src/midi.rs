//! Decoding of raw MIDI 1.0 messages into observed events.

use crate::clock::now_ms;
use vstd::prelude::*;

verus! {

/// The kinds of MIDI message that the observer tells apart.
#[derive(Clone, Copy, Debug, PartialEq, Eq, Structural)]
pub enum MidiEventKind {
    NoteOn,
    NoteOff,
    ControlChange,
    ProgramChange,
    PitchBend,
    System,
    Other,
}

/// The wire name of each kind, as published in events.
pub open spec fn kind_name(kind: MidiEventKind) -> Seq<char> {
    match kind {
        MidiEventKind::NoteOn => "note_on"@,
        MidiEventKind::NoteOff => "note_off"@,
        MidiEventKind::ControlChange => "control_change"@,
        MidiEventKind::ProgramChange => "program_change"@,
        MidiEventKind::PitchBend => "pitch_bend"@,
        MidiEventKind::System => "system"@,
        MidiEventKind::Other => "other"@,
    }
}

/// Different kinds have different wire names.
pub proof fn lemma_kind_names_distinct(a: MidiEventKind, b: MidiEventKind)
    ensures
        kind_name(a) == kind_name(b) ==> a == b,
{
    reveal_strlit("note_on");
    reveal_strlit("note_off");
    reveal_strlit("control_change");
    reveal_strlit("program_change");
    reveal_strlit("pitch_bend");
    reveal_strlit("system");
    reveal_strlit("other");
    if kind_name(a) == kind_name(b) {
        assert(kind_name(a).len() == kind_name(b).len());
        assert(kind_name(a)[0] == kind_name(b)[0]);
        assert(kind_name(a)[5] == kind_name(b)[5]);
    }
}

impl MidiEventKind {
    /// The wire name of this kind.
    pub fn name(&self) -> (name: String)
        ensures
            name@ == kind_name(*self),
    {
        match self {
            MidiEventKind::NoteOn => String::from_str("note_on"),
            MidiEventKind::NoteOff => String::from_str("note_off"),
            MidiEventKind::ControlChange => String::from_str("control_change"),
            MidiEventKind::ProgramChange => String::from_str("program_change"),
            MidiEventKind::PitchBend => String::from_str("pitch_bend"),
            MidiEventKind::System => String::from_str("system"),
            MidiEventKind::Other => String::from_str("other"),
        }
    }
}

/// The fields that a raw message decodes to.
#[derive(Clone, Copy, Debug, PartialEq, Eq, Structural)]
pub struct DecodedMessage {
    pub kind: MidiEventKind,
    pub channel: Option<u8>,
    pub note: Option<u8>,
    pub velocity: Option<u8>,
    pub controller: Option<u8>,
    pub value: Option<u8>,
}

/// The status byte of a message; an empty message reads as status 0.
pub open spec fn status_byte(raw: Seq<u8>) -> u8 {
    if raw.len() > 0 {
        raw[0]
    } else {
        0
    }
}

/// The byte at position `i`, when the message is that long.
pub open spec fn data_byte(raw: Seq<u8>, i: int) -> Option<u8> {
    if raw.len() > i {
        Some(raw[i])
    } else {
        None
    }
}

/// What a raw message means. The high nibble of the status byte selects
/// the message type and the low nibble is the channel of a channel
/// message (status below 0xF0). A note-on with velocity 0 (or without a
/// velocity byte) is a note-off, as MIDI 1.0 running-status senders use it.
pub open spec fn decode(raw: Seq<u8>) -> DecodedMessage {
    let status = status_byte(raw);
    let command = status / 16;
    let channel = if status < 0xf0 {
        Some(status % 16)
    } else {
        None
    };
    let data1 = data_byte(raw, 1);
    let data2 = data_byte(raw, 2);
    let msg = |kind: MidiEventKind,
        note: Option<u8>,
        velocity: Option<u8>,
        controller: Option<u8>,
        value: Option<u8>|
        DecodedMessage { kind, channel, note, velocity, controller, value };
    if command == 0x8 {
        msg(MidiEventKind::NoteOff, data1, data2, None, None)
    } else if command == 0x9 {
        if data2.unwrap_or(0) == 0 {
            msg(MidiEventKind::NoteOff, data1, data2, None, None)
        } else {
            msg(MidiEventKind::NoteOn, data1, data2, None, None)
        }
    } else if command == 0xb {
        msg(MidiEventKind::ControlChange, None, None, data1, data2)
    } else if command == 0xc {
        msg(MidiEventKind::ProgramChange, None, None, None, data1)
    } else if command == 0xe {
        msg(MidiEventKind::PitchBend, None, None, None, data2)
    } else if status >= 0xf0 {
        msg(MidiEventKind::System, None, None, None, None)
    } else {
        msg(MidiEventKind::Other, None, None, None, None)
    }
}

/// Decodes the fields of a raw message; total on every byte sequence.
pub fn decode_message(raw: &Vec<u8>) -> (decoded: DecodedMessage)
    ensures
        decoded == decode(raw@),
{
    let status: u8 = if raw.len() > 0 {
        raw[0]
    } else {
        0
    };
    let command: u8 = status / 16;
    let channel: Option<u8> = if status < 0xf0 {
        Some(status % 16)
    } else {
        None
    };
    let data1: Option<u8> = if raw.len() > 1 {
        Some(raw[1])
    } else {
        None
    };
    let data2: Option<u8> = if raw.len() > 2 {
        Some(raw[2])
    } else {
        None
    };
    let (kind, note, velocity, controller, value) = if command == 0x8 {
        (MidiEventKind::NoteOff, data1, data2, None, None)
    } else if command == 0x9 {
        let silent = match data2 {
            Some(v) => v == 0,
            None => true,
        };
        if silent {
            (MidiEventKind::NoteOff, data1, data2, None, None)
        } else {
            (MidiEventKind::NoteOn, data1, data2, None, None)
        }
    } else if command == 0xb {
        (MidiEventKind::ControlChange, None, None, data1, data2)
    } else if command == 0xc {
        (MidiEventKind::ProgramChange, None, None, None, data1)
    } else if command == 0xe {
        (MidiEventKind::PitchBend, None, None, None, data2)
    } else if status >= 0xf0 {
        (MidiEventKind::System, None, None, None, None)
    } else {
        (MidiEventKind::Other, None, None, None, None)
    };
    DecodedMessage { kind, channel, note, velocity, controller, value }
}

/// One observed MIDI message of a device.
#[derive(Debug)]
pub struct MidiEvent {
    pub device_id: String,
    pub timestamp_ms: u64,
    pub kind: String,
    pub channel: Option<u8>,
    pub note: Option<u8>,
    pub velocity: Option<u8>,
    pub controller: Option<u8>,
    pub value: Option<u8>,
    pub raw: Vec<u8>,
}

/// The mathematical value of a [`MidiEvent`].
pub struct MidiEventView {
    pub device_id: Seq<char>,
    pub timestamp_ms: u64,
    pub kind: Seq<char>,
    pub channel: Option<u8>,
    pub note: Option<u8>,
    pub velocity: Option<u8>,
    pub controller: Option<u8>,
    pub value: Option<u8>,
    pub raw: Seq<u8>,
}

impl View for MidiEvent {
    type V = MidiEventView;

    open spec fn view(&self) -> MidiEventView {
        MidiEventView {
            device_id: self.device_id@,
            timestamp_ms: self.timestamp_ms,
            kind: self.kind@,
            channel: self.channel,
            note: self.note,
            velocity: self.velocity,
            controller: self.controller,
            value: self.value,
            raw: self.raw@,
        }
    }
}

impl Clone for MidiEvent {
    fn clone(&self) -> (copy: Self)
        ensures
            copy@ == self@,
    {
        let raw = self.raw.clone();
        assert(raw@ =~= self.raw@);
        MidiEvent {
            device_id: self.device_id.clone(),
            timestamp_ms: self.timestamp_ms,
            kind: self.kind.clone(),
            channel: self.channel,
            note: self.note,
            velocity: self.velocity,
            controller: self.controller,
            value: self.value,
            raw,
        }
    }
}

/// The event that `raw`, received from `device_id` at `timestamp_ms`,
/// is recorded as.
pub open spec fn decoded_event(device_id: Seq<char>, raw: Seq<u8>, timestamp_ms: u64) -> MidiEventView {
    let d = decode(raw);
    MidiEventView {
        device_id,
        timestamp_ms,
        kind: kind_name(d.kind),
        channel: d.channel,
        note: d.note,
        velocity: d.velocity,
        controller: d.controller,
        value: d.value,
        raw,
    }
}

/// Records `raw`, received from `device_id`, as an event stamped
/// `timestamp_ms`.
pub fn parse_midi_event_at(device_id: String, raw: Vec<u8>, timestamp_ms: u64) -> (event: MidiEvent)
    ensures
        event@ == decoded_event(device_id@, raw@, timestamp_ms),
{
    let decoded = decode_message(&raw);
    MidiEvent {
        device_id,
        timestamp_ms,
        kind: decoded.kind.name(),
        channel: decoded.channel,
        note: decoded.note,
        velocity: decoded.velocity,
        controller: decoded.controller,
        value: decoded.value,
        raw,
    }
}

/// Records `raw`, received from `device_id`, as an event stamped with the
/// current time; every field but the timestamp is fixed by the message.
pub fn parse_midi_event(device_id: String, raw: Vec<u8>) -> (event: MidiEvent)
    ensures
        event@ == decoded_event(device_id@, raw@, event.timestamp_ms),
{
    let timestamp_ms = now_ms();
    parse_midi_event_at(device_id, raw, timestamp_ms)
}

} // verus!
