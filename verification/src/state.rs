//! The daemon's state: the registered devices, what is known of each,
//! and how observed MIDI input and connection changes update it.

use crate::activity::{activity_follows, quiet_activity, MidiActivity, MidiActivityView};
use crate::clock::now_ms;
use crate::midi::{decoded_event, parse_midi_event, MidiEvent, MidiEventView};
use crate::text::{optional_text, text_less, text_precedes};
use vstd::prelude::*;

verus! {

/// The version of the snapshot and message format served to clients.
pub const PROTOCOL_VERSION: u32 = 1;

/// How far Studio Control may act on a device.
#[derive(Clone, Copy, Debug, PartialEq, Eq, Structural)]
pub enum AccessMode {
    /// No port is opened and no events are received.
    Released,
    /// Non-exclusive input subscription only; the default.
    Observe,
    /// Deliberate output and control actions, cooperatively.
    Managed,
    /// May disconnect or block other clients.
    Exclusive,
}

impl Default for AccessMode {
    fn default() -> (mode: Self)
        ensures
            mode == AccessMode::Observe,
    {
        AccessMode::Observe
    }
}

/// A registered device: its stable id, its human name and the text that
/// identifies its MIDI port.
#[derive(Debug)]
pub struct DeviceSpec {
    pub id: String,
    pub name: String,
    pub midi_name_contains: String,
}

/// The mathematical value of a [`DeviceSpec`].
pub struct DeviceSpecView {
    pub id: Seq<char>,
    pub name: Seq<char>,
    pub midi_name_contains: Seq<char>,
}

impl View for DeviceSpec {
    type V = DeviceSpecView;

    open spec fn view(&self) -> DeviceSpecView {
        DeviceSpecView {
            id: self.id@,
            name: self.name@,
            midi_name_contains: self.midi_name_contains@,
        }
    }
}

/// The registered devices, in registration order.
pub open spec fn registered_device_specs() -> Seq<DeviceSpecView> {
    seq![
        DeviceSpecView {
            id: "novation.launchpad-original"@,
            name: "Novation Launchpad"@,
            midi_name_contains: "Launchpad"@,
        },
        DeviceSpecView {
            id: "behringer.umc404hd"@,
            name: "Behringer UMC404HD"@,
            midi_name_contains: "UMC404HD"@,
        },
        DeviceSpecView {
            id: "casio.usb-midi"@,
            name: "Casio USB-MIDI Keyboard"@,
            midi_name_contains: "CASIO USB-MIDI"@,
        },
    ]
}

/// The registered devices, in registration order.
pub fn registered_devices() -> (specs: Vec<DeviceSpec>)
    ensures
        specs@.len() == registered_device_specs().len(),
        forall|i: int| 0 <= i < specs@.len() ==> #[trigger] specs@[i]@ == registered_device_specs()[i],
{
    let mut specs: Vec<DeviceSpec> = Vec::new();
    specs.push(
        DeviceSpec {
            id: String::from_str("novation.launchpad-original"),
            name: String::from_str("Novation Launchpad"),
            midi_name_contains: String::from_str("Launchpad"),
        },
    );
    specs.push(
        DeviceSpec {
            id: String::from_str("behringer.umc404hd"),
            name: String::from_str("Behringer UMC404HD"),
            midi_name_contains: String::from_str("UMC404HD"),
        },
    );
    specs.push(
        DeviceSpec {
            id: String::from_str("casio.usb-midi"),
            name: String::from_str("Casio USB-MIDI Keyboard"),
            midi_name_contains: String::from_str("CASIO USB-MIDI"),
        },
    );
    specs
}

/// What is known of one registered device.
#[derive(Debug)]
pub struct DeviceState {
    pub id: String,
    pub name: String,
    pub access_mode: AccessMode,
    pub midi_connected: bool,
    pub midi_port: Option<String>,
    pub activity: MidiActivity,
}

/// The mathematical value of a [`DeviceState`].
pub struct DeviceStateView {
    pub id: Seq<char>,
    pub name: Seq<char>,
    pub access_mode: AccessMode,
    pub midi_connected: bool,
    pub midi_port: Option<Seq<char>>,
    pub activity: MidiActivityView,
}

impl View for DeviceState {
    type V = DeviceStateView;

    open spec fn view(&self) -> DeviceStateView {
        DeviceStateView {
            id: self.id@,
            name: self.name@,
            access_mode: self.access_mode,
            midi_connected: self.midi_connected,
            midi_port: optional_text(self.midi_port),
            activity: self.activity@,
        }
    }
}

impl Clone for DeviceState {
    fn clone(&self) -> (copy: Self)
        ensures
            copy@ == self@,
    {
        let midi_port = match &self.midi_port {
            Some(p) => Some(p.clone()),
            None => None,
        };
        DeviceState {
            id: self.id.clone(),
            name: self.name.clone(),
            access_mode: self.access_mode,
            midi_connected: self.midi_connected,
            midi_port,
            activity: self.activity.clone(),
        }
    }
}

/// A registered device as it starts: observed, not connected, quiet.
pub open spec fn fresh_device(spec: DeviceSpecView) -> DeviceStateView {
    DeviceStateView {
        id: spec.id,
        name: spec.name,
        access_mode: AccessMode::Observe,
        midi_connected: false,
        midi_port: None,
        activity: quiet_activity(),
    }
}

impl DeviceState {
    /// The starting state of the device that `spec` registers.
    pub fn fresh(spec: &DeviceSpec) -> (device: Self)
        ensures
            device@ == fresh_device(spec@),
    {
        DeviceState {
            id: spec.id.clone(),
            name: spec.name.clone(),
            access_mode: AccessMode::default(),
            midi_connected: false,
            midi_port: None,
            activity: MidiActivity::default(),
        }
    }
}

/// Everything the daemon serves to its clients. Each registered device
/// occurs once, under its id.
#[derive(Debug)]
pub struct Snapshot {
    pub protocol_version: u32,
    pub daemon_started_at_ms: u64,
    pub devices: Vec<DeviceState>,
}

/// The mathematical value of a [`Snapshot`].
pub struct SnapshotView {
    pub protocol_version: u32,
    pub daemon_started_at_ms: u64,
    pub devices: Seq<DeviceStateView>,
}

/// The views of a sequence of devices.
pub open spec fn device_views(devices: Seq<DeviceState>) -> Seq<DeviceStateView> {
    devices.map_values(|d: DeviceState| d@)
}

impl View for Snapshot {
    type V = SnapshotView;

    open spec fn view(&self) -> SnapshotView {
        SnapshotView {
            protocol_version: self.protocol_version,
            daemon_started_at_ms: self.daemon_started_at_ms,
            devices: device_views(self.devices@),
        }
    }
}

/// Whether the devices are in strictly ascending order of id, as the
/// entries of a map keyed by id are: no id occurs twice.
pub open spec fn ids_ascending(devices: Seq<DeviceStateView>) -> bool {
    forall|i: int, j: int|
        0 <= i < j < devices.len() ==> text_less(#[trigger] devices[i].id, #[trigger] devices[j].id)
}

impl SnapshotView {
    /// A snapshot is well formed when its devices are ordered by id, each
    /// id occurring once.
    pub open spec fn well_formed(self) -> bool {
        ids_ascending(self.devices)
    }
}

/// The first position, from `from` on, whose device's id does not come
/// before `id`: where a device with that id is placed to keep the order.
pub open spec fn id_slot_from(devices: Seq<DeviceStateView>, id: Seq<char>, from: int) -> int
    decreases devices.len() - from,
{
    if from < 0 || from >= devices.len() {
        devices.len() as int
    } else if text_less(devices[from].id, id) {
        id_slot_from(devices, id, from + 1)
    } else {
        from
    }
}

/// `devices` with `device` placed by its id.
pub open spec fn insert_by_id(devices: Seq<DeviceStateView>, device: DeviceStateView) -> Seq<DeviceStateView> {
    devices.insert(id_slot_from(devices, device.id, 0), device)
}

/// The fresh devices of `specs`, each placed by its id in turn, as they
/// are when entered one by one into a map keyed by id.
pub open spec fn devices_by_id(specs: Seq<DeviceSpecView>) -> Seq<DeviceStateView>
    decreases specs.len(),
{
    if specs.len() == 0 {
        Seq::empty()
    } else {
        insert_by_id(devices_by_id(specs.drop_last()), fresh_device(specs.last()))
    }
}

/// The position of the first device, from position `from` on, whose id is
/// `id`; the number of devices when there is none.
pub open spec fn position_from(devices: Seq<DeviceStateView>, id: Seq<char>, from: int) -> int
    decreases devices.len() - from,
{
    if from < 0 || from >= devices.len() {
        devices.len() as int
    } else if devices[from].id == id {
        from
    } else {
        position_from(devices, id, from + 1)
    }
}

/// The position of the device whose id is `id`; the number of devices
/// when there is none.
pub open spec fn device_position(devices: Seq<DeviceStateView>, id: Seq<char>) -> int {
    position_from(devices, id, 0)
}

/// What a position found by [`device_position`] means.
pub proof fn lemma_position_from(devices: Seq<DeviceStateView>, id: Seq<char>, from: int)
    requires
        0 <= from <= devices.len(),
    ensures
        from <= position_from(devices, id, from) <= devices.len(),
        position_from(devices, id, from) < devices.len() ==> devices[position_from(devices, id, from)].id == id,
        forall|k: int| from <= k < position_from(devices, id, from) ==> devices[k].id != id,
    decreases devices.len() - from,
{
    if from < devices.len() && devices[from].id != id {
        lemma_position_from(devices, id, from + 1);
    }
}

/// Places `device` among `devices` by its id.
pub fn insert_device_by_id(devices: &mut Vec<DeviceState>, device: DeviceState)
    ensures
        device_views(final(devices)@) == insert_by_id(device_views(old(devices)@), device@),
{
    let ghost views = device_views(devices@);
    let mut p: usize = 0;
    while p < devices.len() && text_precedes(&devices[p].id, &device.id)
        invariant
            p <= devices@.len(),
            views == device_views(devices@),
            id_slot_from(views, device@.id, 0) == id_slot_from(views, device@.id, p as int),
        decreases devices.len() - p,
    {
        p = p + 1;
    }
    let ghost before = devices@;
    devices.insert(p, device);
    assert(device_views(devices@) =~= views.insert(p as int, devices@[p as int]@));
}

/// The snapshot of a daemon started at `started_at_ms`: every registered
/// device as it starts, in order of id.
pub open spec fn fresh_snapshot_view(started_at_ms: u64) -> SnapshotView {
    SnapshotView {
        protocol_version: PROTOCOL_VERSION,
        daemon_started_at_ms: started_at_ms,
        devices: devices_by_id(registered_device_specs()),
    }
}

impl Snapshot {
    /// The snapshot of a daemon started at `started_at_ms`.
    pub fn fresh(started_at_ms: u64) -> (snapshot: Self)
        ensures
            snapshot@ == fresh_snapshot_view(started_at_ms),
            snapshot@.well_formed(),
    {
        let specs = registered_devices();
        let ghost registry = registered_device_specs();
        let mut devices: Vec<DeviceState> = Vec::new();
        let mut i: usize = 0;
        assert(registry.take(0) =~= Seq::<DeviceSpecView>::empty());
        assert(device_views(devices@) =~= Seq::<DeviceStateView>::empty());
        while i < specs.len()
            invariant
                i <= specs@.len(),
                registry == registered_device_specs(),
                specs@.len() == registry.len(),
                forall|k: int| 0 <= k < specs@.len() ==> #[trigger] specs@[k]@ == registry[k],
                device_views(devices@) == devices_by_id(registry.take(i as int)),
            decreases specs.len() - i,
        {
            insert_device_by_id(&mut devices, DeviceState::fresh(&specs[i]));
            assert(registry.take(i + 1).drop_last() =~= registry.take(i as int));
            assert(registry.take(i + 1).last() == registry[i as int]);
            i = i + 1;
        }
        assert(registry.take(registry.len() as int) =~= registry);
        let snapshot = Snapshot { protocol_version: PROTOCOL_VERSION, daemon_started_at_ms: started_at_ms, devices };
        proof {
            crate::laws::law_fresh_snapshot_well_formed(started_at_ms);
        }
        snapshot
    }

    /// The position of the device whose id is `id`, if one is registered.
    pub fn position(&self, id: &String) -> (pos: Option<usize>)
        ensures
            match pos {
                Some(k) => k == device_position(self@.devices, id@) && k < self@.devices.len(),
                None => device_position(self@.devices, id@) == self@.devices.len(),
            },
    {
        proof {
            lemma_position_from(self@.devices, id@, 0);
        }
        let mut k: usize = 0;
        while k < self.devices.len()
            invariant
                k <= self.devices@.len(),
                device_position(self@.devices, id@) == position_from(self@.devices, id@, k as int),
            decreases self.devices.len() - k,
        {
            if self.devices[k].id == *id {
                return Some(k);
            }
            k = k + 1;
        }
        None
    }

    /// The device whose id is `id`, if one is registered.
    pub fn device(&self, id: &str) -> (device: Option<&DeviceState>)
        ensures
            match device {
                Some(d) => device_position(self@.devices, id@) < self@.devices.len() && d@
                    == self@.devices[device_position(self@.devices, id@)],
                None => device_position(self@.devices, id@) == self@.devices.len(),
            },
    {
        let key = String::from_str(id);
        match self.position(&key) {
            Some(k) => Some(&self.devices[k]),
            None => None,
        }
    }
}

/// Whether two optional strings hold the same text.
pub fn same_optional_text(a: &Option<String>, b: &Option<String>) -> (same: bool)
    ensures
        same == (optional_text(*a) == optional_text(*b)),
{
    match (a, b) {
        (Some(x), Some(y)) => *x == *y,
        (None, None) => true,
        _ => false,
    }
}

impl Clone for Snapshot {
    fn clone(&self) -> (copy: Self)
        ensures
            copy@ == self@,
    {
        let devices = self.devices.clone();
        assert(device_views(devices@) =~= device_views(self.devices@));
        Snapshot {
            protocol_version: self.protocol_version,
            daemon_started_at_ms: self.daemon_started_at_ms,
            devices,
        }
    }
}

/// How `snapshot` changes into `after` when the device `id` is found
/// `connected` (or not) on `port`: a registered device whose connection
/// or port differs takes the new ones, and `changed` says whether that
/// happened; nothing else changes.
pub open spec fn connection_follows(
    snapshot: SnapshotView,
    id: Seq<char>,
    connected: bool,
    port: Option<Seq<char>>,
    after: SnapshotView,
    changed: bool,
) -> bool {
    let pos = device_position(snapshot.devices, id);
    &&& changed == (pos < snapshot.devices.len() && (snapshot.devices[pos].midi_connected != connected
        || snapshot.devices[pos].midi_port != port))
    &&& after == if changed {
        SnapshotView {
            devices: snapshot.devices.update(
                pos,
                DeviceStateView { midi_connected: connected, midi_port: port, ..snapshot.devices[pos] },
            ),
            ..snapshot
        }
    } else {
        snapshot
    }
}

impl Snapshot {
    /// Records whether the device `id` is connected and on which port;
    /// returns whether that changed anything.
    pub fn record_connection(&mut self, id: &String, connected: bool, port: Option<String>) -> (changed: bool)
        ensures
            connection_follows(old(self)@, id@, connected, optional_text(port), final(self)@, changed),
            old(self)@.well_formed() ==> final(self)@.well_formed(),
    {
        proof {
            lemma_position_from(self@.devices, id@, 0);
        }
        let pos = match self.position(id) {
            Some(k) => k,
            None => {
                return false;
            },
        };
        if self.devices[pos].midi_connected == connected && same_optional_text(&self.devices[pos].midi_port, &port) {
            return false;
        }
        let ghost before = self@;
        let mut device = self.devices.remove(pos);
        device.midi_connected = connected;
        device.midi_port = port;
        self.devices.insert(pos, device);
        assert(self@.devices =~= before.devices.update(pos as int, self@.devices[pos as int]));
        proof {
            if before.well_formed() {
                crate::laws::law_connection_keeps_well_formed(before, id@, connected, optional_text(self.devices@[pos as int].midi_port), self@, true);
            }
        }
        true
    }

    /// Records the outcome of reconciling the device `id` with the ports
    /// on offer: `port` is the port it was found on, `was_connected` whether
    /// a connection to it was open before, `connect_succeeded` whether
    /// opening one succeeded. The device counts as connected when it has a
    /// port and a connection was open or has just been opened; returns
    /// whether that changed anything.
    pub fn settle_connection(
        &mut self,
        id: &String,
        port: Option<String>,
        was_connected: bool,
        connect_succeeded: bool,
    ) -> (changed: bool)
        ensures
            connection_follows(
                old(self)@,
                id@,
                settled_connection(port is Some, was_connected, connect_succeeded),
                optional_text(port),
                final(self)@,
                changed,
            ),
            old(self)@.well_formed() ==> final(self)@.well_formed(),
    {
        let connected = port.is_some() && (was_connected || connect_succeeded);
        self.record_connection(id, connected, port)
    }
}

/// Whether a device counts as connected after reconciling: it has a port,
/// and a connection to it was open already or has just been opened.
pub open spec fn settled_connection(port_found: bool, was_connected: bool, connect_succeeded: bool) -> bool {
    port_found && (was_connected || connect_succeeded)
}

/// The snapshot the daemon starts with: every registered device, observed,
/// disconnected and quiet, stamped with the current time.
pub fn initial_snapshot() -> (snapshot: Snapshot)
    ensures
        snapshot@ == fresh_snapshot_view(snapshot.daemon_started_at_ms),
        snapshot@.well_formed(),
{
    Snapshot::fresh(now_ms())
}

/// Raw MIDI bytes received from the port of a registered device.
#[derive(Debug)]
pub struct IncomingMidi {
    pub device_id: String,
    pub bytes: Vec<u8>,
}

/// How `snapshot` changes into `after` when the device at position `pos`
/// observes `event`: that device's activity follows the event, and
/// nothing else changes.
pub open spec fn snapshot_follows(
    snapshot: SnapshotView,
    pos: int,
    event: MidiEventView,
    after: SnapshotView,
) -> bool {
    &&& after.protocol_version == snapshot.protocol_version
    &&& after.daemon_started_at_ms == snapshot.daemon_started_at_ms
    &&& after.devices.len() == snapshot.devices.len()
    &&& forall|k: int| 0 <= k < snapshot.devices.len() && k != pos ==> #[trigger] after.devices[k] == snapshot.devices[k]
    &&& after.devices[pos].id == snapshot.devices[pos].id
    &&& after.devices[pos].name == snapshot.devices[pos].name
    &&& after.devices[pos].access_mode == snapshot.devices[pos].access_mode
    &&& after.devices[pos].midi_connected == snapshot.devices[pos].midi_connected
    &&& after.devices[pos].midi_port == snapshot.devices[pos].midi_port
    &&& activity_follows(snapshot.devices[pos].activity, event, after.devices[pos].activity)
}

/// Records MIDI input from a registered device: the bytes are decoded into
/// an event stamped with the current time, the device's activity takes the
/// event into account, and the event and the device's new activity are
/// returned for broadcasting.
pub fn apply_midi_event(snapshot: &mut Snapshot, incoming: IncomingMidi) -> (published: (MidiEvent, MidiActivity))
    requires
        device_position(old(snapshot)@.devices, incoming.device_id@) < old(snapshot)@.devices.len(),
        old(snapshot)@.devices[device_position(old(snapshot)@.devices, incoming.device_id@)].activity.event_count
            < u64::MAX,
    ensures
        published.0@ == decoded_event(incoming.device_id@, incoming.bytes@, published.0.timestamp_ms),
        snapshot_follows(
            old(snapshot)@,
            device_position(old(snapshot)@.devices, incoming.device_id@),
            published.0@,
            final(snapshot)@,
        ),
        published.1@ == final(snapshot)@.devices[device_position(old(snapshot)@.devices, incoming.device_id@)].activity,
        old(snapshot)@.well_formed() ==> final(snapshot)@.well_formed(),
{
    let event = parse_midi_event(incoming.device_id, incoming.bytes);
    let pos = match snapshot.position(&event.device_id) {
        Some(k) => k,
        None => {
            return (event, MidiActivity::default());
        },
    };
    let ghost before = snapshot@;
    let mut device = snapshot.devices.remove(pos);
    device.activity.record_event(&event);
    let activity = device.activity.clone();
    snapshot.devices.insert(pos, device);
    assert(snapshot@.devices =~= before.devices.update(pos as int, snapshot@.devices[pos as int]));
    proof {
        if before.well_formed() {
            crate::laws::law_midi_input_keeps_well_formed(before, pos as int, event@, snapshot@);
        }
    }
    (event, activity)
}

} // verus!
