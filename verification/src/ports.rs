//! Matching registered devices to the MIDI ports that the system offers,
//! and the connect/disconnect decision taken for each device.

use crate::text::{contains_text, optional_text, text_contains, text_views};
use crate::state::DeviceSpec;
use vstd::prelude::*;

verus! {

/// The first of `names`, from position `from` on, that contains `part`.
pub open spec fn first_containing_from(names: Seq<Seq<char>>, part: Seq<char>, from: int) -> Option<Seq<char>>
    decreases names.len() - from,
{
    if from < 0 || from >= names.len() {
        None
    } else if contains_text(names[from], part) {
        Some(names[from])
    } else {
        first_containing_from(names, part, from + 1)
    }
}

/// The first of `names` that contains `part`.
pub open spec fn first_containing(names: Seq<Seq<char>>, part: Seq<char>) -> Option<Seq<char>> {
    first_containing_from(names, part, 0)
}

/// The first of the available port names that contains `part`.
pub fn find_port(available: &Vec<String>, part: &String) -> (port: Option<String>)
    ensures
        optional_text(port) == first_containing(text_views(available@), part@),
{
    let ghost names = text_views(available@);
    let mut k: usize = 0;
    while k < available.len()
        invariant
            k <= available@.len(),
            names == text_views(available@),
            first_containing(names, part@) == first_containing_from(names, part@, k as int),
        decreases available.len() - k,
    {
        if text_contains(&available[k], part) {
            return Some(available[k].clone());
        }
        k = k + 1;
    }
    None
}

/// What to do for one registered device when the ports are reconciled.
#[derive(Debug)]
pub struct ReconcileStep {
    /// The port that the device is found on, if any.
    pub matched_port: Option<String>,
    /// Whether to drop the device's open connection: it has no port now.
    pub disconnect: bool,
    /// Whether to open a connection: the device has a port and none is open.
    pub connect: bool,
}

/// Decides, from the available port names and whether a connection to the
/// device is open, which port the device is on and whether to connect or
/// disconnect.
pub fn reconcile_step(spec: &DeviceSpec, available: &Vec<String>, connected: bool) -> (step: ReconcileStep)
    ensures
        optional_text(step.matched_port) == first_containing(text_views(available@), spec@.midi_name_contains),
        step.disconnect == (step.matched_port is None && connected),
        step.connect == (step.matched_port is Some && !connected),
{
    let matched_port = find_port(available, &spec.midi_name_contains);
    let disconnect = matched_port.is_none() && connected;
    let connect = matched_port.is_some() && !connected;
    ReconcileStep { matched_port, disconnect, connect }
}

/// How long the observer waits between two reconciles of the ports.
pub const RECONCILE_INTERVAL_MS: u128 = 1000;

/// Whether the ports are due to be reconciled again, `elapsed_ms` after
/// the last reconcile.
pub fn reconcile_due(elapsed_ms: u128) -> (due: bool)
    ensures
        due == (elapsed_ms >= RECONCILE_INTERVAL_MS),
{
    elapsed_ms >= RECONCILE_INTERVAL_MS
}

} // verus!
