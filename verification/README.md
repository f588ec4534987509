# studio_control

The verified core of Studio Control, a daemon that observes the MIDI input
of registered studio hardware and serves its state to a desktop shell over
a Unix socket.

- `src/` is the library, verified with Verus:
  - `midi` decodes raw MIDI 1.0 messages into events;
  - `notes` keeps the held notes (ordering, counting, removal);
  - `chord` recognises the chord formed by the held notes;
  - `activity` updates a device's activity on each event;
  - `state` holds the registered devices and the snapshot, and applies
    MIDI input and connection changes to it;
  - `ports` matches devices to MIDI port names and decides when to
    connect or disconnect;
  - `protocol` holds the client messages, the daemon's answer to a
    command, the command-line client's choice and the socket location;
  - `clock` reads the wall clock in milliseconds;
  - `text` holds string views and substring search;
  - `laws` states and proves properties that span several calls.
- `app/` is the program around it: the daemon's socket server, MIDI
  subscriptions and observer loop, the `studioctl` client, and the JSON
  form of the library's types.
- `tests/` exercises the library on concrete inputs.
