# qcy

Control of QCY MeloBuds Pro (HT08) earbuds on Linux: the vendor protocol, the
central write-authorization policy, the BlueZ GATT and SPP/RFCOMM transports, the
application core's session state machine, host-service decisions (media, codec,
Auto Game Mode) and the configuration rules, proved with Verus.

## Layout

- `src/` — the verified library (`qcy`). Functions carry `requires`/`ensures`
  contracts that Verus proves; where a result comes from the bus, a socket or
  another outside service, the contract states what is handed to that service and
  what the library does with the reply, not the reply itself. Laws that relate
  several functions are public proof functions (`lemma_*`).
  - `packet`, `protocol`, `advertisement`, `frame_reader` — frames, commands,
    battery/version payloads, manufacturer data, stream re-synchronisation.
  - `policy`, `transport`, `mock`, `bluez`, `rfcomm` — the write policy and the
    transports that enforce it.
  - `device` — capability profiles and their honesty rules.
  - `app_core` — the application core: commands, events and the resident-session
    supervisor as a state machine driven from outside.
  - `host`, `game_mode` — codec facts, media actions, Auto Game Mode.
  - `cli`, `desktop` — decisions of the command-line tool and the desktop front end.
  - `config` — validation of configuration payloads.
  - `text` — character-sequence helpers, Unicode white space, and the two trusted
    std calls (lowercasing and pushing a character).
- `app/` — the `521cctl` program and everything that touches the outside world:
  D-Bus (zbus), the raw RFCOMM socket (libc), the PipeWire System EQ files, the
  worker thread, serde representations and the floating-point configuration fields.
- `tests/` — tests of the library through its public interface.
