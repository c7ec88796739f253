# Mirror Windows

The logic of a control panel that arranges up to twenty desktop windows on a monitor and
mirrors mouse input from a primary window to the others, written in Verus and proved against
its contracts.

## Layout

- `src/` — the verified library.
  - `models` — the data model (windows, monitors, session configurations, profiles, logs).
  - `layout_engine` — which windows a session manages, tile and stack placement, monitor choice.
  - `sync_session` — validation of configurations and the session life cycle.
  - `state` — the session store and the activity logs.
  - `profile_store` — saving and ordering profiles.
  - `game_input_dispatcher` — injected mouse input for games.
  - `platform` — the platform backend; on systems other than Windows every operation reports
    that it is unavailable. `platform::windows` holds the Windows backend's decisions: window
    handle ids, window and monitor descriptions, placement, the mouse hook's state machine,
    gesture replay, dispatch routing, rate-limited runtime logging and the circuit breaker.
  - `sorting`, `text` — stable sorting and string helpers stated over sequences.
- `tests/` — tests of the library on concrete values.
- `app/` — the desktop side: JSON forms of the model, profile files, the control panel's
  commands, and the floating-point coordinate arithmetic.

Calls into `png`, `base64` and a few `std` functions are made through small trusted
functions whose contracts are documented next to them.
