# hopp_core

The core of the Hopp pair-programming client: screen sharing, remote
control and drawing over a LiveKit room. This crate holds the decisions and
data handling of the client as a library verified with Verus.

- `src/` is the verified library. Each module states its behaviour in
  `requires`/`ensures` contracts over mathematical models, and proof
  functions named `law_*` state properties that span several calls.
  - `video`, `video_client`: frame buffers, the double-buffered hand-off
    between decoder and renderer, and the websocket framing of frames.
  - `participants`, `room_service`, `camera`: the participant table keyed
    by SID and how it follows room events, the per-user snapshot, room
    data-channel decisions, camera window controls.
  - `room_commands`: the room service's command loop as a state machine
    from connection state and command to the work to do and the result to
    report; the loop that awaits that work runs outside the library.
  - `share_input`, `drawing`, `windows`, `screen_selection`: the pointer,
    drawing, toolbar and redraw state machines of the windows, and the share
    picker.
  - `health`, `stats`: the video health monitor and the statistics it reads.
  - `audio`, `badge`, `clock`, `text`: audio framing, badge names, clocks and
    character helpers.
- `tests/` runs the library on concrete values.
- `app/` is plain Rust around the library: serde wire types, error types with
  `Display`, floating-point geometry, threads, the frame sender and the badge
  renderer.
