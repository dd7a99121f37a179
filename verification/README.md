# ios-remote

Mirror an iPhone's screen to a PC over USB (usbmuxd → lockdownd →
screenshotr), with recording, session replay, a web dashboard and a
synthetic device for running without hardware.

## Layout

- `src/` — the library, verified with Verus. It holds the wire formats
  (usbmuxd headers, lockdownd and device-link framing, the property-list
  messages and the fields read from replies), the device choice and
  reconnect policy, the recording and playback controllers, the scheduler,
  the statistics hub, API authorisation and status codes, the synthetic
  device's input model and renderer, and the pixel operations (flips,
  crops, diffs, text, screensaver, watermark text, QR grey conversion).
  Calls into `image`, `plist`, `rqrr`, `serde_json` and `chrono` stand
  behind small trusted wrappers whose contracts are stated in their doc
  comments.
- `tests/` — tests run against the compiled library with the real outside
  crates linked.
- `app/` — the program: command line, sockets, files, processes, the async
  runtime and the HTTP server, plus the floating-point image tools (zoom,
  ruler, touch overlay, colour filters, template matching, watermark
  blending).
