# shadow_os

The decision-making core of the Shadow phone shell, written in Verus and
proved against its contracts.

- `src/` is the verified library: the app catalogue, the home shell's
  navigation model, the compositor's window book-keeping, control protocol
  and key and touch routing, the touch decoder, frame capture and PPM
  encoding, the pixel canvas and its bitmap text, line breaking, the demo
  apps' models (counter, status), the script runtime protocol, the note
  service, relay publishing and QR rows, the audio players, start-up
  decisions, the choice of a panel's connector, mode, encoder and CRTC,
  and the classification of graphics adapters. Calls into `font8x8`,
  `nostr` and `qrcodegen` go through a few trusted wrappers whose
  contracts are stated next to them.
- `app/` is the unverified edge: settings from the environment, processes,
  sockets and files, relay connections, kernel mode setting, touch
  devices, JSON wire formats, and everything laid out or blended in
  floating point (scenes, hit testing, touch geometry, colour curves).
- `tests/` exercises the library from outside, one scenario per test.
