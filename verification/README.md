# mchose_tray

Battery reading and tray icon drawing for the MCHOSE K7 V2 Ultra+ wireless
receiver, as a Verus-verified library with a thin Windows application around it.

## Layout

- `src/` — the verified library:
  - `battery` — the device-info request, the reply parser (header, length,
    XOR checksum, vendor, connection, charge and percentage checks) and the
    reading labels, with proofs that single-byte corruption is rejected and
    that the sequence byte is free.
  - `receiver` — which HID interfaces are the receiver, the order they are
    tried in, and how per-receiver outcomes become one reading (never a
    stale percentage).
  - `icons` — battery colours, the 32x32 RGBA canvas, the battery gauge and
    the choice between text and gauge.
  - `preview` — the preview sheet of all icons and its PNG encoding.
  - `settings`, `command`, `tray`, `logging`, `version`, `text` — the saved
    display mode, the command line, tray state, log lines, Windows version
    resources, and the text helpers they share.
- `tests/` — tests of the library.
- `app/` — the Windows tray program: HID I/O, the message window, the tray
  menu, font rasterising, files and the registry.
