# thermal-v2-lib

Core of a thermal camera viewer for the FLIR Lepton on a PureThermal USB
board, written in Verus with contracts proved for every function in `src/`.

- `src/uvc_descriptors.rs` — walks a USB configuration descriptor and finds
  the Y16 format, its first frame and the best isochronous IN endpoint.
- `src/uvc_payload.rs` — UVC payload headers, frame reassembly from
  isochronous packets, and processing of a whole isochronous transfer.
- `src/usb_stream.rs` — the probe/commit control block, transfer sizing and
  the outcome of extension-unit transfers.
- `src/usb_control.rs` — wValue/wIndex/bmRequestType of extension-unit requests.
- `src/camera/` — camera types and errors; the Lepton SDK command mapping and
  attribute encoding.
- `src/processing/` — auto-gain, palettes, colorization, the isotherm overlay,
  and the geometry around super-resolution.
- `src/avfoundation.rs` — capture pixel-format choice.
- `src/frame_event.rs` — the frame event sent to the user interface (Base64
  pixels) and palette names.
- `src/text.rs` — decimal and hexadecimal rendering for messages.

`app/` holds the desktop program around the library: the Tauri commands, the
IOKit and libuvc bindings, the system camera bridge, the ONNX Runtime
upscaler, threads and locks. `tests/` exercises the library.
