# streamdeck-cona-rs

A library for the Elgato Stream Deck Studio's TCP protocols, verified with Verus:
the raw 1024-byte panel packets and the Cora framing, plus the logic of device
emulators (Stream Deck Studio, NetworkDock, and a manager of several devices) and
of the interactive consoles.

## Layout

- `src/protocol/` – wire formats: zero-padded packets, command encoding, event
  decoding, Cora messages (encoding, decoding, magic search).
- `src/connection.rs`, `src/cora_connection.rs` – the client side of the two
  protocols: serial number handshake, keep-alive answers, message ids,
  reassembly of received Cora messages.
- `src/device.rs`, `src/image.rs` – what each device operation checks and which
  packets it sends; JPEG re-encoding (through the `image` crate) and paging.
- `src/emulator/` – the emulated devices: event payloads, GET_REPORT answers,
  message handling and state, framing of received bytes, console commands,
  logging decisions, and the manager's device registry.
- `src/client.rs` – the client console's command line.
- `src/text.rs` – numerals, whitespace splitting and number parsing.
- `src/properties.rs` – properties that relate the client side and the
  emulated devices (keep-alive round trip, framing of encoded messages, serial
  number reports, event payloads that the decoder reads back, two messages
  read back intact however the stream is cut).
- `app/` – the programs around the library: TCP connections, the device API,
  the emulator servers, the manager and the client (tokio).
- `tests/` – tests of the library.

## What rests on trust

Calls into std and the `image` crate stand behind items whose contracts Verus
takes as given; each says in its doc comment what it claims. One claim is not
established by reading the source: that every image decoder the `image` crate
enables returns an error, rather than panics, on malformed bytes. The JPEG
bytes themselves are not named, since resampling computes with `f32` sines
whose last bits may differ between machines; the contracts relate each JPEG to
the bytes, width and height it was made from, and state the size in its frame
header.
