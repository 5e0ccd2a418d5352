# Bluetooth LE host protocols, verified

A library of the host side of Bluetooth Low Energy: the Attribute Protocol (client and
server), the Generic Attribute Profile server, the advertising data of the Generic Access
Profile, and the values that the Android and Linux Bluetooth interfaces exchange. The
functions are verified with Verus against contracts written over mathematical models
(sequences of bytes, maps and sets). Four small functions are trusted rather than verified:
they only call `format!` for the text of an error, or `core::str::from_utf8`, and are marked
`#[verifier::external_body]` in `src/att.rs`.

Layout of `src/`:

- `uuid` — Bluetooth UUIDs and their 16 and 32 bit short forms.
- `l2cap` — the channel identifier and payload of an L2CAP frame.
- `att` — the transfer format of attribute values (`TransferFormat`), attributes and their
  permissions; `att::pdu` the protocol data units; `att::server` the attribute server, with
  `att::server::response` stating each response byte for byte; `att::client` the client;
  `att::laws` the round trips of the transfer formats.
- `gatt` — building a GATT server out of services and characteristics, and its read by group
  type answer; `gatt::characteristic` the characteristic descriptors.
- `gap` — the connection channel trait and, in `gap::advertise`, the advertising data
  structures (flags, local name, service UUIDs, service data) and their raw forms.
- `android`, `linux` — the plain values of those platforms' Bluetooth interfaces, and the
  packet buffer of a connection.

The laws of the library are public proof functions (`lemma_*`), each with a doc comment that
states it in words. The tests under `tests/` run the library on concrete values.
