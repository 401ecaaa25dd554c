# nethernet

The protocol layer of NetherNet, the WebRTC-based network protocol of newer
Minecraft versions, verified with Verus.

- `server_data`, `motd`: the server data a LAN server advertises, and a
  builder for it; marshalling and unmarshalling, proved inverse.
- `packet`: discovery packets (request, response, message), their header,
  and the framing of a packet as an HMAC-SHA256 checksum followed by the
  AES-256-ECB encrypted payload; unmarshalling a marshalled packet gives it
  back.
- `crypto`: the protocol key, encryption with PKCS#7 padding, checksums.
- `message`: splitting long messages into segments and putting them back
  together, proved to give the message back.
- `error`: `NethernetError`; a size, the end of the input, a byte string
  too long for its length and a segment out of sequence have variants of
  their own, every other failure is `Other` with its text. The contracts
  speak of an `ErrorKind` and say, with `describes`, which error gives it.
- `codec`, `hexcodec`, `text`: little-endian fields, hex, decimal numbers.
- `app/`: `run_join`, the joiner's entry point of the Flutter front end.
