# erpc_rust

A blocking implementation of the eRPC remote procedure call protocol whose
logic is verified with Verus.

- `src/` is the verified library:
  - `codec`: the basic message codec (little-endian integers, length-prefixed
    binary and string fields, the eight-byte message header);
  - `crc16`: the CRC-16 of the framing;
  - `transport`: the message-level `BlockingTransport` contract, the CRC
    framing over raw byte links (`blocking_framed`), the in-memory transport
    pair (`blocking_memory`) and the USB interface selection and receive
    buffering (`rusb`);
  - `blocking_client`: the client manager (sequence numbers, request
    encoding, reply checking);
  - `server::blocking`: the single-threaded server, services with method
    routing, and the server builder. A server holds services of one type and
    a service handlers of one type; `Box<dyn BlockingService>` and
    `Box<dyn BlockingMethodHandler>` let them hold several kinds at once.
- `app/` holds what Verus does not check: the async transport traits and the
  USB transport that drives `nusb`, built on the library's framing, selection
  and buffering functions.
- `tests/` exercises the library on concrete values.
