# axiom_carriers

Mail-borne transport for the AXIOM network, verified with Verus.

- `antie` is the mail gateway. It takes requests out of mail (mail directories, POP3, IMAP), has
  the validator's core and the ledger service deal with them, and mails the answers back.
- `tot` is the tunnel in front of a validator. One listening socket takes raw frames and
  WebSockets; it fills the validator's inbox or passes bytes on to attested nodes.

## Layout

- `src/` is the library: formats (CBOR, JSON, mail), rules (routing, rate limits, skip lists,
  deliveries, fan-out) and the state of the gateway, each with its contract. Files, sockets,
  clocks and the core are outside; what they gave comes in as plain values, and what is to be done
  goes out as plain values.
- `app/` is the program around it: command line, files, sockets, signals. `app/bridge.rs` holds
  all calls into the protocol's own crates, which are not published.
- `tests/` runs the library with the real outside crates.

Public proof functions whose names begin with `law_` state what holds across functions: for
instance that a value written as CBOR is read back and no part of it is, that a sender never sees
a receiver's cheque, that the counters over a batch of mails add up, or that a fan-out message is
dealt with once.
