# glycerine

A network proxy between an AWS Nitro enclave and its parent VM. On the host,
it captures IP packets bound for the enclave's ports with a netfilter queue
and forwards them over vsock; in the enclave, it writes the packets it
receives to the network interface through raw IPv4 sockets, and sends the
enclave's outgoing packets back the same way. A small bootstrap service on
the host tells the enclave its address, MTU and port ranges.

## Layout

- `src/` — the library, verified with Verus:
  - `packet` — tcpdump-style one-line summaries of IPv4/TCP/UDP packets;
  - `worker` — the decisions of the packet pumps (header check, sink
    choice, partial sends, recovery after failures);
  - `pump` — the two packet pumps as state machines: from a state and the
    outcome of the last I/O, the next state and the next I/O to perform;
  - `parsers`, `decimal` — the command-line value readers (ports, port
    ranges, vsock and IPv4 socket addresses) and their error messages;
  - `cli` — the settings and the port-overlap check;
  - `bootstrap` — the bootstrap record and the services' decisions;
  - `interfaces`, `system`, `netfilter` — interface selection, address
    display, the ephemeral port range, interface settings, netfilter
    rulesets and the netfilter queue subscription;
  - `proxy`, `error` — the entry point's decisions and the error type.
- `tests/` — tests of the library.
- `app/` — the program: command-line parsing with clap, logging, sockets,
  netlink, ioctls and the async runtime, calling the library for every
  decision.
