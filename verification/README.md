# Nada

Proxying UDP in HTTP ([RFC 9298](https://datatracker.ietf.org/doc/rfc9298/)) with HTTP Datagrams
and the Capsule Protocol ([RFC 9297](https://datatracker.ietf.org/doc/rfc9297/)), HTTP/3's
Extensible Prioritization Scheme ([RFC 9218](https://datatracker.ietf.org/doc/rfc9218/)) and packet
schedulers for multipath QUIC.

`src/` is the library. It holds the rules and does no I/O. Its functions are verified with Verus
against their contracts; the few that call `octets`, `sfv`, `rand`, `serde_json` or the standard
library directly say in theirs what is taken on trust.

| Module      | What it holds                                                              |
| ----------- | -------------------------------------------------------------------------- |
| `varint`    | Variable-length integers (RFC 9000, Section 16)                            |
| `capsules`  | Datagram Capsules: building them, and reading them from a stream           |
| `dgrams`    | HTTP Datagrams that carry UDP payloads                                     |
| `frames`    | Frames and field lines                                                     |
| `helpers`   | MASQUE URIs, Structured Field booleans, flow IDs                           |
| `prios`     | Priorities of streams, and the scheduler hint among them                   |
| `scheduler` | Which path carries the next packet                                         |
| `proxy`     | How the proxy is set up and answers requests                               |
| `client`    | How the client is set up, what it asks for and what it makes of the answer |
| `relay`     | What goes from a tunnel to its target, and back                            |
| `e2e`       | The HTTP/3 client inside a tunnel                                          |
| `stats`     | Reports as JSON                                                            |

The proof functions whose names start with `law_` say what holds of the library as a whole, such as
that what one end puts into a tunnel comes out at the other.

`app/` runs the library over real sockets, QUIC connections, files and clocks. The comparison of
completion times that the ECF schedulers rest on is floating-point arithmetic and is made there.

`tests/` runs the library on concrete values.

## Usage

```
masque-client --client-address [fd00:0:0:1::1]:0 --proxy-address [fd00:0:0:3::1]:443 \
  --target-ip fd00:0:0:4::1 --target-port 25565 --endpoint /index.html --reliable \
  --outer-prio "u=2,i,sched=eps-aware-ecf"

masque-proxy --proxy-address [fd00:0:0:3::1]:443
```

Each `--outer-prio` (or `--op`) opens one tunnel with that priority. `--reliable` puts UDP payloads
into capsules on the request stream; without it they go in datagrams. A `sched=` token in a priority
replaces the packet scheduler of the outer connection. Schedulers are named `lowrtt`, `minrtt`,
`roundrobin` (`rr`), `random` (`rand`), `lowestlatency` (`ll`), `ecf` and `sa-ecf`
(`eps-aware-ecf`, `stream-aware-ecf`).
