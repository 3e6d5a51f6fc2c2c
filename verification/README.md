# sozu_core

The decisions of a reverse proxy, written and proved in [Verus](https://github.com/verus-lang/verus):
how a configuration file becomes listeners, clusters and orders, how the main process talks to its
clients and workers, and how sessions move bytes between their sockets. Everything that touches a
file, a socket, a thread or a clock lives outside of the library, which is handed plain values and
hands plain values back.

## Layout

- `src/config` – from the configuration file to the configuration that the proxy runs with, and to
  the messages that bring a worker there.
- `src/command` – the main process: requests of clients, orders for workers and the collection of
  their answers, saving and loading the state, launching and replacing workers.
- `src/protocol` – the protocol states of a session: the pipe between a frontend and a backend, the
  header of the proxy protocol, the TLS handshake.
- `src/proxy.rs`, `src/worker.rs` – what a worker is ordered to serve, and a worker as a test harness
  drives it.
- `src/buffer.rs`, `src/ready.rs`, `src/session.rs`, `src/collections.rs`, `src/text.rs`,
  `src/path.rs`, `src/address.rs`, `src/ulid.rs`, `src/certificate.rs` – what the rest is made of.
- `tests` – examples of everything above on given values.
- `app` – files, sockets, threads and tasks around the library.

## How it is specified

A type `X` has a mathematical model `XModel`, which its `deep_view` or `view` gives. Functions are
specified over these models: what they return and what they leave behind is a spec function of what
they got.

Work that alternates with the outside world is a state machine. A function takes the state and an
event, and returns what is needed next: `Pipe::ready`, `ExpectProxyProtocol::ready`,
`TlsHandshake::ready`, `CommandServer::load_state`, `CommandServer::worker_order` and
`CommandServer::upgrade_worker` are of this kind. The event loop performs the step and comes back with
the next event.

Properties that hold of several functions together are public proof functions whose names begin with
`law_`.
