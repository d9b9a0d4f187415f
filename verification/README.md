# easyquic

QUIC connections that are read and written like any other stream of bytes, on top of
[quiche](https://docs.rs/quiche) and tokio.

`src/` is the library: everything that is decided, written and proved in Verus. It does no I/O
and waits for nothing. A connection advances in steps, and each step ends with what is to be
waited for next.

| module | what it holds |
| --- | --- |
| `key` | addresses, connection ids, and the key that tells connections apart |
| `registry` | the connections that are alive, and who gets the packets of each |
| `task` | what to do with a packet, opening and accepting connections, the sides of a context |
| `opening` | how a stream is opened, and undone where that fails |
| `handshake` | the steps of a handshake |
| `run` | the steps of an established connection |
| `stream` | the two halves of a stream, as a reader and a writer see them |
| `event` | what wakes a connection, and the timer that may |
| `buffer`, `transport` | what is taken for granted of `bytes`, tokio and quiche |
| `error` | errors |

`app/` is the library on tokio: channels, locks, timers, and `AsyncRead` and `AsyncWrite` for the
streams.

What is taken for granted stands in `buffer`, `transport` and `task`, in the functions and
declarations whose comments name a function of another crate. Everything else is proved from
their contracts.

The manifest leaves out quiche's bundled TLS library. A program that uses `app/` enables quiche's
feature `boringssl-vendored` (or another one that brings TLS), which needs cmake to build.
