# kcptun

The verified core of a tunnel that carries TCP connections over KCP. The library
holds the data structures, packet formats, ciphers and state machines of the
tunnel. Verus proves the contract of every function in `src/` but those listed
under "What is taken on trust".

## Layout

| Module | What it holds |
| --- | --- |
| `qpp` | the permutation pad cipher: generator, key expansion, pads |
| `kcp` | settings, buffers, connections, the flush loop, peer queues, the listener |
| `smux` | what drives a multiplexed connection and holds its writers back |
| `common` | key derivation, mode profiles, addresses, rate limit, Snappy framing, sessions, the encrypted transport, the statistics log |
| `kio` | TCP segments on raw sockets, copying between streams, batches of datagrams, signals |
| `client` | options, the pool of connections, a client's connection |
| `crypto` | PBKDF2, HMAC and AES as functions on bytes |
| `wire`, `text`, `calendar` | big-endian numbers, text, dates |

State machines take what the outside world did as plain values and return what
to do next, so that reading, writing and waiting are left to the caller. Times
are plain numbers; peers of a listener are numbers that the caller gives them.

Laws that span several functions are public proof functions whose names begin
with `law_`: that decryption undoes encryption however the data is cut, that
frames come through a compressed session in order, that a listener's peers do not
disturb each other, that no stream's end is announced before its bytes are
written, and so on.

## What is taken on trust

The contracts of the functions marked `external_body` are not proved. They call
`pbkdf2`, `hmac`, `sha1`, `sha2`, `aes`, `snap` and `bytes`, the system's clock and
`Vec::capacity`. The contract of `String::push` is assumed too, in `text`. Each
says in its comment what it claims. `std::io::Error` and `bytes::Bytes` are
declared, and nothing is claimed of what the first holds.

## The program

`app/` is ordinary Rust around the library: the command line, the configuration
file, sockets, threads and log files. The engines of KCP, error correction, the
ciphers and the multiplexer come from other crates behind the traits in
`app/stack.rs`.
