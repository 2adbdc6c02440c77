# aa-minimize-wasm

A packet hook for an Android Auto proxy. A long press of one steering wheel button brings back the
car's native screen without ending the Android Auto session; a short press keeps its usual
meaning; while the phone has given up the screen, during a call for instance, the button is left
alone.

The logic is a library that [Verus](https://github.com/verus-lang/verus) verifies:

| Module | What it holds |
|--------|---------------|
| `wire` | the protobuf wire format: varints, tags, field bodies |
| `input` | the first key of an input report |
| `focus` | the focus in a video focus notification |
| `packet` | packets, and the two that the hook makes itself |
| `session` | the state of a session, and what comes of each packet |
| `component` | a session with the clock that times it |
| `encoding` | how messages are written, and the laws that they are read back |
| `behaviour` | laws on sessions, for one packet and for runs of packets |

The clock is the one thing that is trusted without a claim on it: `component` reads it, always
against the same epoch, and `session` is proved for every reading.

`app/` is the WebAssembly component around the library. It turns the proxy's types into the
library's, writes the log and sends packets.

## Build

`Cargo.toml` describes the library. To build it outside the verifier, add `vstd` to its
dependencies, in the version that goes with the Verus at hand. The component is a
package of its own, with `app/lib.rs` as its root. Its manifest, in `app/`, reads:

```toml
[package]
name = "aa-minimize-component"
version = "0.1.0"
edition = "2021"

[lib]
path = "lib.rs"
crate-type = ["cdylib"]

[dependencies]
aa-minimize-wasm = { path = ".." }
wit-bindgen = "=0.51.0"
```

The proxy's `wit` directory goes next to that manifest. `wit-bindgen` is pinned to the version
that the proxy's runtime understands. In `app/`:

```bash
cargo build --release --target wasm32-wasip2
```

## Configuration

The constants at the top of `src/session.rs` set the button's keycode, the length of a long press
and the least time between two requests. `SHORT_PRESS_KEY_DOWN` in `src/packet.rs` spells out the
keycode and has to change with it: `law_key_down_spells_the_trigger` fails to verify otherwise.
