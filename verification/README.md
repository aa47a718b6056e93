# emskin-dbus

A selective broker for the D-Bus session bus, for compositors that run nested in
another one, together with the parts of such a compositor that decide rather
than draw. The library is written in [Verus](https://github.com/verus-lang/verus):
each function has a contract, and the contracts are proved.

## What it does

An embedded application reports its text cursor to the input method in the
coordinates of its own window. The broker stands between the application and the
session bus, reads the messages that pass, and moves those coordinates to where
the window really is. Everything else passes unchanged.

## Layout

`src/` is the library.

- `dbus`: the wire format. `frame` parses, inspects and builds messages,
  `fields` and `marshal` are their header fields, `args` the arguments of their
  bodies, `message` the headers that the broker observes, `sasl` the handshake
  in front of the messages.
- `broker`: what happens to the bytes of one connection. `state` is the state
  machine, `rewrite` applies the rules of `rules` to what it forwards, and `laws`
  holds what is true of a stream as a whole, however it is cut into chunks.
- `dbus_broker`: all connections of a broker and the bytes that wait on them.
- `fcitx`: recognising the calls of the fcitx input method and answering them.
- `codec`, `protocol`, `ctl`: the control channel between a compositor and a
  broker in a process of its own.
- `state::ime`, `effect`, `keymap`, `ipc`: input-method focus, the chain of
  effects, the host's keymap, and messages from the editor.
- `bytes`, `text`: helpers.

`app/` is the program around it: sockets, threads, JSON, and the toolkits of the
compositor. It hands the library plain values and does what the library says.

`tests/` runs the library.

## What is taken on trust

Encoding and decoding of single D-Bus values go through the `zvariant` crate.
The functions that call it are in `dbus::marshal` and `dbus::args`; each says
what it claims of the call. `keymap` makes one such call into the standard
library.
