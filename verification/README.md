# rdpweb

A gateway between an RDP host and a browser. The host's MS-RDPEGFX AVC420
stream reaches the browser's WebCodecs decoder as it is: the gateway removes the
bitmap wrapper and passes the length-prefixed H.264 access units on, without
decoding or re-encoding them.

The decisions are made in a library that is verified with Verus; the program
around it moves bytes.

## Layout

- `src/` is the library.
  - `protocol`: the messages of the browser, and the video packet with its encoding.
  - `egfx`, `outcome`, `stamps`: the graphics channel, what its messages mean, and
    the timestamps of pictures.
  - `pdu`, `zgfx`, `codecs`, `avc`: what the channel is made of. Messages, bulk data,
    and the decoders of IronRDP that it goes through.
  - `pixels`, `bytes`, `text`, `clock`: small parts.
  - `config`, `rdp`, `session`, `relay`: which desktop to connect to, how, and what to
    do next at either end.
  - `laws`: what holds of the graphics channel as a whole.
- `tests/` runs the library, with the real decoders.
- `app/` is the program: command line, HTTP, WebSocket, TLS and RDP. It serves the
  page from the directory `web` beside `Cargo.toml`, wherever it is started.

## What is trusted

The proofs rest on the contracts of the functions marked `external_body` and of the
`assume_specification` items. They stand in `avc`, `clock`, `codecs`, `config`, `egfx`
and `pdu`, each with a comment that says what is claimed of the function behind it.
Where a decoder's result takes pages to describe, it has a name, and what the
gateway does with the result is proved for every value of it.

The decompressor and the decoder for messages take some things for granted about
their input. The library checks those before it calls them, and refuses what has not
the right shape.

## Progressive hosts

There is no renderer to fall back on. When a host selects RemoteFX Progressive, its
updates are left out, and the browser is warned once.
