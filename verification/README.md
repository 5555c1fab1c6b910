# gbaroll

The logic of a link-cable rollback netplay client for handheld games, and of
the signaling server that brings its players together, as a library proved with
Verus.

- `replay`: the recording container (`.gbrr`), written and read back.
- `signaling`: the messages between client and server, and their bytes.
- `server`: the rooms behind the signaling server.
- `net`: the peer protocol, the mesh of peers, the exchange of boot payloads and
  the life of a room as a client sees it.
- `session`: solo play, netplay and playback of recordings, with seeking.
- `library`, `nointro`, `storage`: the ROM library, the names in it and the
  files behind it.
- `runtime`, `audio`, `effects`, `input`, `config`: what runs around a session.
- `ui`: what each screen shows and what its controls do.

Laws that span several functions are the public proof functions named `law_*`;
they stand beside the functions they speak of, or in a `laws` module below them.

`app/` is a command line around the library: the signaling server's sockets and
clock, listings of a directory of ROMs or of recordings, and the settings file.
It also keeps the few computations on floating-point numbers. The sockets, peer
connections, audio and tick loop of a client are its host's: the library says
what they do, one step at a time, and no host is part of this project.
