# coral

The protocol codec, world storage formats and game rules of a Minecraft
1.7/1.8 server, written in Verus with their contracts proved.

- `src/` is the verified library: packet framing and fields, the packets,
  chat text, connection encryption (the RSA exchange of the shared secret
  and the AES-128 CFB-8 stream), the NBT format, Anvil chunks and region files, level and player
  files, the block world with its fluid simulation, the block kinds by id, using
  buckets and signs on blocks, furnaces, containers,
  status effects, the world clock, commands, ban and white lists, connection
  throttling and the server configuration. Public proof functions named
  `law_*` state what holds across calls: what a read gives back of a write,
  what an update leaves unchanged, what a tick keeps in range.
- `tests/` runs the library on concrete values.
- `app/` is the server around it: sockets, files, the tokio tasks, the
  server's RSA key and the serde forms of the configuration and lists. It
  answers the server list and checks logins (version, bans, throttling,
  whitelist, and in online mode the encryption response), but it does not
  host players yet: session-server authentication and the play state are
  not built, every admitted player is told so, and the status shows no
  sample players. The play-state decisions themselves (digging, placing,
  dropping, held slots, creative inventory, window clicks, respawning,
  sneaking and sprinting, attacks, keep-alives, chat routing, the steps of
  joining)
  stand verified in `src/play_state.rs`.

Compression (flate2), UUID formatting (uuid), RSA and AES (rsa, aes, cfb8),
random verify tokens (rand) and the clock are called through a few trusted
wrappers whose contracts name their results.
