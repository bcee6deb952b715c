# mira

Mira watches stream keys on [Broadcast Box](https://github.com/glimesh/broadcast-box)
hosts and announces them in Discord channels; a command line tool checks or
watches a single key and captures thumbnails.

- `src/` is the verified library (Verus): host workers and their dispatch,
  stream statuses from the host's summaries, the announcement decisions and
  embeds, the chat commands' replies, the STUN and H.264 readers, the command
  line grammar, and the row and token formats of the store.
- `tests/` runs the library on concrete values.
- `app/` is the program around it: the Discord bot (poise/serenity), the
  SQLite store (sqlx), the HTTP and WebRTC clients (reqwest, str0m) and the
  command line entry point. It calls the library for every decision.

Run `mira status <key> --url <URL>`, `mira watch <key> --url <URL>`,
`mira thumbnail <key> --url <URL> --output <FILE>`, or `mira bot` with
`DATABASE_URL` and `DISCORD_TOKEN` set.
