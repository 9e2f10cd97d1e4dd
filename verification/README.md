# discord_music_bot

A Discord bot that plays the songs of a directory in voice channels. What the bot decides
is a verified library; what it does on the network and on disk is a thin program around it.

- `src/` is the library. `song` turns a walk through the music directory into a list of
  songs, `command` reads and describes the slash commands, `state` remembers the joined
  channel of each guild, `script` says what each command replies and does, `order` draws
  random playing orders, and `run` carries a command from the interaction to its last action,
  one answered action at a time. `trace` and `laws` prove what holds of whole runs.
- `app/` is the program. It walks the directory, talks to Discord, performs the actions that
  a run asks for, and hands the answers back.
- `tests/` holds the tests of the library.

The program reads the bot's token from `DISCORD_TOKEN` and the music directory from
`MUSIC_DIR`.
