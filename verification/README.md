# wx_cli

What a local daemon answers about the chats, contacts, favourites and posts that a messenger keeps in
its databases, and what a command line shows of it.

- `src/` is the library: how rows become lists, how names are found, which statements are put to the
  databases, how times and configurations are read. Every function in it is verified with Verus
  but these: the calls into other crates and into std that stand in `outside.rs`, `time.rs`,
  `json.rs`, `config.rs` and `text.rs`. Their contracts are believed, and the comment above each says
  what is believed of it.
- `tests/` runs the library, with the other crates linked.
- `app/` is the program around it: arguments, files, sockets, databases and JSON.
