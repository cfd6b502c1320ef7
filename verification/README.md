# dicta

Speech to text for the command line, for a status bar and for the web: providers that
transcribe files or run live, captions on a terminal, an HTTP service with the API of
OpenAI, and packages that bring further providers.

- `src/` is the library, with contracts that Verus proves: how options choose a provider,
  how captions are drawn, how packages are fetched, checked and unpacked, where utterances
  begin and end, the wire formats, the live sessions as state machines, and the laws that
  hold of them together.
- `app/` holds the programs around it (`dicta`, `vo`, `dicta-tray`, `dicta-qianwen`):
  arguments, files, processes, the network, the microphone and the windows.
- `tests/` runs the library, with the crates that it calls.

Where the library calls an outside crate, a small function with a stated contract stands
between them: `serde_json`, `hound`, `jiff`, `earshot`, `md5`, `sha2`, `base64`, `tar` and
`flate2`. These contracts are the part that is believed and not proved.
