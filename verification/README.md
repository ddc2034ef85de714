# echo — a terminal RSVP reader, verified

`ech` flashes a text one word at a time at a fixed spot on the screen.
This crate holds its logic as a Verus-verified library, and the terminal
program around it.

- `src/` — the library. Every function is proved against its contract,
  except five trusted wrappers whose contracts are taken on trust:
  `String::push`, `char::is_alphanumeric`, `Path::extension`,
  pulldown-cmark's parser and readability's article extraction (with the
  base URL parsed by `url`). Their doc comments say what is claimed.
  - `rsvp` — playback: the state machine that answers each key or timer
    tick, key bindings, word timing and pauses at punctuation, the screen
    layout of the current word, status line, progress bar and help box,
    splitting text into words;
  - `picker` — the word picker: greedy layout of words in a grid,
    scrolling, cursor moves;
  - `orp` — the anchor letter of a word;
  - `config` — settings and how a config file's values are laid over them;
  - `theme` — colour themes and picking one from `COLORFGBG`;
  - `source` — which reader a path needs, Markdown and HTML to text, the
    tag-stripping fallback;
  - `tts` — the utterance text for narration and mapping spoken offsets
    back to words;
  - `text` — character-level helpers (padding, lower-casing, decimals).
- `app/` — the `ech` program: arguments, config file, reading files,
  stdin and web pages, the terminal loop and drawing, macOS narration.
- `tests/` — tests of the library on concrete values.
