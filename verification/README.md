# shellbird

A terminal client for the music player daemon (mpd), with menus of the
library, the queue, playlists, tags and a genre tree, a vim-like command
line with key bindings, and a tag editor.

The logic lives in `src/` and is verified with Verus:

- `text`, `keys`, `color`, `align`: strings, key notation, colors, alignment;
- `command`, `command_line`, `describe`: reading commands, the command line
  and its key bindings, and the text of events;
- `menu`, `components/*`, `splitter`, `screen`: the components, how they
  react to events, how splitters lay out their panels and how focus moves;
- `paint`: what each component draws, as a stream of terminal instructions;
- `layout`: reading the layout file into the table of components;
- `styles`: the genre tree and the songs of each genre;
- `tagger`: which ID3 frames the tag editor's tags go into, and the
  tagger's folders and messages;
- `client`: the event loop's decisions, one event at a time.

`app/` is the program around it: command-line options, configuration
files, the terminal, the threads that talk to mpd, the keyboard and the
signals, and the file work of the tagger. `tests/` holds the tests.
