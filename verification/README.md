# wlprompt

A prompt bar for starting programs under Wayland.

- `src/` is the library, verified with Verus: the line editor and its key bindings
  (`app`, `app/readline`), the text entry fed by Wayland key events (`gui/wayline`), the
  premultiplied colour arithmetic (`gui/color`), loading the font and placing rasterized glyphs
  (`gui/text_renderer`; the font itself is parsed by fontdue and its naming table read by
  ttf-parser, both trusted through one wrapper each, while the check that the font name can be
  decoded is verified), and the state and frame composition of the user interface
  (`gui/wayland`), with the key events held as plain values (`gui/keyboard`).
- `app/` is the program: the Wayland connection, the layer surface and shared-memory
  buffers, finding and reading the font file, layout and rasterization, and `main`.
- `tests/` exercises the library.
