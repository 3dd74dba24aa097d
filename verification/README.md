# zenvi

The verified core of Zenvi, a Neovim GUI front end that embeds `nvim --embed`
and speaks MessagePack-RPC with it.

- `src/` is the library, verified with Verus: the editor state that Neovim's
  `ext_linegrid` redraw events maintain (`state`, `events`), the RPC value and
  message model (`value`, `protocol`), the MessagePack byte stream on
  Neovim's pipes (`msgpack`), the session's decisions and outgoing
  messages (`session`, `commands`), key and mouse handling (`input`, `mouse`,
  `ime`), the renderer's row cache and layout decisions (`render`), guifont
  parsing and font matching (`font`), window titles, command-line arguments
  and file URLs (`titlebar`, `window`), key bindings and menus (`actions`),
  bundled assets (`assets`), and properties that span several operations
  (`laws`).
- `tests/` exercises the library on concrete values.
- `app/` is a small program around the library: it starts Neovim, moves
  the bytes over its pipes, and reports what the redraws change.

There is no window here.  The desktop front end draws with the `gpui` UI
framework, and that drawing code (pixel geometry in floating point, GPU
text shaping) is not part of this crate; what it draws (titles, colours,
menus, row layout, cursor shape, scroll and resize decisions) is decided by
the library, and `app/` prints those decisions instead of drawing them.
