# mondrian

The tiling logic of the Mondrian window manager for Windows, verified with
Verus.

- `src/` is the library: geometry of screen areas, container keys and
  layers, the focus history, floating windows, configuration lookup, the
  event registry, monitor naming, window classification rules and the
  decisions of the tiles manager (which command a message asks for, which
  operation a command performs, where a window goes, which workspace a
  monitor shows, which window gets the focus). The functions state their
  behaviour in their contracts, except the error text of
  `TilesManagerError::get_info`, which is the derived debug form;
  `src/laws.rs` holds the properties that relate several of them.
- `tests/` runs the library on concrete cases, among them the examples of
  the user documentation (moving windows between monitors, choosing the
  window to focus).
- `app/` is the Windows side: reading keys and monitors, hooking window
  events, the easing curves of the animations (floating point), logging,
  and the configuration form of the animation types.
