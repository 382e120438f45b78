# gamescope

The decisions of a game-focused Wayland compositor as a verified library, and the program
around it.

`src/` holds everything that can be decided from plain values: the wire formats and
requests of the compositor's own protocols, hotkeys, input methods, swapchain timing,
Steam's window policy and its X11 properties, the selection of connectors and modes, the
pacing of frames, the command line. Surfaces, resources and windows are numbers there, and
every function says in its contract what it returns or changes. The laws that span several
functions are the public functions whose names begin with `lemma_`.

`app/` holds the event loops, sockets, threads, rendering and floating-point geometry. It
carries out the effects and actions that the library asks for, and reports back what
happened. It expects the generated bindings of the compositor's protocols as a crate named
`gamescope_protocols`.

`tests/` runs the library on concrete values.
