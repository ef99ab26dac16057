# hypr-rdp

A native RDP server for the Hyprland compositor.

`src/` is the server's logic as a verified library:

- `capture`: the sizes a session may have, resize requests, the display's state, and the scaling of
  captured frames
- `display`: how a source is placed in the presentation
- `egfx`: H.264 headers and streams, colour conversion, the choice of devices and encoders, and the
  planning of hardware-encoded frames
- `clipboard`: text and pictures between a client and the desktop
- `config`: command line, configuration file and defaults
- `input`: keyboard layouts and the end of sessions
- `server`: session commands, the accept loop, and what a server is put together from

`app/` is the ordinary Rust around it: argument parsing, files, sockets, threads, and the VA-API
driver. Parts that belong to the desktop (the Wayland connection, the software codecs, keymaps) are
traits there.

`tests/` runs the library.
