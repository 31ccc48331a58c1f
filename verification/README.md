# Remote Desktop

Watching and controlling the screen of another machine, with chat, files and a shared clipboard.

* `src/` is the library: what both ends decide and compute, each function with a contract that
  Verus proves.
  * `protocol`: messages of the reliable stream, video packets, and how frames are cut into
    packets and put together again.
  * `session`: chat history, file transfers, and the controller that looks for the bitrate which
    the link can carry.
  * `codec`: NAL units, and the bookkeeping round VideoToolbox and Media Foundation.
  * `capture`: the slot that hands out the newest frame, the synthetic screen, and the capture on
    macOS and Windows.
  * `input`: keys and buttons that are held, key maps, and the events for macOS and Windows.
  * `net`: the greeting, the two directions of a link, and the ways to a host.
  * `app`: the screens apart from the drawing, the command line, and Tailscale.
* `tests/` runs the library on given values.
* `app/` is the program round it: the window, threads, files and sockets. Video and transport of a
  platform are reached through the traits in `app/platform.rs`.

Numbers that are floating point on the wire are carried as their bits; arithmetic on them is left
to `app/`. There are two exceptions, in whole numbers: the bitrate controller, which gives the same
results as binary32, and the sizes that the screens show, which are rounded as binary64 would be.
