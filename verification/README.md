# gud_gadget

The device side of the Generic USB Display (GUD) protocol, verified with Verus.

- `src/` is the verified library:
  - `wire`: little-endian integer encoding and its round-trip lemmas;
  - `flags`, `formats`: the protocol's flag words and enumerations;
  - `descriptors`: display descriptor, display mode, connector descriptor and
    set-buffer request, with their exact byte layouts;
  - `protocol`: dispatch of control requests and the answer payloads;
  - `frame`: LZ4 decompression of a frame transfer and the copy of its
    rectangle into the framebuffer;
  - `colors`: conversion of the pixel formats to `0xAARRGGBB`, and the
    pixels shown for a frame (32-bit frames are read as words in place);
  - `video_mode`: reading `WIDTHxHEIGHT@FRAMERATE`;
  - `backends`: names of the rendering backends.
- `app/` is the display program: USB gadget setup, control and bulk
  transfers, command line, and the window.
- `tests/` runs the library on concrete values.
