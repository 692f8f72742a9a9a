# ArcThumb

Thumbnails and previews for comic book archives, ebooks and Live Photos in
the Windows file manager.

`src/` is the library: what can be decided without floating point, written
in Verus and proved. It picks the cover of an archive, orders names the way
people do, loads and saves the settings, plans the decoding and the marking
of thumbnails, and keeps the state of the preview pane with its loaders and
players. Each public function states in its contract what it returns and
when it fails. Public proof functions state what holds of several functions
together.

The library calls nothing of the system. Streams, windows, players and
bitmaps are opaque values or plain numbers; where something has to be done
outside, a function returns what, and another one takes the outcome. Picture
scaling comes from the `image` crate. Arithmetic on fractions is done on
integers, rounded exactly as floating point numbers are.

`app/` is the ordinary Rust around it: COM objects, threads, the registry,
the media pipeline and the bundled decoder. The layout of a label, its size
included, is floating point and decided there too. The parts that need
Windows are compiled there only.

`tests/` runs the library on concrete values.
