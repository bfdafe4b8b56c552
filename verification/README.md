# qr_screen

A tray program that reads QR codes off the screen. A click on the tray icon
opens an overlay over all monitors; dragging out a rectangle searches that part
of the screenshot for a QR code. The text goes to the clipboard and to a history
that the context menu of the icon offers.

`src/` is the verified library. It decides what every window message asks for,
what the overlay, the menu, the balloons and the icon show, and what is read
from the pixels of a selection:

- `messages`: message, command and result numbers
- `geometry`: points, rectangles, mouse positions
- `overlay`: the selection overlay as a state machine
- `paint`: the drawing steps of the overlay
- `pixels`, `binary64`: bitmap sizes, darkening, grayscale in double precision
- `qr`: finding and decoding a code, by way of `image` and `rqrr`
- `raster`: black-and-white pictures and their connected parts
- `search`: on which pictures the search of `rqrr` is known to end without a
  failing assertion or an overflow
- `text`: UTF-16 labels and fixed-size fields
- `history`, `menu`: the texts read so far and the context menu
- `tray`: the main window, its balloons, and how results are reported
- `icon`: the tray icon

`app/` performs what the library asks for: windows, bitmaps, the clipboard. Where
the library hands a picture over unsearched, `app/` has `rqrr` find the grids in
it, and the library decodes them.
