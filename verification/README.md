# poster_maker

A poster tool: it cuts an image into a grid of A4 sheets that are printed,
trimmed, overlapped and pasted into one large poster, and it can also lay out
many identical items on one sheet.

- `src/` is the verified library: the command line (`cli`), decimal numerals
  (`decimal`), text helpers (`text`), output naming and placement (`paths`),
  the PDF writer with its cross-reference laws (`pdf`), decoded images and
  the image work on them (`raster`), the choice of item
  arrangement (`imposition`) and the sheet grid, overlaps, marks and printing
  order (`tiling`).
- `app/` is the program around it: reading and writing files, the point
  geometry of the preview and the pages, and the drawing commands.
