# piky

A Mermaid diagram editor for the GNOME desktop. The editor shows Mermaid
source next to a canvas that draws the diagram and logs which element a
click lands on.

The crate is split in two:

- `src/` is the library, verified with Verus:
  - `config`: the build-time settings, and the colon-separated author list
    split into names (with the laws that the parts join back into the list
    and hold no separator);
  - `completion`: which typed characters ask for completions, snippet
    placeholders (nested ones included) resolved to plain text, UTF-16 columns of the completion
    engine mapped to and from character offsets of the text buffer (with a
    round-trip law), what accepting a proposal does to the buffer, and the
    completion session that hands the buffer to `merman-editor-core`;
  - `diagram`: parsing Mermaid source with `merman-core`, the kinds of
    diagram and which one is drawn, the color palette, and for class
    diagrams the scene index that decides how each node and edge is drawn
    and what a click picks;
  - `diagram_view`: a diagram's layout as JSON text, for logging;
  - `svg_render`: a diagram as SVG text that usvg can read;
  - `editor`: the style scheme matching a light or dark desktop;
  - `text`: blank text, prefixes and equal texts.
- `app/` is the GTK program around it: windows, the source view, the GSK
  canvas with its floating-point geometry, pan and zoom, and logging.
