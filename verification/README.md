# azul_dom

The DOM data model of a GUI toolkit, verified with Verus.

- `src/events.rs`: event filters (hover, focus, window, ...), the `On` shorthands and
  the conversions between filter kinds.
- `src/tab_index.rs`: tab indices and their HTML numbers.
- `src/tag_id.rs`: hit-test tags and the counter that hands them out.
- `src/resources.rs`: handles to images, texts, user data and callbacks.
- `src/css.rs`: the CSS property type of `azul-css`, carried on nodes.
- `src/node_data.rs`: a single DOM node, its builders, and its HTML.
- `src/id_tree.rs`: the node links of an arena-based tree.
- `src/dom.rs`: DOM trees, their HTML and debug descriptions, and their flattening
  into an arena.
- `src/debug.rs`: debug descriptions of nodes and their parts.
- `src/text.rs`: decimal numbers and the text facts behind the HTML layout.
- `app/lib.rs`: the process-wide tag counter and iterator-based constructors.
