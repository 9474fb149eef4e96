# solid_jsx

A compiler for the JSX of Solid.  It turns JSX into templates and the calls that
bring them to life, for the DOM, for a universal renderer, for a mix of the two,
and for the server; and it prepares modules for being replaced while they run.

The library under `src/` is written in Verus.  Every function says in its
contract what it returns, over mathematical values of the trees, and is proved to
do so.

## Layout

- `ast`, `make`, `copy`, `peel`, `text`: syntax trees, texts and their values.
- `options`, `interface`, `vocabulary`, `info`, `marker`: what a transform is
  told; `plan`: what is to be done with a source.
- `ir`, `merge`, `template`, `statics`, `order`, `scan`: results, templates,
  values that fold, the order of texts, and questions about trees.
- `attributes`, `handlers`, `properties`, `style`, `attribute`, `spread`,
  `frame`, `all_attributes`, `place`, `element`, `output`: the DOM renderer.
- `universal`, `arrange`, `node`: the universal renderer, and the choice between
  the renderers.
- `ssr`, `escape`, `ssr_attribute`, `ssr_attributes`, `ssr_element`: the server.
- `growth`, `growth_attributes`, `growth_elements`, `growth_laws`, `lengthen`,
  `lengthen_attributes`, `lengthen_laws`, `ssr_growth`, `ssr_laws`: what a whole
  transform keeps, and how its templates begin and end.
- `nesting`, `nesting_make`, `nesting_attributes`, `nesting_elements`,
  `nesting_nodes`, `nesting_laws`: the JSX inside what is put out, and why putting
  it out comes to an end.
- `able`, `entry`, `deferred`, `deferred_laws`, `resolve`, `imports`, `program`,
  `flatten`, `flatten_all`, `flatten_laws`, `capture`, `capture_class`,
  `capture_laws`, `file`, `file_laws`: files as a whole.
- `recover`: sources that the parser gives up on.
- `refresh_tree`, `refresh_names`, `refresh_extract`, `refresh_walk`,
  `refresh_trees`, `refresh_laws`: modules that are replaced while they run.
- `outside`: what is taken on trust from other crates and from `std`.

`app/` parses, walks and prints with the crates of the Oxc project; what needs a
node of theirs is handed to the library as a tree of its own, in which a node
that is only carried along is a number.
