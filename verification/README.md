# lib — verified core of the ufbx loader

The byte-level logic of a loader for FBX (ASCII) and Wavefront OBJ/MTL
files, written in Verus with its behaviour stated in contracts and proved.

`src/` is the verified library:

- `ascii`, `ascii_token`, `base64` — the FBX ASCII lexer: whitespace and
  comments (with the version header and exporter comment), tokens, string
  escapes, embedded base64 content.
- `ascii_node` — the FBX ASCII node reader: names, values and arrays,
  nested children, kept in a list where each node follows its children.
- `matcher`, `format` — the small pattern language and file format
  detection from content and file name.
- `parse_state`, `values`, `node_values`, `dom`, `toplevel`, `props`,
  `names` — the FBX node state machine, array rules, value access, DOM
  retention, top-level node lookup, property lookup and name keys.
- `lines`, `obj_lex`, `obj`, `obj_file`, `obj_pop`, `mtl` — the OBJ/MTL
  readers: lines and tokens, indices, faces and meshes, materials and
  texture maps, material library lookup.
- `nurbs` — the integer side of NURBS tessellation (sample grids, faces,
  shared positions).
- `progress`, `opts` — bookkeeping and options.
- `laws` — properties that relate several functions.

`app/` holds what stays outside the verified library: floating-point math,
number conversion, file access and the drivers that feed the readers.
`tests/` runs the library on concrete inputs.
